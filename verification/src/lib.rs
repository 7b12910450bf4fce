//! An in-process router for serverless invocations: it recognises the shape of
//! a decoded event payload, reads the routing key of its first record and
//! selects the handler registered for that shape and key.

pub mod events;
pub mod handler;
