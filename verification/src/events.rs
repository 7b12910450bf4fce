//! Event shapes: how a decoded payload is recognised as a storage, topic or
//! queue event, and which string of its first record routes it.

use serde_json::Value;
use vstd::prelude::*;

verus! {

/// `serde_json::Value`, the decoded payload of an invocation. Opaque here: it
/// is handed to the decoder and never looked into.
#[verifier::external_type_specification]
#[verifier::external_body]
pub struct ExValue(serde_json::Value);

/// `serde_json::Error`, the decoder's reason for refusing a payload. Opaque
/// here: only that there is one is read.
#[verifier::external_type_specification]
#[verifier::external_body]
pub struct ExJsonError(serde_json::Error);

/// The tag of an event shape. Together with a key string it names one route.
#[derive(Clone, Copy, Debug, PartialEq, Eq, Structural)]
pub enum Shape {
    /// A storage-object event, keyed by the action name of its first record.
    Storage,
    /// A topic-notification event, keyed by the topic identifier of its first record.
    Topic,
    /// A queue-message event, keyed by the source identifier of its first record.
    Queue,
}

/// Why an invocation could not be routed to a handler.
#[derive(Clone, Copy, Debug, PartialEq, Eq, Structural)]
pub enum DispatchError {
    /// The payload matches none of the shapes.
    UnrecognizedShape,
    /// The payload matches a shape, but its first record names no key.
    MissingRoutingKey,
    /// No handler is registered for the payload's shape and key.
    NoHandlerRegistered,
    /// The payload does not decode into the shape that the handler was registered for.
    EventConversionFailed,
}

impl DispatchError {
    /// The text that `describe` gives for this failure.
    pub open spec fn text(self) -> Seq<char> {
        match self {
            DispatchError::UnrecognizedShape => "Unable to get event type or name!"@,
            DispatchError::MissingRoutingKey => "No event name!"@,
            DispatchError::NoHandlerRegistered => "I don't have a handler for this event!"@,
            DispatchError::EventConversionFailed => "Failed to process event!"@,
        }
    }

    /// A sentence that says what went wrong.
    pub fn describe(&self) -> (r: String)
        ensures
            r@ == self.text(),
    {
        match self {
            DispatchError::UnrecognizedShape => "Unable to get event type or name!".to_owned(),
            DispatchError::MissingRoutingKey => "No event name!".to_owned(),
            DispatchError::NoHandlerRegistered => "I don't have a handler for this event!".to_owned(),
            DispatchError::EventConversionFailed => "Failed to process event!".to_owned(),
        }
    }
}

/// A payload together with the context of its invocation. The context is
/// carried along and never looked into.
#[derive(Debug)]
pub struct Request<T, C> {
    pub payload: T,
    pub context: C,
}

/// A storage-object event: the action name of each record, in order.
#[derive(Clone, Debug, PartialEq, Eq)]
pub struct StorageEvent {
    pub event_names: Vec<Option<String>>,
}

/// A topic-notification event: the topic identifier of each record, in order.
#[derive(Clone, Debug, PartialEq, Eq)]
pub struct TopicEvent {
    pub topic_arns: Vec<String>,
}

/// A queue-message event: the source identifier of each record, in order.
#[derive(Clone, Debug, PartialEq, Eq)]
pub struct QueueEvent {
    pub source_arns: Vec<Option<String>>,
}

/// A recognised event of any shape.
#[derive(Clone, Debug, PartialEq, Eq)]
pub enum Event {
    Storage(StorageEvent),
    Topic(TopicEvent),
    Queue(QueueEvent),
}

/// The characters of an optional string.
pub open spec fn optional_text(s: Option<String>) -> Option<Seq<char>> {
    match s {
        Some(t) => Some(t@),
        None => None,
    }
}

/// The characters of each optional string of a sequence.
pub open spec fn optional_texts(names: Seq<Option<String>>) -> Seq<Option<Seq<char>>> {
    names.map_values(|s: Option<String>| optional_text(s))
}

/// The characters of each string of a sequence.
pub open spec fn texts(names: Seq<String>) -> Seq<Seq<char>> {
    names.map_values(|s: String| s@)
}

/// Each key of a sequence, marked as present.
pub open spec fn all_present(keys: Seq<Seq<char>>) -> Seq<Option<Seq<char>>> {
    keys.map_values(|k: Seq<char>| Some(k))
}

/// What `serde_json::from_value` makes of a payload when asked for an
/// `S3Event`: nothing where it fails, else the action name of each record.
pub uninterp spec fn storage_decoding(request: Value) -> Option<Seq<Option<Seq<char>>>>;

/// What `serde_json::from_value` makes of a payload when asked for an
/// `SnsEvent`: nothing where it fails, else the topic identifier of each record.
pub uninterp spec fn topic_decoding(request: Value) -> Option<Seq<Seq<char>>>;

/// What `serde_json::from_value` makes of a payload when asked for an
/// `SqsEvent`: nothing where it fails, else the source identifier of each record.
pub uninterp spec fn queue_decoding(request: Value) -> Option<Seq<Option<Seq<char>>>>;

/// The discriminator of each record of `request` read as `shape`, or nothing
/// where the payload does not have that shape.
pub open spec fn decoding(shape: Shape, request: Value) -> Option<Seq<Option<Seq<char>>>> {
    match shape {
        Shape::Storage => storage_decoding(request),
        Shape::Topic => match topic_decoding(request) {
            Some(keys) => Some(all_present(keys)),
            None => None,
        },
        Shape::Queue => queue_decoding(request),
    }
}

/// The routing key among the discriminators of an event's records: that of
/// the first record, if there is a first record and it has one.
pub open spec fn first_key(discriminators: Seq<Option<Seq<char>>>) -> Option<Seq<char>> {
    if discriminators.len() > 0 {
        discriminators[0]
    } else {
        None
    }
}

/// Calls `serde_json::from_value` for an `aws_lambda_events::s3::S3Event` on a
/// copy of the payload. Trusted: it succeeds exactly where `storage_decoding`
/// holds a value, and the event then lists the `event_name` of each record.
#[verifier::external_body]
fn decode_storage(request: &Value) -> (r: Result<StorageEvent, serde_json::Error>)
    ensures
        r.is_ok() == storage_decoding(*request).is_some(),
        r matches Ok(ev) ==> storage_decoding(*request) == Some(optional_texts(ev.event_names@)),
{
    let parsed: aws_lambda_events::s3::S3Event = serde_json::from_value(request.clone())?;
    Ok(StorageEvent { event_names: parsed.records.into_iter().map(|r| r.event_name).collect() })
}

/// Calls `serde_json::from_value` for an `aws_lambda_events::sns::SnsEvent` on
/// a copy of the payload. Trusted: it succeeds exactly where `topic_decoding`
/// holds a value, and the event then lists the `sns.topic_arn` of each record.
#[verifier::external_body]
fn decode_topic(request: &Value) -> (r: Result<TopicEvent, serde_json::Error>)
    ensures
        r.is_ok() == topic_decoding(*request).is_some(),
        r matches Ok(ev) ==> topic_decoding(*request) == Some(texts(ev.topic_arns@)),
{
    let parsed: aws_lambda_events::sns::SnsEvent = serde_json::from_value(request.clone())?;
    Ok(TopicEvent { topic_arns: parsed.records.into_iter().map(|r| r.sns.topic_arn).collect() })
}

/// Calls `serde_json::from_value` for an `aws_lambda_events::sqs::SqsEvent` on
/// a copy of the payload. Trusted: it succeeds exactly where `queue_decoding`
/// holds a value, and the event then lists the `event_source_arn` of each record.
#[verifier::external_body]
fn decode_queue(request: &Value) -> (r: Result<QueueEvent, serde_json::Error>)
    ensures
        r.is_ok() == queue_decoding(*request).is_some(),
        r matches Ok(ev) ==> queue_decoding(*request) == Some(optional_texts(ev.source_arns@)),
{
    let parsed: aws_lambda_events::sqs::SqsEvent = serde_json::from_value(request.clone())?;
    Ok(QueueEvent { source_arns: parsed.records.into_iter().map(|r| r.event_source_arn).collect() })
}

/// The key among optional names: the first one, where it is there.
fn first_optional(names: &Vec<Option<String>>) -> (r: Result<String, DispatchError>)
    ensures
        match first_key(optional_texts(names@)) {
            Some(k) => r matches Ok(s) && s@ == k,
            None => r matches Err(e) && e == DispatchError::MissingRoutingKey,
        },
{
    if names.len() > 0 {
        match &names[0] {
            Some(name) => Ok(name.clone()),
            None => Err(DispatchError::MissingRoutingKey),
        }
    } else {
        Err(DispatchError::MissingRoutingKey)
    }
}

/// An event shape: how a payload is decoded into it, and which key routes it.
pub trait AwsEvent: Sized {
    /// The tag of this shape.
    spec fn tag() -> Shape;

    /// The discriminator of each record, in order; absent where the record
    /// has none.
    spec fn discriminators(&self) -> Seq<Option<Seq<char>>>;

    /// The tag of this shape.
    fn shape() -> (s: Shape)
        ensures
            s == Self::tag(),
    ;

    /// Decodes a payload into this shape. Succeeds exactly on the payloads
    /// that have the shape, with the records' discriminators as decoded.
    fn from_request(request: &Value) -> (r: Result<Self, serde_json::Error>)
        ensures
            r.is_ok() == decoding(Self::tag(), *request).is_some(),
            r matches Ok(ev) ==> decoding(Self::tag(), *request) == Some(ev.discriminators()),
    ;

    /// Decodes the payload of a request into this shape and keeps its context.
    fn from_event<C>(event: Request<Value, C>) -> (r: Result<Request<Self, C>, serde_json::Error>)
        ensures
            r.is_ok() == decoding(Self::tag(), event.payload).is_some(),
            r matches Ok(typed) ==> typed.context == event.context && decoding(
                Self::tag(),
                event.payload,
            ) == Some(typed.payload.discriminators()),
    {
        match Self::from_request(&event.payload) {
            Ok(payload) => Ok(Request { payload, context: event.context }),
            Err(e) => Err(e),
        }
    }

    /// The routing key: the discriminator of the first record. Fails with
    /// `MissingRoutingKey` where there is no record or the first has none.
    fn event_name(&self) -> (r: Result<String, DispatchError>)
        ensures
            match first_key(self.discriminators()) {
                Some(k) => r matches Ok(s) && s@ == k,
                None => r matches Err(e) && e == DispatchError::MissingRoutingKey,
            },
    ;
}

impl AwsEvent for StorageEvent {
    open spec fn tag() -> Shape {
        Shape::Storage
    }

    open spec fn discriminators(&self) -> Seq<Option<Seq<char>>> {
        optional_texts(self.event_names@)
    }

    fn shape() -> (s: Shape) {
        Shape::Storage
    }

    fn from_request(request: &Value) -> (r: Result<Self, serde_json::Error>) {
        decode_storage(request)
    }

    fn event_name(&self) -> (r: Result<String, DispatchError>) {
        first_optional(&self.event_names)
    }
}

impl AwsEvent for TopicEvent {
    open spec fn tag() -> Shape {
        Shape::Topic
    }

    open spec fn discriminators(&self) -> Seq<Option<Seq<char>>> {
        all_present(texts(self.topic_arns@))
    }

    fn shape() -> (s: Shape) {
        Shape::Topic
    }

    fn from_request(request: &Value) -> (r: Result<Self, serde_json::Error>) {
        decode_topic(request)
    }

    fn event_name(&self) -> (r: Result<String, DispatchError>) {
        if self.topic_arns.len() > 0 {
            Ok(self.topic_arns[0].clone())
        } else {
            Err(DispatchError::MissingRoutingKey)
        }
    }
}

impl AwsEvent for QueueEvent {
    open spec fn tag() -> Shape {
        Shape::Queue
    }

    open spec fn discriminators(&self) -> Seq<Option<Seq<char>>> {
        optional_texts(self.source_arns@)
    }

    fn shape() -> (s: Shape) {
        Shape::Queue
    }

    fn from_request(request: &Value) -> (r: Result<Self, serde_json::Error>) {
        decode_queue(request)
    }

    fn event_name(&self) -> (r: Result<String, DispatchError>) {
        first_optional(&self.source_arns)
    }
}

impl Shape {
    /// The place of this shape in the order in which payloads are tried:
    /// storage first, then topic, then queue.
    pub open spec fn rank(self) -> nat {
        match self {
            Shape::Storage => 0,
            Shape::Topic => 1,
            Shape::Queue => 2,
        }
    }
}

/// The shape that a payload is taken for: the first, in the order of `rank`,
/// that it decodes into.
pub open spec fn detected_shape(request: Value) -> Option<Shape> {
    if decoding(Shape::Storage, request).is_some() {
        Some(Shape::Storage)
    } else if decoding(Shape::Topic, request).is_some() {
        Some(Shape::Topic)
    } else if decoding(Shape::Queue, request).is_some() {
        Some(Shape::Queue)
    } else {
        None
    }
}

impl Event {
    /// The tag of this event's shape.
    pub open spec fn tag(&self) -> Shape {
        match self {
            Event::Storage(_) => Shape::Storage,
            Event::Topic(_) => Shape::Topic,
            Event::Queue(_) => Shape::Queue,
        }
    }

    /// The discriminator of each record, in order.
    pub open spec fn discriminators(&self) -> Seq<Option<Seq<char>>> {
        match self {
            Event::Storage(ev) => ev.discriminators(),
            Event::Topic(ev) => ev.discriminators(),
            Event::Queue(ev) => ev.discriminators(),
        }
    }

    /// The tag of this event's shape.
    pub fn shape(&self) -> (s: Shape)
        ensures
            s == self.tag(),
    {
        match self {
            Event::Storage(_) => Shape::Storage,
            Event::Topic(_) => Shape::Topic,
            Event::Queue(_) => Shape::Queue,
        }
    }

    /// The routing key of this event: the discriminator of its first record.
    /// Fails with `MissingRoutingKey` where there is no record or the first
    /// has none.
    pub fn event_name(&self) -> (r: Result<String, DispatchError>)
        ensures
            match first_key(self.discriminators()) {
                Some(k) => r matches Ok(s) && s@ == k,
                None => r matches Err(e) && e == DispatchError::MissingRoutingKey,
            },
    {
        match self {
            Event::Storage(ev) => ev.event_name(),
            Event::Topic(ev) => ev.event_name(),
            Event::Queue(ev) => ev.event_name(),
        }
    }

    /// Decodes a payload into the given shape, or fails where the payload
    /// does not have it.
    pub fn from_request(shape: Shape, request: &Value) -> (r: Result<Event, serde_json::Error>)
        ensures
            r.is_ok() == decoding(shape, *request).is_some(),
            r matches Ok(ev) ==> ev.tag() == shape && decoding(shape, *request) == Some(
                ev.discriminators(),
            ),
    {
        match shape {
            Shape::Storage => match StorageEvent::from_request(request) {
                Ok(ev) => Ok(Event::Storage(ev)),
                Err(e) => Err(e),
            },
            Shape::Topic => match TopicEvent::from_request(request) {
                Ok(ev) => Ok(Event::Topic(ev)),
                Err(e) => Err(e),
            },
            Shape::Queue => match QueueEvent::from_request(request) {
                Ok(ev) => Ok(Event::Queue(ev)),
                Err(e) => Err(e),
            },
        }
    }

    /// Recognises a payload: tries the shapes in their order and stops at the
    /// first that the payload decodes into. Nothing where it decodes into none.
    pub fn recognize(request: &Value) -> (r: Option<Event>)
        ensures
            match detected_shape(*request) {
                Some(shape) => r matches Some(ev) && ev.tag() == shape && decoding(shape, *request)
                    == Some(ev.discriminators()),
                None => r is None,
            },
    {
        if let Ok(ev) = StorageEvent::from_request(request) {
            return Some(Event::Storage(ev));
        }
        if let Ok(ev) = TopicEvent::from_request(request) {
            return Some(Event::Topic(ev));
        }
        if let Ok(ev) = QueueEvent::from_request(request) {
            return Some(Event::Queue(ev));
        }
        None
    }
}

/// A payload is taken for a shape exactly if it decodes into that shape and
/// into none that is tried before it.
pub proof fn lemma_first_match_wins(request: Value, shape: Shape)
    ensures
        detected_shape(request) == Some(shape) <==> (decoding(shape, request).is_some()
            && forall|earlier: Shape|
            earlier.rank() < shape.rank() ==> #[trigger] decoding(earlier, request).is_none()),
{
    let unmatched_before = forall|earlier: Shape|
        earlier.rank() < shape.rank() ==> #[trigger] decoding(earlier, request).is_none();
    if detected_shape(request) == Some(shape) {
        assert forall|earlier: Shape| earlier.rank() < shape.rank() implies #[trigger] decoding(
            earlier,
            request,
        ).is_none() by {
            match earlier {
                Shape::Storage => {},
                Shape::Topic => {},
                Shape::Queue => {},
            }
        }
    }
    if decoding(shape, request).is_some() && unmatched_before {
        if shape.rank() > 0 {
            assert(decoding(Shape::Storage, request).is_none());
        }
        if shape.rank() > 1 {
            assert(decoding(Shape::Topic, request).is_none());
        }
    }
}

/// A payload that decodes into exactly one shape is taken for that shape,
/// wherever the shape stands in the order.
pub proof fn lemma_only_match_is_selected(request: Value, shape: Shape)
    requires
        decoding(shape, request).is_some(),
        forall|other: Shape| other != shape ==> #[trigger] decoding(other, request).is_none(),
    ensures
        detected_shape(request) == Some(shape),
{
    lemma_first_match_wins(request, shape);
}

/// Of two shapes that a payload decodes into, the one tried later is never
/// the one it is taken for.
pub proof fn lemma_earlier_shape_wins(request: Value, earlier: Shape, later: Shape)
    requires
        decoding(earlier, request).is_some(),
        decoding(later, request).is_some(),
        earlier.rank() < later.rank(),
    ensures
        detected_shape(request) != Some(later),
        detected_shape(request) matches Some(shape) && shape.rank() <= earlier.rank(),
{
}

} // verus!
