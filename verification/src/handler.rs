//! The registry of routes and the dispatch of a request to its handler.

use crate::events::{decoding, detected_shape, first_key};
use crate::events::{AwsEvent, DispatchError, Event, Request, Shape};
use serde_json::Value;
use vstd::prelude::*;

verus! {

/// A handler together with the tag of the shape it was registered for.
#[derive(Debug)]
pub struct AwsEventHandler<H> {
    pub shape: Shape,
    pub handler: H,
}

/// What dispatch hands back for the caller to run: the handler that was
/// selected, and the request decoded into the shape that the handler takes.
#[derive(Debug)]
pub struct Call<'a, H, C> {
    pub handler: &'a H,
    pub event: Request<Event, C>,
}

impl<H> AwsEventHandler<H> {
    /// Wraps a handler of events of shape `E`.
    pub fn new<E: AwsEvent>(handler: H) -> (r: Self)
        ensures
            r.shape == E::tag(),
            r.handler == handler,
    {
        AwsEventHandler { shape: E::shape(), handler }
    }
}

/// Whether `r` is what a handler registered for `shape` owes for a request:
/// the handler with the request decoded into that shape and its context
/// kept, or `EventConversionFailed` where the payload does not have the shape.
pub open spec fn called<H, C>(
    shape: Shape,
    handler: H,
    event: Request<Value, C>,
    r: Result<Call<'_, H, C>, DispatchError>,
) -> bool {
    match decoding(shape, event.payload) {
        Some(discriminators) => r matches Ok(call) && *call.handler == handler
            && call.event.payload.tag() == shape && call.event.payload.discriminators()
            == discriminators && call.event.context == event.context,
        None => r matches Err(e) && e == DispatchError::EventConversionFailed,
    }
}

/// The uniform entry point of a registered handler, whatever shape it takes.
pub trait Callable<H> {
    /// The shape that the handler takes.
    spec fn takes(&self) -> Shape;

    /// The handler itself.
    spec fn target(&self) -> H;

    /// Decodes the request into the shape that the handler takes and hands
    /// back the handler with the typed request, its context kept. Fails with
    /// `EventConversionFailed` exactly where the payload does not have that
    /// shape.
    fn call<'a, C>(&'a self, event: Request<Value, C>) -> (r: Result<Call<'a, H, C>, DispatchError>)
        ensures
            called(self.takes(), self.target(), event, r),
    ;
}

impl<H> Callable<H> for AwsEventHandler<H> {
    open spec fn takes(&self) -> Shape {
        self.shape
    }

    open spec fn target(&self) -> H {
        self.handler
    }

    fn call<'a, C>(&'a self, event: Request<Value, C>) -> (r: Result<Call<'a, H, C>, DispatchError>) {
        match Event::from_request(self.shape, &event.payload) {
            Ok(payload) => Ok(
                Call { handler: &self.handler, event: Request { payload, context: event.context } },
            ),
            Err(_) => Err(DispatchError::EventConversionFailed),
        }
    }
}

/// One registration: the key string, and the handler with its shape tag.
struct Route<H> {
    key: String,
    entry: AwsEventHandler<H>,
}

/// The shape and key that a registration answers to.
spec fn route_key<H>(route: Route<H>) -> (Shape, Seq<char>) {
    (route.entry.shape, route.key@)
}

/// No two registrations answer to the same shape and key.
spec fn distinct<H>(routes: Seq<Route<H>>) -> bool {
    forall|i: int, j: int|
        #![trigger routes[i], routes[j]]
        0 <= i < j < routes.len() ==> route_key(routes[i]) != route_key(routes[j])
}

/// The registrations as a map from shape and key to handler.
spec fn table<H>(routes: Seq<Route<H>>) -> Map<(Shape, Seq<char>), H>
    decreases routes.len(),
{
    if routes.len() == 0 {
        Map::empty()
    } else {
        table(routes.drop_last()).insert(route_key(routes.last()), routes.last().entry.handler)
    }
}

/// A shape and key that no registration answers to is not in the table.
proof fn lemma_table_absent<H>(routes: Seq<Route<H>>, k: (Shape, Seq<char>))
    requires
        forall|i: int| 0 <= i < routes.len() ==> route_key(#[trigger] routes[i]) != k,
    ensures
        !table(routes).contains_key(k),
    decreases routes.len(),
{
    if routes.len() > 0 {
        assert(route_key(routes[routes.len() - 1]) != k);
        assert forall|i: int| 0 <= i < routes.drop_last().len() implies route_key(
            #[trigger] routes.drop_last()[i],
        ) != k by {
            assert(routes.drop_last()[i] == routes[i]);
        }
        lemma_table_absent(routes.drop_last(), k);
    }
}

/// Registrations stay distinct when the last one is left out.
proof fn lemma_distinct_prefix<H>(routes: Seq<Route<H>>)
    requires
        distinct(routes),
        routes.len() > 0,
    ensures
        distinct(routes.drop_last()),
{
    let prefix = routes.drop_last();
    assert forall|i: int, j: int| 0 <= i < j < prefix.len() implies route_key(prefix[i])
        != route_key(prefix[j]) by {
        assert(prefix[i] == routes[i] && prefix[j] == routes[j]);
    }
}

/// Among distinct registrations each one is in the table, under its own
/// shape and key, with its own handler.
proof fn lemma_table_present<H>(routes: Seq<Route<H>>, i: int)
    requires
        distinct(routes),
        0 <= i < routes.len(),
    ensures
        table(routes).contains_key(route_key(routes[i])),
        table(routes)[route_key(routes[i])] == routes[i].entry.handler,
    decreases routes.len(),
{
    let last = routes.len() - 1;
    if i < last {
        lemma_distinct_prefix(routes);
        lemma_table_present(routes.drop_last(), i);
        assert(routes.drop_last()[i] == routes[i]);
        assert(route_key(routes[i]) != route_key(routes[last]));
    }
}

/// Replacing a registration by one for the same shape and key keeps the
/// registrations distinct and changes the table at that shape and key only.
proof fn lemma_table_update<H>(routes: Seq<Route<H>>, i: int, route: Route<H>)
    requires
        distinct(routes),
        0 <= i < routes.len(),
        route_key(route) == route_key(routes[i]),
    ensures
        distinct(routes.update(i, route)),
        table(routes.update(i, route)) == table(routes).insert(
            route_key(route),
            route.entry.handler,
        ),
    decreases routes.len(),
{
    let updated = routes.update(i, route);
    let last = routes.len() - 1;
    assert forall|a: int, b: int| 0 <= a < b < updated.len() implies route_key(updated[a])
        != route_key(updated[b]) by {
        assert(route_key(routes[a]) != route_key(routes[b]));
    }
    if i == last {
        assert(updated.drop_last() == routes.drop_last());
        assert(table(updated) =~= table(routes).insert(route_key(route), route.entry.handler));
    } else {
        lemma_distinct_prefix(routes);
        assert(routes.drop_last()[i] == routes[i]);
        lemma_table_update(routes.drop_last(), i, route);
        assert(updated.drop_last() == routes.drop_last().update(i, route));
        assert(route_key(routes[i]) != route_key(routes[last]));
        assert(table(updated) =~= table(routes).insert(route_key(route), route.entry.handler));
    }
}

/// The place of the registration for a shape and key, if there is one.
fn position<H>(routes: &Vec<Route<H>>, shape: Shape, key: &String) -> (r: Option<usize>)
    ensures
        match r {
            Some(i) => i < routes.len() && route_key(routes[i as int]) == (shape, key@),
            None => forall|j: int|
                0 <= j < routes.len() ==> route_key(#[trigger] routes[j]) != (shape, key@),
        },
{
    let mut i: usize = 0;
    while i < routes.len()
        invariant
            i <= routes.len(),
            forall|j: int| 0 <= j < i ==> route_key(#[trigger] routes[j]) != (shape, key@),
        decreases routes.len() - i,
    {
        if routes[i].entry.shape == shape && routes[i].key == *key {
            return Some(i);
        }
        i += 1;
    }
    None
}

/// The shape that a payload is taken for and the key of its first record, or
/// the reason why it has none.
pub open spec fn routing_key(request: Value) -> Result<(Shape, Seq<char>), DispatchError> {
    match detected_shape(request) {
        None => Err(DispatchError::UnrecognizedShape),
        Some(shape) => match first_key(decoding(shape, request).unwrap()) {
            None => Err(DispatchError::MissingRoutingKey),
            Some(key) => Ok((shape, key)),
        },
    }
}

/// Recognises a payload and reads its routing key. Fails with
/// `UnrecognizedShape` where the payload has none of the shapes, and with
/// `MissingRoutingKey` where its first record names no key.
pub fn get_event_key(request: &Value) -> (r: Result<(Shape, String), DispatchError>)
    ensures
        match routing_key(*request) {
            Ok(k) => r matches Ok(found) && found.0 == k.0 && found.1@ == k.1,
            Err(e) => r matches Err(f) && f == e,
        },
{
    match Event::recognize(request) {
        Some(event) => match event.event_name() {
            Ok(key) => Ok((event.shape(), key)),
            Err(e) => Err(e),
        },
        None => Err(DispatchError::UnrecognizedShape),
    }
}

/// The router: at most one handler for each shape and key.
pub struct LambdaHandler<H> {
    routes: Vec<Route<H>>,
}

impl<H> View for LambdaHandler<H> {
    type V = Map<(Shape, Seq<char>), H>;

    /// The registry as a map from shape and key to the handler registered.
    closed spec fn view(&self) -> Map<(Shape, Seq<char>), H> {
        table(self.routes@)
    }
}

impl<H> LambdaHandler<H> {
    /// Holds of every router: no shape and key is registered twice.
    #[verifier::type_invariant]
    spec fn unambiguous(self) -> bool {
        distinct(self.routes@)
    }

    /// A router without routes.
    pub fn new() -> (r: Self)
        ensures
            r@ == Map::<(Shape, Seq<char>), H>::empty(),
    {
        LambdaHandler { routes: Vec::new() }
    }

    /// Registers `handler` for events of shape `E` whose key is `event_name`
    /// and hands the router back. An earlier handler for the same shape and
    /// key is replaced; every other route stays.
    pub fn route<E: AwsEvent>(self, event_name: &str, handler: H) -> (r: Self)
        ensures
            r@ == self@.insert((E::tag(), event_name@), handler),
    {
        proof {
            use_type_invariant(&self);
        }
        let key = event_name.to_owned();
        let entry = AwsEventHandler::new::<E>(handler);
        let mut routes = self.routes;
        let ghost before = routes@;
        let found = position(&routes, entry.shape, &key);
        let route = Route { key, entry };
        match found {
            Some(i) => {
                proof {
                    lemma_table_update(before, i as int, route);
                }
                routes.set(i, route);
            },
            None => {
                routes.push(route);
                proof {
                    assert(routes@.drop_last() == before);
                    assert forall|a: int, b: int| 0 <= a < b < routes@.len() implies route_key(
                        routes@[a],
                    ) != route_key(routes@[b]) by {
                        if b < before.len() {
                            assert(route_key(before[a]) != route_key(before[b]));
                        } else {
                            assert(route_key(before[a]) != route_key(route));
                        }
                    }
                }
            },
        }
        LambdaHandler { routes }
    }

    /// The entry registered for a shape and key, if there is one.
    pub fn resolve(&self, shape: Shape, key: &str) -> (r: Option<&AwsEventHandler<H>>)
        ensures
            match r {
                Some(entry) => self@.contains_key((shape, key@)) && entry.handler == self@[(
                    shape,
                    key@,
                )] && entry.shape == shape,
                None => !self@.contains_key((shape, key@)),
            },
    {
        proof {
            use_type_invariant(self);
        }
        let owned = key.to_owned();
        match position(&self.routes, shape, &owned) {
            Some(i) => {
                proof {
                    lemma_table_present(self.routes@, i as int);
                }
                Some(&self.routes[i].entry)
            },
            None => {
                proof {
                    lemma_table_absent(self.routes@, (shape, key@));
                }
                None
            },
        }
    }

    /// Whether `r` is what `dispatch` owes for a request.
    pub open spec fn dispatched<C>(
        &self,
        event: Request<Value, C>,
        r: Result<Call<'_, H, C>, DispatchError>,
    ) -> bool {
        match routing_key(event.payload) {
            Err(e) => r matches Err(f) && f == e,
            Ok(k) => if self@.contains_key(k) {
                r matches Ok(call) && *call.handler == self@[k] && call.event.payload.tag() == k.0
                    && Some(call.event.payload.discriminators()) == decoding(k.0, event.payload)
                    && call.event.context == event.context
            } else {
                r matches Err(f) && f == DispatchError::NoHandlerRegistered
            },
        }
    }

    /// Routes one request: recognises its shape, reads its key, looks up the
    /// handler registered for both and decodes the payload into the handler's
    /// shape. The registry is left as it is.
    pub fn dispatch<'a, C>(&'a self, event: Request<Value, C>) -> (r: Result<
        Call<'a, H, C>,
        DispatchError,
    >)
        ensures
            self.dispatched(event, r),
    {
        match get_event_key(&event.payload) {
            Ok(found) => match self.resolve(found.0, found.1.as_str()) {
                Some(entry) => entry.call(event),
                None => Err(DispatchError::NoHandlerRegistered),
            },
            Err(e) => Err(e),
        }
    }
}

impl<H> Default for LambdaHandler<H> {
    /// A router without routes.
    fn default() -> (r: Self)
        ensures
            r@ == Map::<(Shape, Seq<char>), H>::empty(),
    {
        Self::new()
    }
}

/// Whether two outcomes of a dispatch are the same routing decision: the
/// same failure, or the same handler with the same typed request.
pub open spec fn same_decision<H, C>(
    a: Result<Call<'_, H, C>, DispatchError>,
    b: Result<Call<'_, H, C>, DispatchError>,
) -> bool {
    match (a, b) {
        (Ok(x), Ok(y)) => *x.handler == *y.handler && x.event.payload.tag() == y.event.payload.tag()
            && x.event.payload.discriminators() == y.event.payload.discriminators()
            && x.event.context == y.event.context,
        (Err(e), Err(f)) => e == f,
        _ => false,
    }
}

/// Dispatching the same request twice on the same router gives the same
/// routing decision.
pub proof fn lemma_dispatch_is_repeatable<H, C>(
    router: LambdaHandler<H>,
    event: Request<Value, C>,
    first: Result<Call<'_, H, C>, DispatchError>,
    second: Result<Call<'_, H, C>, DispatchError>,
)
    requires
        router.dispatched(event, first),
        router.dispatched(event, second),
    ensures
        same_decision(first, second),
{
}

/// After two registrations for the same shape and key, a request with that
/// shape and key reaches the second handler, and the router is the one that
/// the second registration alone would have made.
pub proof fn lemma_last_registration_wins<H, C>(
    before: LambdaHandler<H>,
    once: LambdaHandler<H>,
    twice: LambdaHandler<H>,
    shape: Shape,
    key: Seq<char>,
    first: H,
    second: H,
    event: Request<Value, C>,
    r: Result<Call<'_, H, C>, DispatchError>,
)
    requires
        once@ == before@.insert((shape, key), first),
        twice@ == once@.insert((shape, key), second),
        routing_key(event.payload) == Ok::<(Shape, Seq<char>), DispatchError>((shape, key)),
        twice.dispatched(event, r),
    ensures
        twice@ == before@.insert((shape, key), second),
        r matches Ok(call) && *call.handler == second,
{
    assert(twice@ =~= before@.insert((shape, key), second));
}

/// A request whose shape is recognised and whose key is read, but for which
/// nothing is registered, fails with `NoHandlerRegistered`.
pub proof fn lemma_unregistered_key_fails<H, C>(
    router: LambdaHandler<H>,
    event: Request<Value, C>,
    r: Result<Call<'_, H, C>, DispatchError>,
)
    requires
        routing_key(event.payload) matches Ok(k) && !router@.contains_key(k),
        router.dispatched(event, r),
    ensures
        r matches Err(e) && e == DispatchError::NoHandlerRegistered,
{
}

/// A request whose payload has none of the shapes fails with
/// `UnrecognizedShape`, whatever is registered.
pub proof fn lemma_unknown_shape_fails<H, C>(
    router: LambdaHandler<H>,
    event: Request<Value, C>,
    r: Result<Call<'_, H, C>, DispatchError>,
)
    requires
        forall|shape: Shape| #[trigger] decoding(shape, event.payload).is_none(),
        router.dispatched(event, r),
    ensures
        r matches Err(e) && e == DispatchError::UnrecognizedShape,
{
    assert(decoding(Shape::Storage, event.payload).is_none());
    assert(decoding(Shape::Topic, event.payload).is_none());
    assert(decoding(Shape::Queue, event.payload).is_none());
}

/// Dispatch never fails with `EventConversionFailed`: the payload decodes
/// into the shape under which its handler was found.
pub proof fn lemma_dispatch_never_fails_conversion<H, C>(
    router: LambdaHandler<H>,
    event: Request<Value, C>,
    r: Result<Call<'_, H, C>, DispatchError>,
)
    requires
        router.dispatched(event, r),
    ensures
        !(r matches Err(e) && e == DispatchError::EventConversionFailed),
{
}

} // verus!
