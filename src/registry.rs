use vstd::prelude::*;

use crate::binding::ContractInformation;
use std::sync::Arc;

verus! {

/// A route: the topic id of one event signature, the contract that emits it,
/// and the handler that receives its decoded batches.
#[derive(Clone)]
pub struct EventInformation<D, C> {
    pub topic_id: String,
    pub contract: ContractInformation<D>,
    pub callback: C,
}

/// The routes of an indexer, in the order they were registered. Lookups go to
/// the first route registered for a topic id; later routes for the same id
/// are never reached.
#[derive(Clone)]
pub struct EventCallbackRegistry<D, C> {
    pub events: Vec<EventInformation<D, C>>,
}

/// Position `i` holds the first route of `routes` registered for `topic`.
pub open spec fn is_first_match<D, C>(routes: Seq<EventInformation<D, C>>, topic: Seq<char>, i: int) -> bool {
    &&& 0 <= i < routes.len()
    &&& routes[i].topic_id@ == topic
    &&& forall|j: int| 0 <= j < i ==> #[trigger] routes[j].topic_id@ != topic
}

/// Some route of `routes` is registered for `topic`.
pub open spec fn has_route<D, C>(routes: Seq<EventInformation<D, C>>, topic: Seq<char>) -> bool {
    exists|i: int| 0 <= i < routes.len() && #[trigger] routes[i].topic_id@ == topic
}

/// No two routes of `routes` share a topic id.
pub open spec fn distinct_topics<D, C>(routes: Seq<EventInformation<D, C>>) -> bool {
    forall|a: int, b: int|
        0 <= a < routes.len() && 0 <= b < routes.len() && a != b ==> #[trigger] routes[a].topic_id@
            != #[trigger] routes[b].topic_id@
}

/// A topic id has at most one first route: what `find_event` returns is
/// determined by the routes and the topic id.
pub proof fn lemma_first_match_unique<D, C>(routes: Seq<EventInformation<D, C>>, topic: Seq<char>, i: int, j: int)
    requires
        is_first_match(routes, topic, i),
        is_first_match(routes, topic, j),
    ensures
        i == j,
{
    if i < j {
        assert(routes[i].topic_id@ != topic);
    } else if j < i {
        assert(routes[j].topic_id@ != topic);
    }
}

/// When every route has its own topic id, looking up the topic id of any
/// registered route finds exactly that route.
pub proof fn lemma_route_uniqueness<D, C>(routes: Seq<EventInformation<D, C>>, i: int)
    requires
        distinct_topics(routes),
        0 <= i < routes.len(),
    ensures
        is_first_match(routes, routes[i].topic_id@, i),
{
    assert forall|j: int| 0 <= j < i implies #[trigger] routes[j].topic_id@ != routes[i].topic_id@ by {
        assert(routes[j].topic_id@ != routes[i].topic_id@);
    }
}

/// When two routes are registered for the same topic id on top of routes
/// that have none for it, lookups of that topic id find the first of the two,
/// never the second.
pub proof fn lemma_first_registered_wins<D, C>(
    routes: Seq<EventInformation<D, C>>,
    first: EventInformation<D, C>,
    second: EventInformation<D, C>,
)
    requires
        !has_route(routes, first.topic_id@),
        second.topic_id@ == first.topic_id@,
    ensures
        is_first_match(routes.push(first).push(second), first.topic_id@, routes.len() as int),
        !is_first_match(routes.push(first).push(second), first.topic_id@, routes.len() + 1 as int),
{
    let all = routes.push(first).push(second);
    let t = first.topic_id@;
    assert forall|j: int| 0 <= j < routes.len() implies #[trigger] all[j].topic_id@ != t by {
        assert(all[j] == routes[j]);
        if all[j].topic_id@ == t {
            assert(routes[j].topic_id@ == t);
        }
    }
    assert(all[routes.len() as int] == first);
}

/// Two different topic ids are routed to two different routes: concurrent
/// dispatches of them reach separate handlers, each with its own batch.
pub proof fn lemma_dispatch_isolation<D, C>(
    routes: Seq<EventInformation<D, C>>,
    t1: Seq<char>,
    t2: Seq<char>,
    i1: int,
    i2: int,
)
    requires
        t1 != t2,
        is_first_match(routes, t1, i1),
        is_first_match(routes, t2, i2),
    ensures
        i1 != i2,
{
}

impl<D, C> EventCallbackRegistry<D, C> {
    /// Every route's contract is deployed somewhere.
    pub open spec fn well_formed(&self) -> bool {
        forall|i: int| 0 <= i < self.events@.len() ==> (#[trigger] self.events@[i]).contract.well_formed()
    }

    /// A registry with no routes.
    pub fn new() -> (r: Self)
        ensures
            r.events@.len() == 0,
            r.well_formed(),
    {
        EventCallbackRegistry { events: Vec::new() }
    }

    /// The first route registered for `topic_id`, if any.
    pub fn find_event(&self, topic_id: &String) -> (r: Option<&EventInformation<D, C>>)
        ensures
            r is None <==> !has_route(self.events@, topic_id@),
            r matches Some(e) ==> exists|i: int|
                is_first_match(self.events@, topic_id@, i) && *e == #[trigger] self.events@[i],
    {
        let mut i: usize = 0;
        while i < self.events.len()
            invariant
                i <= self.events@.len(),
                forall|j: int| 0 <= j < i ==> #[trigger] self.events@[j].topic_id@ != topic_id@,
            decreases self.events@.len() - i,
        {
            if self.events[i].topic_id == *topic_id {
                assert(is_first_match(self.events@, topic_id@, i as int));
                return Some(&self.events[i]);
            }
            i = i + 1;
        }
        None
    }

    /// Adds `event` after the routes already registered.
    pub fn register_event(&mut self, event: EventInformation<D, C>)
        requires
            old(self).well_formed(),
            event.contract.well_formed(),
        ensures
            final(self).events@ == old(self).events@.push(event),
            final(self).well_formed(),
    {
        self.events.push(event);
    }

    /// Where a decoded batch for `topic_id` goes: the handler of the first
    /// route registered for it, with the batch unchanged; or nowhere, when no
    /// route is registered for it, and the batch is dropped.
    pub fn trigger_event<B>(&self, topic_id: &String, data: B) -> (r: Option<(&C, B)>)
        ensures
            r is None <==> !has_route(self.events@, topic_id@),
            r matches Some((c, b)) ==> b == data && exists|i: int|
                is_first_match(self.events@, topic_id@, i) && *c == #[trigger] self.events@[i].callback,
    {
        match self.find_event(topic_id) {
            Some(e) => Some((&e.callback, data)),
            None => None,
        }
    }

    /// Ends registration: the registry is shared read-only from here on.
    pub fn complete(self) -> (r: Arc<Self>)
        ensures
            *r == self,
    {
        Arc::new(self)
    }
}

} // verus!
