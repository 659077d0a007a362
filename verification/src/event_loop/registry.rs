//! What is known of the hats and of the routes between topics and hats.
use crate::config::hats::HatConfig;
use crate::text::{first_of, holds_text, lemma_first_among, lemma_first_of, str_eq, texts};
use vstd::prelude::*;

verus! {

/// A hat as it is registered.
#[derive(Debug)]
pub struct Hat {
    pub id: String,
    /// Display name.
    pub name: String,
    /// Topics that the hat subscribes to.
    pub subscriptions: Vec<String>,
    /// Topics that the hat may publish.
    pub publishes: Vec<String>,
    /// The definition of the hat, where it was made from one.
    pub config: Option<HatConfig>,
}

/// How one topic is routed.
#[derive(Debug)]
pub struct TopicRoute {
    pub topic: String,
    /// Whether a hat subscribes to the topic.
    pub subscribed: bool,
    /// The hat that handles the topic.
    pub handler: Option<String>,
    /// The hat that the topic triggers.
    pub triggered: Option<String>,
    /// The hats that may publish the topic.
    pub publishers: Vec<String>,
}

/// The hats and the routes of the topics that can occur. A topic without a route is subscribed to,
/// handled and published by no hat.
#[derive(Debug)]
pub struct HatRegistry {
    pub hats: Vec<Hat>,
    pub routes: Vec<TopicRoute>,
}

/// The registered hats that have an identifier, each at its place.
pub open spec fn hat_hits(hats: Seq<Hat>, id: Seq<char>) -> Seq<Option<Hat>> {
    Seq::new(
        hats.len(),
        |i: int|
            if hats[i].id@ == id {
                Some(hats[i])
            } else {
                None
            },
    )
}

/// The first registered hat that has an identifier.
pub open spec fn hat_with(hats: Seq<Hat>, id: Seq<char>) -> Option<Hat> {
    first_of(hat_hits(hats, id))
}

/// The routes of a topic, each at its place.
pub open spec fn route_hits(routes: Seq<TopicRoute>, topic: Seq<char>) -> Seq<Option<TopicRoute>> {
    Seq::new(
        routes.len(),
        |i: int|
            if routes[i].topic@ == topic {
                Some(routes[i])
            } else {
                None
            },
    )
}

/// The first route of a topic.
pub open spec fn route_for(routes: Seq<TopicRoute>, topic: Seq<char>) -> Option<TopicRoute> {
    first_of(route_hits(routes, topic))
}

/// The first hat that has an identifier has that identifier, and is registered.
pub proof fn lemma_hat_with(hats: Seq<Hat>, id: Seq<char>)
    ensures
        hat_with(hats, id) is Some ==> hat_with(hats, id)->0.id@ == id && hats.contains(
            hat_with(hats, id)->0,
        ),
{
    let hits = hat_hits(hats, id);
    lemma_first_among(hits);
    if first_of(hits) is Some {
        let i = choose|i: int| 0 <= i < hits.len() && #[trigger] hits[i] == first_of(hits);
        assert(hats[i].id@ == id);
    }
}

proof fn lemma_unrouted(routes: Seq<TopicRoute>, topic: Seq<char>)
    requires
        route_for(routes, topic) is None,
    ensures
        forall|i: int| 0 <= i < routes.len() ==> (#[trigger] routes[i]).topic@ != topic,
{
    let hits = route_hits(routes, topic);
    lemma_first_among(hits);
    assert forall|i: int| 0 <= i < routes.len() implies (#[trigger] routes[i]).topic@ != topic by {
        assert(hits[i] is None);
    }
}

/// Whether the hats that a route names are registered.
pub open spec fn route_known(hats: Seq<Hat>, route: TopicRoute) -> bool {
    &&& route.handler is Some ==> hat_with(hats, route.handler->0@) is Some
    &&& route.triggered is Some ==> hat_with(hats, route.triggered->0@) is Some
    &&& forall|i: int|
        0 <= i < route.publishers@.len() ==> hat_with(
            hats,
            (#[trigger] route.publishers@[i])@,
        ) is Some
}

impl HatRegistry {
    /// Whether every route names registered hats only, and no topic has two routes.
    pub open spec fn wf(self) -> bool {
        &&& forall|i: int|
            0 <= i < self.routes@.len() ==> route_known(self.hats@, #[trigger] self.routes@[i])
        &&& forall|i: int, j: int|
            0 <= i < j < self.routes@.len() ==> (#[trigger] self.routes@[i]).topic@ != (
            #[trigger] self.routes@[j]).topic@
    }

    /// Registers hats. No topic is routed yet.
    pub fn new(hats: Vec<Hat>) -> (r: HatRegistry)
        ensures
            r.wf(),
            r.hats == hats,
            r.routes@.len() == 0,
    {
        HatRegistry { hats, routes: Vec::new() }
    }

    /// Adds the route of a topic that has none. A route that names a hat that is not registered is
    /// refused.
    pub fn add_route(&mut self, route: TopicRoute) -> (r: bool)
        requires
            old(self).wf(),
        ensures
            final(self).wf(),
            r == (route_for(old(self).routes@, route.topic@) is None && route_known(
                old(self).hats@,
                route,
            )),
            final(self).hats == old(self).hats,
            final(self).routes@ == (if r {
                old(self).routes@.push(route)
            } else {
                old(self).routes@
            }),
    {
        if self.route(route.topic.as_str()).is_some() {
            return false;
        }
        if let Some(id) = &route.handler {
            if self.get(id.as_str()).is_none() {
                return false;
            }
        }
        if let Some(id) = &route.triggered {
            if self.get(id.as_str()).is_none() {
                return false;
            }
        }
        let mut i: usize = 0;
        while i < route.publishers.len()
            invariant
                i <= route.publishers.len(),
                *self == *old(self),
                old(self).wf(),
                forall|k: int|
                    0 <= k < i ==> hat_with(
                        self.hats@,
                        (#[trigger] route.publishers@[k])@,
                    ) is Some,
            decreases route.publishers.len() - i,
        {
            if self.get(route.publishers[i].as_str()).is_none() {
                assert(!route_known(self.hats@, route)) by {
                    assert(hat_with(self.hats@, route.publishers@[i as int]@) is None);
                }
                return false;
            }
            i = i + 1;
        }
        proof {
            lemma_unrouted(self.routes@, route.topic@);
        }
        self.routes.push(route);
        true
    }

    /// The hat that has an identifier.
    pub open spec fn hat(self, id: Seq<char>) -> Option<Hat> {
        hat_with(self.hats@, id)
    }

    /// The definition of the hat that has an identifier.
    pub open spec fn definition(self, id: Seq<char>) -> Option<HatConfig> {
        match self.hat(id) {
            Some(hat) => hat.config,
            None => None,
        }
    }

    /// Whether a hat subscribes to a topic.
    pub open spec fn subscribed(self, topic: Seq<char>) -> bool {
        match route_for(self.routes@, topic) {
            Some(route) => route.subscribed,
            None => false,
        }
    }

    /// The hat that handles a topic.
    pub open spec fn handler(self, topic: Seq<char>) -> Option<Seq<char>> {
        match route_for(self.routes@, topic) {
            Some(route) => crate::text::opt_text(route.handler),
            None => None,
        }
    }

    /// The hat that a topic triggers.
    pub open spec fn triggered(self, topic: Seq<char>) -> Option<Seq<char>> {
        match route_for(self.routes@, topic) {
            Some(route) => crate::text::opt_text(route.triggered),
            None => None,
        }
    }

    /// Whether a hat may publish a topic.
    pub open spec fn may_publish(self, hat: Seq<char>, topic: Seq<char>) -> bool {
        match route_for(self.routes@, topic) {
            Some(route) => texts(route.publishers@).contains(hat),
            None => false,
        }
    }

    /// Finds the hat that has an identifier.
    pub fn get(&self, id: &str) -> (r: Option<&Hat>)
        ensures
            match r {
                Some(hat) => self.hat(id@) == Some(*hat),
                None => self.hat(id@) is None,
            },
    {
        let ghost hits = hat_hits(self.hats@, id@);
        let mut i: usize = 0;
        assert(hits.skip(0) == hits);
        while i < self.hats.len()
            invariant
                i <= self.hats.len(),
                hits == hat_hits(self.hats@, id@),
                first_of(hits) == first_of(hits.skip(i as int)),
            decreases self.hats.len() - i,
        {
            proof {
                lemma_first_of(hits, i as int);
            }
            if str_eq(self.hats[i].id.as_str(), id) {
                return Some(&self.hats[i]);
            }
            i = i + 1;
        }
        None
    }

    /// Finds the definition of the hat that has an identifier.
    pub fn get_config(&self, id: &str) -> (r: Option<&HatConfig>)
        ensures
            match r {
                Some(config) => self.definition(id@) == Some(*config),
                None => self.definition(id@) is None,
            },
    {
        match self.get(id) {
            Some(hat) => match &hat.config {
                Some(config) => Some(config),
                None => None,
            },
            None => None,
        }
    }

    /// Finds the route of a topic.
    fn route(&self, topic: &str) -> (r: Option<&TopicRoute>)
        ensures
            match r {
                Some(route) => route_for(self.routes@, topic@) == Some(*route),
                None => route_for(self.routes@, topic@) is None,
            },
    {
        let ghost hits = route_hits(self.routes@, topic@);
        let mut i: usize = 0;
        assert(hits.skip(0) == hits);
        while i < self.routes.len()
            invariant
                i <= self.routes.len(),
                hits == route_hits(self.routes@, topic@),
                first_of(hits) == first_of(hits.skip(i as int)),
            decreases self.routes.len() - i,
        {
            proof {
                lemma_first_of(hits, i as int);
            }
            if str_eq(self.routes[i].topic.as_str(), topic) {
                return Some(&self.routes[i]);
            }
            i = i + 1;
        }
        None
    }

    /// Tests whether a hat subscribes to a topic.
    pub fn has_subscriber(&self, topic: &str) -> (r: bool)
        ensures
            r == self.subscribed(topic@),
    {
        match self.route(topic) {
            Some(route) => route.subscribed,
            None => false,
        }
    }

    /// Finds the hat that handles a topic.
    pub fn get_for_topic(&self, topic: &str) -> (r: Option<&str>)
        ensures
            match r {
                Some(id) => self.handler(topic@) == Some(id@),
                None => self.handler(topic@) is None,
            },
    {
        match self.route(topic) {
            Some(route) => match &route.handler {
                Some(id) => Some(id.as_str()),
                None => None,
            },
            None => None,
        }
    }

    /// Finds the hat that a topic triggers.
    pub fn find_by_trigger(&self, topic: &str) -> (r: Option<&str>)
        ensures
            match r {
                Some(id) => self.triggered(topic@) == Some(id@),
                None => self.triggered(topic@) is None,
            },
    {
        match self.route(topic) {
            Some(route) => match &route.triggered {
                Some(id) => Some(id.as_str()),
                None => None,
            },
            None => None,
        }
    }

    /// Tests whether a hat may publish a topic.
    pub fn can_publish(&self, hat: &str, topic: &str) -> (r: bool)
        ensures
            r == self.may_publish(hat@, topic@),
    {
        match self.route(topic) {
            Some(route) => holds_text(&route.publishers, hat),
            None => false,
        }
    }
}

} // verus!
