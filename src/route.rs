//! The route table: the most recently resolved route of each topic, and the
//! name-server endpoints that routes are resolved from.
use std::sync::Arc;
use vstd::hash_map::StringHashMap;
use vstd::prelude::*;
use vstd::string::StrSliceExecFns;

use crate::error::ClientError;
use crate::protocol::TopicRouteData;

verus! {

/// The host part of a resolved address.
#[derive(Clone, Copy, Debug, PartialEq, Eq)]
pub enum Host {
    V4([u8; 4]),
    V6([u16; 8]),
}

/// A resolved network address of a broker or name server.
#[derive(Clone, Copy, Debug, PartialEq, Eq)]
pub struct Endpoint {
    pub host: Host,
    pub port: u16,
}

/// The pieces of `s` between the separators `sep`, in order; a string with
/// no separator is one piece, and the empty string is one empty piece.
pub open spec fn split_spec(s: Seq<char>, sep: char) -> Seq<Seq<char>>
    decreases s.len(),
{
    if s.len() == 0 {
        seq![Seq::<char>::empty()]
    } else {
        let prev = split_spec(s.drop_last(), sep);
        if s.last() == sep {
            prev.push(Seq::<char>::empty())
        } else {
            prev.update(prev.len() - 1, prev.last().push(s.last()))
        }
    }
}

proof fn lemma_split_nonempty(s: Seq<char>, sep: char)
    ensures
        split_spec(s, sep).len() >= 1,
    decreases s.len(),
{
    if s.len() > 0 {
        lemma_split_nonempty(s.drop_last(), sep);
    }
}

/// Splits a list of addresses at each `;`.
pub fn split_addresses(addrs: &str) -> (r: Vec<String>)
    ensures
        r@.map_values(|p: String| p@) == split_spec(addrs@, ';'),
{
    let n = addrs.unicode_len();
    let mut pieces: Vec<String> = Vec::new();
    let mut start: usize = 0;
    let mut i: usize = 0;
    proof {
        assert(addrs@.take(0) =~= Seq::<char>::empty());
        assert(pieces@.map_values(|p: String| p@).push(addrs@.subrange(0, 0)) =~= seq![
            Seq::<char>::empty(),
        ]);
    }
    while i < n
        invariant
            n == addrs@.len(),
            start <= i <= n,
            pieces@.map_values(|p: String| p@).push(addrs@.subrange(start as int, i as int))
                == split_spec(addrs@.take(i as int), ';'),
        decreases n - i,
    {
        let c = addrs.get_char(i);
        proof {
            let t = addrs@.take(i as int + 1);
            assert(t.drop_last() =~= addrs@.take(i as int));
            assert(t.last() == c);
            lemma_split_nonempty(addrs@.take(i as int), ';');
        }
        if c == ';' {
            let piece = addrs.substring_char(start, i).to_owned();
            pieces.push(piece);
            start = i + 1;
            proof {
                assert(pieces@.map_values(|p: String| p@) =~= split_spec(
                    addrs@.take(i as int),
                    ';',
                ));
                assert(addrs@.subrange(start as int, start as int) =~= Seq::<char>::empty());
            }
        } else {
            proof {
                assert(addrs@.subrange(start as int, i as int + 1) =~= addrs@.subrange(
                    start as int,
                    i as int,
                ).push(c));
                let prev = split_spec(addrs@.take(i as int), ';');
                assert(pieces@.map_values(|p: String| p@).push(
                    addrs@.subrange(start as int, i as int + 1),
                ) =~= prev.update(prev.len() - 1, prev.last().push(c)));
            }
        }
        i = i + 1;
    }
    let last = addrs.substring_char(start, n).to_owned();
    pieces.push(last);
    proof {
        assert(addrs@.take(n as int) =~= addrs@);
        assert(pieces@.map_values(|p: String| p@) =~= split_spec(addrs@, ';'));
    }
    pieces
}

/// The endpoints among parse results, in order, the failed ones left out.
pub open spec fn valid_endpoints(parsed: Seq<Option<Endpoint>>) -> Seq<Endpoint>
    decreases parsed.len(),
{
    if parsed.len() == 0 {
        Seq::empty()
    } else {
        let prev = valid_endpoints(parsed.drop_last());
        match parsed.last() {
            Some(e) => prev.push(e),
            None => prev,
        }
    }
}

/// Relies on `Arc::clone`: the new handle points to the same value.
#[verifier::external_body]
fn share(route: &Arc<TopicRouteData>) -> (r: Arc<TopicRouteData>)
    ensures
        r == *route,
{
    Arc::clone(route)
}

/// Holds the name-server endpoints and the route of each topic.
pub struct RouteManager {
    /// Endpoints remain constant after construction.
    endpoints: Vec<Endpoint>,
    /// The most recently resolved route of each topic.
    topic_routes: StringHashMap<Arc<TopicRouteData>>,
}

impl RouteManager {
    /// The name-server endpoints.
    pub closed spec fn endpoints_view(&self) -> Seq<Endpoint> {
        self.endpoints@
    }

    /// The cached route of each topic.
    pub closed spec fn routes(&self) -> Map<Seq<char>, Arc<TopicRouteData>> {
        self.topic_routes@
    }

    /// A manager over the endpoints that parsed, with no route cached.
    /// Addresses that did not parse are left out; none is fatal, and a list
    /// with no valid endpoint is accepted.
    pub fn new(parsed: Vec<Option<Endpoint>>) -> (r: Result<RouteManager, ClientError>)
        ensures
            r matches Ok(m) && m.endpoints_view() == valid_endpoints(parsed@) && m.routes()
                == Map::<Seq<char>, Arc<TopicRouteData>>::empty(),
    {
        let mut endpoints: Vec<Endpoint> = Vec::new();
        let mut i: usize = 0;
        while i < parsed.len()
            invariant
                i <= parsed@.len(),
                endpoints@ == valid_endpoints(parsed@.take(i as int)),
            decreases parsed@.len() - i,
        {
            proof {
                assert(parsed@.take(i as int + 1).drop_last() =~= parsed@.take(i as int));
            }
            if let Some(endpoint) = parsed[i] {
                endpoints.push(endpoint);
            }
            i = i + 1;
        }
        assert(parsed@.take(i as int) =~= parsed@);
        Ok(RouteManager { endpoints, topic_routes: StringHashMap::new() })
    }

    /// The name-server endpoints, in the order they were given.
    pub fn endpoints(&self) -> (r: &Vec<Endpoint>)
        ensures
            r@ == self.endpoints_view(),
    {
        &self.endpoints
    }

    /// The cached route of `topic`, if one is cached.
    pub fn route(&self, topic: &str) -> (r: Option<Arc<TopicRouteData>>)
        ensures
            r matches Some(d) ==> self.routes().contains_key(topic@) && d == self.routes()[topic@],
            r is None <==> !self.routes().contains_key(topic@),
    {
        match self.topic_routes.get(topic) {
            Some(value) => Some(share(value)),
            None => None,
        }
    }

    /// Caches `route` as the route of `topic`, replacing any earlier one whole.
    pub fn update_route(&mut self, topic: &str, route: TopicRouteData)
        ensures
            final(self).routes() == old(self).routes().insert(topic@, Arc::new(route)),
            final(self).endpoints_view() == old(self).endpoints_view(),
    {
        self.topic_routes.insert(topic.to_owned(), Arc::new(route));
    }
}

/// Cache behavior: an empty cache holds no topic; once a route is cached for a
/// topic, looking that topic up gives that very route, and every other topic
/// is found exactly when it was found before.
pub proof fn lemma_route_cache(
    routes: Map<Seq<char>, Arc<TopicRouteData>>,
    topic: Seq<char>,
    other: Seq<char>,
    route: Arc<TopicRouteData>,
)
    requires
        other != topic,
    ensures
        !Map::<Seq<char>, Arc<TopicRouteData>>::empty().contains_key(topic),
        routes.insert(topic, route).contains_key(topic),
        routes.insert(topic, route)[topic] == route,
        routes.insert(topic, route).contains_key(other) == routes.contains_key(other),
{
}

} // verus!
