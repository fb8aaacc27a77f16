//! The set of relays that the bridge publishes to. Connecting is attempted
//! for every relay by itself: one that fails is kept, with the reason, and
//! only left out of the count of connected relays.

use crate::config::{Config, EncryptionType};
use crate::text::{text_of, texts};
use vstd::prelude::*;

verus! {

/// One relay of the set and how the attempt to connect to it ended.
#[derive(Debug, Clone, PartialEq, Eq)]
pub struct Endpoint {
    /// The relay's URL.
    pub url: String,
    /// Why connecting failed; `None` where it succeeded.
    pub failure: Option<String>,
}

/// What an [`Endpoint`] holds, as plain sequences.
pub struct EndpointView {
    pub url: Seq<char>,
    pub failure: Option<Seq<char>>,
}

impl View for Endpoint {
    type V = EndpointView;

    open spec fn view(&self) -> EndpointView {
        EndpointView { url: self.url@, failure: text_of(self.failure) }
    }
}

/// The endpoint that stands for one attempt.
pub open spec fn attempted(url: Seq<char>, failure: Option<Seq<char>>) -> EndpointView {
    EndpointView { url, failure }
}

/// The endpoints that stand for a list of attempts, each an URL with the
/// reason of its failure, in the same order.
pub open spec fn attempts(list: Seq<(String, Option<String>)>) -> Seq<EndpointView> {
    list.map_values(|a: (String, Option<String>)| attempted(a.0@, text_of(a.1)))
}

/// How many of the endpoints are connected.
pub open spec fn connected_among(endpoints: Seq<EndpointView>) -> nat
    decreases endpoints.len(),
{
    if endpoints.len() == 0 {
        0
    } else {
        connected_among(endpoints.drop_last()) + if endpoints.last().failure is None {
            1nat
        } else {
            0nat
        }
    }
}

/// The relays of the bridge, each with the outcome of connecting to it.
#[derive(Debug, Clone, PartialEq, Eq)]
pub struct ConnectionSet {
    /// The endpoints in the order in which they were attempted.
    pub endpoints: Vec<Endpoint>,
}

impl View for ConnectionSet {
    type V = Seq<EndpointView>;

    open spec fn view(&self) -> Seq<EndpointView> {
        self.endpoints@.map_values(|e: Endpoint| e@)
    }
}

impl ConnectionSet {
    /// A set without endpoints.
    pub fn new() -> (set: ConnectionSet)
        ensures
            set@ == Seq::<EndpointView>::empty(),
    {
        let set = ConnectionSet { endpoints: Vec::new() };
        assert(set@ =~= Seq::<EndpointView>::empty());
        set
    }

    /// Adds an endpoint after the attempt to connect to it. It is added
    /// whether the attempt succeeded or failed.
    pub fn record(&mut self, url: &str, failure: Option<String>)
        ensures
            final(self)@ == old(self)@.push(attempted(url@, text_of(failure))),
    {
        self.endpoints.push(Endpoint { url: url.to_owned(), failure });
        assert(self@ =~= old(self)@.push(attempted(url@, text_of(failure))));
    }

    /// Number of endpoints, connected or not.
    pub fn len(&self) -> (n: usize)
        ensures
            n == self@.len(),
    {
        self.endpoints.len()
    }

    /// Number of endpoints to which connecting succeeded.
    pub fn connected_count(&self) -> (n: usize)
        ensures
            n == connected_among(self@),
            n <= self@.len(),
    {
        let mut n: usize = 0;
        let mut i: usize = 0;
        proof {
            assert(self@.take(0) =~= Seq::<EndpointView>::empty());
        }
        while i < self.endpoints.len()
            invariant
                i <= self.endpoints.len(),
                n <= i,
                n == connected_among(self@.take(i as int)),
            decreases self.endpoints.len() - i,
        {
            proof {
                let next = self@.take(i + 1);
                assert(next.drop_last() =~= self@.take(i as int));
                assert(next.last() == self.endpoints@[i as int]@);
            }
            if self.endpoints[i].failure.is_none() {
                n = n + 1;
            }
            i = i + 1;
        }
        proof {
            assert(self@.take(i as int) =~= self@);
        }
        n
    }

    /// The URLs that a publication is sent to: those of all endpoints, also
    /// of the ones to which connecting failed.
    pub fn send_targets(&self) -> (urls: Vec<String>)
        ensures
            texts(urls@) == self@.map_values(|e: EndpointView| e.url),
    {
        let mut urls: Vec<String> = Vec::new();
        let mut i: usize = 0;
        while i < self.endpoints.len()
            invariant
                i <= self.endpoints.len(),
                texts(urls@) == self@.take(i as int).map_values(|e: EndpointView| e.url),
            decreases self.endpoints.len() - i,
        {
            let url = self.endpoints[i].url.clone();
            proof {
                let before = self@.take(i as int).map_values(|e: EndpointView| e.url);
                let after = self@.take(i + 1).map_values(|e: EndpointView| e.url);
                assert(url@ == self@[i as int].url);
                assert(texts(urls@.push(url)) =~= texts(urls@).push(url@));
                assert(before.push(url@) =~= after);
            }
            urls.push(url);
            i = i + 1;
        }
        proof {
            assert(self@.take(i as int) =~= self@);
        }
        urls
    }
}

/// The endpoints that the bridge connects to at its start: the configured
/// relays in their order, and then the group's relay where one is set. The
/// public mode ignores the group's relay: there the endpoints are the
/// configured relays and nothing else.
pub open spec fn planned_endpoints(
    mode: EncryptionType,
    relays: Seq<Seq<char>>,
    group_relay: Option<Seq<char>>,
) -> Seq<Seq<char>> {
    if mode == EncryptionType::Public {
        relays
    } else {
        match group_relay {
            Some(url) => relays.push(url),
            None => relays,
        }
    }
}

/// The endpoints to connect to for a configuration.
pub fn endpoints_to_connect(config: &Config) -> (urls: Vec<String>)
    ensures
        texts(urls@) == planned_endpoints(
            config@.encryption_type,
            config@.nostr_relays,
            config@.nostr_group_relay,
        ),
{
    let mut urls: Vec<String> = Vec::new();
    let mut i: usize = 0;
    while i < config.nostr_relays.len()
        invariant
            i <= config.nostr_relays.len(),
            texts(urls@) == texts(config.nostr_relays@).take(i as int),
        decreases config.nostr_relays.len() - i,
    {
        let url = config.nostr_relays[i].clone();
        proof {
            let all = texts(config.nostr_relays@);
            assert(url@ == all[i as int]);
            assert(texts(urls@.push(url)) =~= texts(urls@).push(url@));
            assert(all.take(i as int).push(url@) =~= all.take(i + 1));
        }
        urls.push(url);
        i = i + 1;
    }
    proof {
        assert(texts(config.nostr_relays@).take(i as int) =~= texts(config.nostr_relays@));
    }
    match config.encryption_type {
        EncryptionType::Public => {},
        _ => match config.get_group_relay() {
            Some(url) => {
                let owned = url.to_owned();
                proof {
                    assert(texts(urls@.push(owned)) =~= texts(urls@).push(url@));
                }
                urls.push(owned);
            },
            None => {},
        },
    }
    urls
}

/// In the public mode the endpoints are the configured relays, whatever the
/// group's relay is set to. In the group mode of a configuration that has its
/// group relay, that relay comes last, after every configured relay.
pub proof fn lemma_group_relay_by_mode(
    mode: EncryptionType,
    relays: Seq<Seq<char>>,
    group_relay: Option<Seq<char>>,
)
    ensures
        planned_endpoints(EncryptionType::Public, relays, group_relay) == relays,
        planned_endpoints(mode, relays, None) == relays,
        mode != EncryptionType::Public && group_relay is Some ==> {
            &&& planned_endpoints(mode, relays, group_relay).len() == relays.len() + 1
            &&& planned_endpoints(mode, relays, group_relay).last() == group_relay->Some_0
            &&& planned_endpoints(mode, relays, group_relay).drop_last() == relays
        },
{
    if mode != EncryptionType::Public && group_relay is Some {
        assert(relays.push(group_relay->Some_0).drop_last() =~= relays);
    }
}

/// Builds the set from the attempts to connect: each endpoint with `None`
/// where connecting succeeded, and with the reason where it failed. Every
/// endpoint is in the set, in its place.
pub fn connect_all(outcomes: &Vec<(String, Option<String>)>) -> (set: ConnectionSet)
    ensures
        set@ == attempts(outcomes@),
{
    let mut set = ConnectionSet::new();
    let mut i: usize = 0;
    while i < outcomes.len()
        invariant
            i <= outcomes.len(),
            set@ == attempts(outcomes@).take(i as int),
        decreases outcomes.len() - i,
    {
        let failure = outcomes[i].1.clone();
        proof {
            assert(text_of(failure) == text_of(outcomes@[i as int].1));
            assert(set@.push(attempted(outcomes@[i as int].0@, text_of(failure))) =~= attempts(
                outcomes@,
            ).take(i + 1));
        }
        set.record(outcomes[i].0.as_str(), failure);
        i = i + 1;
    }
    proof {
        assert(attempts(outcomes@).take(i as int) =~= attempts(outcomes@));
    }
    set
}

/// Every endpoint that was attempted is in the set, in its place and with
/// its outcome, whether the attempt succeeded or failed.
pub proof fn lemma_every_endpoint_kept(list: Seq<(String, Option<String>)>)
    ensures
        attempts(list).len() == list.len(),
        forall|i: int|
            0 <= i < list.len() ==> (#[trigger] attempts(list)[i]) == attempted(
                list[i].0@,
                text_of(list[i].1),
            ),
{
}

/// The count of connected endpoints leaves out exactly the failed ones: it is
/// at most the size of the set, it reaches that size only where no attempt
/// failed, and it is zero only where every attempt failed.
pub proof fn lemma_connected_count(endpoints: Seq<EndpointView>)
    ensures
        connected_among(endpoints) <= endpoints.len(),
        connected_among(endpoints) == endpoints.len() <==> forall|i: int|
            0 <= i < endpoints.len() ==> (#[trigger] endpoints[i]).failure is None,
        connected_among(endpoints) == 0 <==> forall|i: int|
            0 <= i < endpoints.len() ==> (#[trigger] endpoints[i]).failure is Some,
    decreases endpoints.len(),
{
    if endpoints.len() > 0 {
        let front = endpoints.drop_last();
        lemma_connected_count(front);
        assert forall|i: int| 0 <= i < front.len() implies front[i] == endpoints[i] by {}
        if forall|i: int| 0 <= i < endpoints.len() ==> (#[trigger] endpoints[i]).failure is None {
            assert forall|i: int| 0 <= i < front.len() implies (#[trigger] front[i]).failure is None by {
                assert(front[i] == endpoints[i]);
            }
        }
        if forall|i: int| 0 <= i < endpoints.len() ==> (#[trigger] endpoints[i]).failure is Some {
            assert forall|i: int| 0 <= i < front.len() implies (#[trigger] front[i]).failure is Some by {
                assert(front[i] == endpoints[i]);
            }
        }
        if connected_among(endpoints) == endpoints.len() {
            assert(endpoints.last().failure is None);
            assert forall|i: int| 0 <= i < endpoints.len() implies (#[trigger] endpoints[i]).failure is None by {
                if i < front.len() {
                    assert(front[i] == endpoints[i]);
                }
            }
        }
        if connected_among(endpoints) == 0 {
            assert(endpoints.last().failure is Some);
            assert forall|i: int| 0 <= i < endpoints.len() implies (#[trigger] endpoints[i]).failure is Some by {
                if i < front.len() {
                    assert(front[i] == endpoints[i]);
                }
            }
        }
    }
}

} // verus!
