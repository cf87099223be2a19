use vstd::prelude::*;

use std::collections::HashMap;
use std::sync::atomic::{AtomicUsize, Ordering};
use std::sync::Arc;

use tokio::sync::mpsc::Sender;

use crate::client::{ClientHandle, FromServer};
use crate::ClientId;

verus! {

broadcast use vstd::std_specs::hash::group_hash_axioms;

#[verifier::external_type_specification]
#[verifier::external_body]
pub struct ExIoError(std::io::Error);

/// Used by the accept loop and the connection actors to reach the registry;
/// clones share one identifier counter.
#[derive(Clone, Debug)]
pub struct ServerHandle {
    chan: Sender<ToServer>,
    next_id: Arc<AtomicUsize>,
}

impl ServerHandle {
    /// A handle that sends on `chan`, with a counter that starts at zero.
    pub fn new(chan: Sender<ToServer>) -> (r: Self) {
        ServerHandle { chan, next_id: Arc::new(AtomicUsize::new(0)) }
    }

    /// The queue of the registry.
    pub fn chan(&self) -> &Sender<ToServer> {
        &self.chan
    }

    /// Takes the next identifier from the counter that all clones share.
    pub fn next_id(&self) -> ClientId {
        let id = self.next_id.fetch_add(1, Ordering::Relaxed);
        ClientId(id)
    }
}

/// The messages that the registry handles.
pub enum ToServer {
    NewClient(ClientHandle),
    Message(ClientId, Vec<u8>),
    FatalError(std::io::Error),
}

/// An offer log: each payload offered to a connection, oldest first, with
/// whether its queue took it.
pub type Offers = Seq<(Seq<u8>, bool)>;

/// Which connections a broadcast reached, and which it gave up on.
pub struct Broadcast {
    pub delivered: Vec<ClientId>,
    pub evicted: Vec<ClientId>,
    /// The offer log of each connection that was offered the line, right
    /// after the offer.
    pub offered: Ghost<Map<ClientId, Offers>>,
}

/// The registry went from `before` to `after` by relaying chat line `msg`
/// from `from`: each other connection, and only those, was offered the line
/// once (`offered` holds its log right after the offer); a connection is
/// delivered when its queue took the line and evicted exactly when its queue
/// refused it; only the evicted connections left, and the sender's log did
/// not change.
pub open spec fn relayed(
    before: Map<ClientId, Offers>,
    after: Map<ClientId, Offers>,
    from: ClientId,
    msg: Seq<u8>,
    offered: Map<ClientId, Offers>,
    delivered: Seq<ClientId>,
    evicted: Seq<ClientId>,
) -> bool {
    &&& forall|c: ClientId| #[trigger]
        offered.contains_key(c) <==> before.contains_key(c) && c != from
    &&& forall|c: ClientId| #[trigger]
        offered.contains_key(c) ==> offered[c] == before[c].push((msg, delivered.contains(c)))
    &&& forall|c: ClientId| #[trigger]
        delivered.contains(c) ==> offered.contains_key(c) && !evicted.contains(c)
    &&& forall|c: ClientId| #[trigger]
        evicted.contains(c) <==> offered.contains_key(c) && !delivered.contains(c)
    &&& forall|c: ClientId| #[trigger]
        after.contains_key(c) <==> before.contains_key(c) && !evicted.contains(c)
    &&& forall|c: ClientId| #[trigger]
        after.contains_key(c) ==> after[c] == if offered.contains_key(c) {
            offered[c]
        } else {
            before[c]
        }
}

/// A chat line never goes back to its sender: after a relay, a registered
/// sender is still registered and its log is as it was.
pub proof fn lemma_relay_skips_sender(
    before: Map<ClientId, Offers>,
    after: Map<ClientId, Offers>,
    from: ClientId,
    msg: Seq<u8>,
    offered: Map<ClientId, Offers>,
    delivered: Seq<ClientId>,
    evicted: Seq<ClientId>,
)
    requires
        relayed(before, after, from, msg, offered, delivered, evicted),
        before.contains_key(from),
    ensures
        after.contains_key(from),
        after[from] == before[from],
{
    assert(!offered.contains_key(from));
    assert(!evicted.contains(from));
    assert(after.contains_key(from));
}

/// A connection leaves only when its queue refused the line: after a relay,
/// each other connection whose queue took the line is still registered and
/// has the line as the last entry of its log, and each one that is gone was
/// offered the line and refused it.
pub proof fn lemma_relay_evicts_only_refusals(
    before: Map<ClientId, Offers>,
    after: Map<ClientId, Offers>,
    from: ClientId,
    msg: Seq<u8>,
    offered: Map<ClientId, Offers>,
    delivered: Seq<ClientId>,
    evicted: Seq<ClientId>,
    c: ClientId,
)
    requires
        relayed(before, after, from, msg, offered, delivered, evicted),
        before.contains_key(c),
        c != from,
    ensures
        offered.contains_key(c),
        offered[c] == before[c].push((msg, offered[c].last().1)),
        after.contains_key(c) <==> offered[c].last().1,
        after.contains_key(c) ==> after[c] == before[c].push((msg, true)),
{
    assert(offered.contains_key(c));
    assert(offered[c].last() == (msg, delivered.contains(c)));
    if delivered.contains(c) {
        assert(!evicted.contains(c));
    } else {
        assert(evicted.contains(c));
    }
}

/// The live connections, each under its identifier.
pub struct Registry {
    clients: HashMap<usize, ClientHandle>,
}

impl View for Registry {
    /// Each registered connection, with its offer log.
    type V = Map<ClientId, Offers>;

    closed spec fn view(&self) -> Map<ClientId, Offers> {
        Map::new(
            |c: ClientId| self.clients@.contains_key(c.0),
            |c: ClientId| self.clients@[c.0].offers(),
        )
    }
}

impl Registry {
    /// Each connection is held under its own identifier.
    pub closed spec fn wf(&self) -> bool {
        forall|k: usize| #[trigger] self.clients@.contains_key(k) ==> self.clients@[k]@ == ClientId(k)
    }

    /// No connections.
    pub fn new() -> (r: Self)
        ensures
            r.wf(),
            r@ == Map::<ClientId, Offers>::empty(),
    {
        let r = Registry { clients: HashMap::new() };
        assert(r@ =~= Map::<ClientId, Offers>::empty());
        r
    }

    /// Whether connection `id` is registered.
    pub fn contains(&self, id: ClientId) -> (r: bool)
        ensures
            r == self@.contains_key(id),
    {
        self.clients.contains_key(&id.0)
    }

    /// Registers a connection under its identifier.
    pub fn insert(&mut self, handle: ClientHandle)
        requires
            old(self).wf(),
        ensures
            final(self).wf(),
            final(self)@ == old(self)@.insert(handle@, handle.offers()),
    {
        let id = handle.id();
        self.clients.insert(id.0, handle);
        assert(self@ =~= old(self)@.insert(handle@, handle.offers()));
    }

    /// Offers `msg` to every connection but `from`, without waiting, and
    /// evicts those whose queue refused it. The connections are taken from a
    /// snapshot of the identifiers, and evictions come after every other
    /// connection has been offered the message, so a slow connection delays
    /// nobody; evicting a connection cancels its actor.
    pub fn broadcast(&mut self, from: ClientId, msg: &Vec<u8>) -> (r: Broadcast)
        requires
            old(self).wf(),
        ensures
            final(self).wf(),
            relayed(old(self)@, final(self)@, from, msg@, r.offered@, r.delivered@, r.evicted@),
    {
        let mut delivered: Vec<ClientId> = Vec::new();
        let mut evicted: Vec<ClientId> = Vec::new();
        let ghost mut offered: Map<ClientId, Offers> = Map::empty();

        let keys_iter = self.clients.keys();
        let ghost snapshot = vstd::std_specs::iter::IteratorSpec::remaining(&keys_iter);
        proof {
            vstd::std_specs::hash::axiom_spec_keys_iter(&self.clients);
        }
        let mut keys: Vec<usize> = Vec::new();
        for k in it: keys_iter
            invariant
                it.seq() == snapshot,
                keys.len() == it.index(),
                forall|j: int| 0 <= j < it.index() ==> keys@[j] == *snapshot[j],
                snapshot.no_duplicates(),
                snapshot.unref().to_set() == old(self).clients@.dom(),
        {
            keys.push(*k);
        }
        proof {
            assert(keys@ =~= snapshot.unref());
        }
        let ghost all_keys = keys@;
        assert(all_keys.no_duplicates());
        assert(forall|k: usize| old(self).clients@.contains_key(k) <==> all_keys.contains(k));

        let mut i: usize = 0;
        while i < keys.len()
            invariant
                self.wf(),
                keys@ == all_keys,
                all_keys.no_duplicates(),
                forall|k: usize| old(self).clients@.contains_key(k) <==> all_keys.contains(k),
                0 <= i <= keys.len(),
                forall|k: usize| #[trigger]
                    self.clients@.contains_key(k) <==> old(self).clients@.contains_key(k),
                forall|j: int|
                    0 <= j < i && keys@[j] != from.0 ==> #[trigger] delivered@.contains(
                        ClientId(keys@[j]),
                    ) || evicted@.contains(ClientId(keys@[j])),
                forall|c: ClientId| #[trigger]
                    delivered@.contains(c) ==> c != from && !evicted@.contains(c) && exists|j: int|
                        0 <= j < i && keys@[j] == c.0,
                forall|c: ClientId| #[trigger]
                    evicted@.contains(c) ==> c != from && exists|j: int| 0 <= j < i && keys@[j] == c.0,
                forall|c: ClientId| #[trigger]
                    offered.contains_key(c) <==> delivered@.contains(c) || evicted@.contains(c),
                forall|c: ClientId| #[trigger]
                    offered.contains_key(c) ==> old(self).clients@.contains_key(c.0) && offered[c]
                        == old(self).clients@[c.0].offers().push((msg@, delivered@.contains(c))),
                forall|k: usize| #[trigger]
                    self.clients@.contains_key(k) ==> self.clients@[k].offers() == if offered.contains_key(
                        ClientId(k),
                    ) {
                        offered[ClientId(k)]
                    } else {
                        old(self).clients@[k].offers()
                    },
            decreases keys.len() - i,
        {
            let k = keys[i];
            proof {
                // each identifier occurs once in the snapshot
                assert forall|j: int| 0 <= j < i implies keys@[j] != k by {
                    assert(keys@[i as int] == k);
                }
            }
            if k != from.0 {
                let c = ClientId(k);
                assert(all_keys.contains(k)) by {
                    assert(all_keys[i as int] == k);
                }
                let ghost d0 = delivered@;
                let ghost e0 = evicted@;
                let ghost o0 = offered;
                let ghost before = self.clients@;
                match self.clients.remove(&k) {
                    Some(mut h) => {
                        let ok = h.send(FromServer::Message(msg.clone())).is_ok();
                        proof {
                            offered = offered.insert(c, h.offers());
                        }
                        self.clients.insert(k, h);
                        if ok {
                            delivered.push(c);
                        } else {
                            evicted.push(c);
                        }
                        proof {
                            assert(!d0.contains(c));
                            assert(!e0.contains(c));
                            assert(!o0.contains_key(c));
                            assert forall|x: ClientId| #[trigger]
                                delivered@.contains(x) <==> d0.contains(x) || (ok && x == c) by {
                                if ok {
                                    assert(delivered@ == d0.push(c));
                                    lemma_push_contains(d0, c, x);
                                } else {
                                    assert(delivered@ == d0);
                                }
                            }
                            assert forall|x: ClientId| #[trigger]
                                evicted@.contains(x) <==> e0.contains(x) || (!ok && x == c) by {
                                if !ok {
                                    assert(evicted@ == e0.push(c));
                                    lemma_push_contains(e0, c, x);
                                } else {
                                    assert(evicted@ == e0);
                                }
                            }
                            assert forall|x: ClientId| #[trigger] offered.contains_key(x)
                                implies old(self).clients@.contains_key(x.0) && offered[x]
                                == old(self).clients@[x.0].offers().push((msg@, delivered@.contains(x))) by {
                                if x != c {
                                    assert(o0.contains_key(x));
                                }
                            }
                            assert forall|kk: usize| #[trigger] self.clients@.contains_key(kk)
                                implies self.clients@[kk].offers() == if offered.contains_key(ClientId(kk)) {
                                offered[ClientId(kk)]
                            } else {
                                old(self).clients@[kk].offers()
                            } by {
                                if kk != k {
                                    assert(before.contains_key(kk));
                                    assert(ClientId(kk) != c);
                                }
                            }
                            assert(c == ClientId(keys@[i as int]));
                        }
                    },
                    None => {},
                }
            }
            i = i + 1;
        }

        let mut i: usize = 0;
        while i < evicted.len()
            invariant
                self.wf(),
                0 <= i <= evicted.len(),
                forall|k: usize| #[trigger]
                    self.clients@.contains_key(k) <==> old(self).clients@.contains_key(k)
                        && !evicted@.take(i as int).contains(ClientId(k)),
                forall|k: usize| #[trigger]
                    self.clients@.contains_key(k) ==> self.clients@[k].offers() == if offered.contains_key(
                        ClientId(k),
                    ) {
                        offered[ClientId(k)]
                    } else {
                        old(self).clients@[k].offers()
                    },
            decreases evicted.len() - i,
        {
            let k = evicted[i].0;
            self.clients.remove(&k);
            proof {
                let t = evicted@.take(i as int);
                assert(evicted@.take(i + 1) == t.push(evicted@[i as int]));
                assert forall|x: ClientId| t.push(evicted@[i as int]).contains(x) <==> t.contains(x)
                    || x == evicted@[i as int] by {
                    lemma_push_contains(t, evicted@[i as int], x);
                }
            }
            i = i + 1;
        }
        assert(evicted@.take(evicted.len() as int) == evicted@);
        proof {
            assert forall|x: ClientId| #[trigger] self@.contains_key(x) <==> old(self)@.contains_key(x)
                && !evicted@.contains(x) by {}
            assert forall|x: ClientId| old(self)@.contains_key(x) && x != from implies #[trigger]
                offered.contains_key(x) by {
                let j = choose|j: int| 0 <= j < all_keys.len() && all_keys[j] == x.0;
                assert(keys@[j] == x.0);
                assert(delivered@.contains(x) || evicted@.contains(x));
            }
        }
        Broadcast { delivered, evicted, offered: Ghost(offered) }
    }

    /// Handles one message of the registry's queue: registers a connection,
    /// relays a chat line to the other connections and reports the relay, or
    /// stops with the error that the accept loop reported.
    pub fn handle(&mut self, msg: ToServer) -> (r: Result<Option<Broadcast>, std::io::Error>)
        requires
            old(self).wf(),
        ensures
            final(self).wf(),
            match msg {
                ToServer::NewClient(h) => r matches Ok(None) && final(self)@ == old(self)@.insert(
                    h@,
                    h.offers(),
                ),
                ToServer::Message(from, line) => r matches Ok(Some(b)) && relayed(
                    old(self)@,
                    final(self)@,
                    from,
                    line@,
                    b.offered@,
                    b.delivered@,
                    b.evicted@,
                ),
                ToServer::FatalError(e) => r matches Err(x) && x == e && final(self)@ == old(
                    self,
                )@,
            },
    {
        match msg {
            ToServer::NewClient(handle) => {
                self.insert(handle);
                Ok(None)
            },
            ToServer::Message(from, line) => Ok(Some(self.broadcast(from, &line))),
            ToServer::FatalError(err) => Err(err),
        }
    }
}

/// `s.push(a)` holds `x` exactly when `s` does or `x` is `a`.
proof fn lemma_push_contains<A>(s: Seq<A>, a: A, x: A)
    ensures
        s.push(a).contains(x) <==> s.contains(x) || x == a,
{
    if s.contains(x) {
        let w = choose|w: int| 0 <= w < s.len() && s[w] == x;
        assert(s.push(a)[w] == x);
    }
    if x == a {
        assert(s.push(a)[s.len() as int] == x);
    }
    if s.push(a).contains(x) && x != a {
        let w = choose|w: int| 0 <= w < s.len() + 1 && s.push(a)[w] == x;
        assert(s[w] == x);
    }
}

} // verus!
