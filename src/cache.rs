//! The membership cache: servers indexed by id and by kind, kept in lockstep,
//! with a notification sent on every arrival and departure of an id.
use crate::bus::{bound_of, new_receiver, new_sender, send_notification, Notification, Subscription};
use crate::index::{index_by, keys_unique, lemma_index_at, lemma_index_empty, lemma_index_push, lemma_index_remove};
use crate::server::{share, Server, ServerId, ServerKind};
use std::sync::Arc;
use tokio::sync::broadcast;
use vstd::prelude::*;

verus! {

/// Index from id to server.
pub type IdIndex = Map<Seq<char>, Arc<Server>>;

/// Index from kind to the servers of that kind, by id.
pub type KindIndex = Map<Seq<char>, Map<Seq<char>, Arc<Server>>>;

/// Capacity of the notification channel of a cache.
pub const NOTIFICATION_CAPACITY: usize = 80;

pub open spec fn id_key() -> spec_fn(Arc<Server>) -> Seq<char> {
    |s: Arc<Server>| s.id.0@
}

pub open spec fn kind_key() -> spec_fn(KindEntry) -> Seq<char> {
    |e: KindEntry| e.kind.0@
}

/// The two indices agree: each server indexed by id is indexed under its
/// kind with the same record, each server indexed under a kind has that kind
/// and is indexed by id with the same record, and no kind maps to nothing.
pub open spec fn indices_consistent(ids: IdIndex, kinds: KindIndex) -> bool {
    &&& forall|id: Seq<char>|
        #![trigger ids[id]]
        ids.contains_key(id) ==> {
            &&& ids[id].id.0@ == id
            &&& kinds.contains_key(ids[id].kind.0@)
            &&& kinds[ids[id].kind.0@].contains_key(id)
            &&& kinds[ids[id].kind.0@][id] == ids[id]
        }
    &&& forall|k: Seq<char>, id: Seq<char>|
        #![trigger kinds[k][id]]
        kinds.contains_key(k) && kinds[k].contains_key(id) ==> {
            &&& kinds[k][id].kind.0@ == k
            &&& ids.contains_key(id)
            &&& ids[id] == kinds[k][id]
        }
    &&& forall|k: Seq<char>| #[trigger] kinds.contains_key(k) ==> kinds[k] != Map::<Seq<char>, Arc<Server>>::empty()
}

/// `kinds` with `s` put under its kind.
pub open spec fn kinds_put(kinds: KindIndex, s: Arc<Server>) -> KindIndex {
    let k = s.kind.0@;
    let inner = if kinds.contains_key(k) {
        kinds[k]
    } else {
        Map::empty()
    };
    kinds.insert(k, inner.insert(s.id.0@, s))
}

/// `kinds` without `id` under kind `k`; a kind left with nothing is dropped.
pub open spec fn kinds_drop(kinds: KindIndex, k: Seq<char>, id: Seq<char>) -> KindIndex {
    if kinds.contains_key(k) && kinds[k].contains_key(id) {
        if kinds[k].remove(id) == Map::<Seq<char>, Arc<Server>>::empty() {
            kinds.remove(k)
        } else {
            kinds.insert(k, kinds[k].remove(id))
        }
    } else {
        kinds
    }
}

/// The indices and notification log of a cache, together.
pub type CacheState = (IdIndex, KindIndex, Seq<Notification>);

/// What inserting `s` does to a cache state: the record is upserted in both
/// indices, and `ServerAdded(s)` is sent only for an id that was absent.
pub open spec fn insert_effect(st: CacheState, s: Arc<Server>) -> CacheState {
    let (ids, kinds, sent) = st;
    let id = s.id.0@;
    if ids.contains_key(id) {
        (ids.insert(id, s), kinds_put(kinds_drop(kinds, ids[id].kind.0@, id), s), sent)
    } else {
        (ids.insert(id, s), kinds_put(kinds, s), sent.push(Notification::ServerAdded(s)))
    }
}

/// What inserting each of `v` in turn does to a cache state.
pub open spec fn inserted_all(st: CacheState, v: Seq<Arc<Server>>) -> CacheState
    decreases v.len(),
{
    if v.len() == 0 {
        st
    } else {
        insert_effect(inserted_all(st, v.drop_last()), v.last())
    }
}

/// What removing `id` does to a cache state: the record leaves both indices
/// and `ServerRemoved` is sent with it, if it was present.
pub open spec fn remove_effect(st: CacheState, id: Seq<char>) -> CacheState {
    let (ids, kinds, sent) = st;
    if ids.contains_key(id) {
        (ids.remove(id), kinds_drop(kinds, ids[id].kind.0@, id), sent.push(Notification::ServerRemoved(ids[id])))
    } else {
        (ids, kinds, sent)
    }
}

/// Inserting servers that are all present already sends nothing.
pub proof fn lemma_refill_sends_nothing(st: CacheState, v: Seq<Arc<Server>>)
    requires
        forall|i: int| 0 <= i < v.len() ==> st.0.contains_key(#[trigger] v[i].id.0@),
    ensures
        inserted_all(st, v).2 == st.2,
        forall|id: Seq<char>| st.0.contains_key(id) ==> #[trigger] inserted_all(st, v).0.contains_key(id),
    decreases v.len(),
{
    if v.len() > 0 {
        let w = v.drop_last();
        assert forall|i: int| 0 <= i < w.len() implies st.0.contains_key(#[trigger] w[i].id.0@) by {
            assert(w[i] == v[i]);
        }
        lemma_refill_sends_nothing(st, w);
        assert(st.0.contains_key(v[v.len() - 1].id.0@));
    }
}

/// The notifications about `id` in `log`, each as `true` for an arrival and
/// `false` for a departure.
pub open spec fn events_for(log: Seq<Notification>, id: Seq<char>) -> Seq<bool>
    decreases log.len(),
{
    if log.len() == 0 {
        Seq::empty()
    } else {
        let prev = events_for(log.drop_last(), id);
        if log.last().server_id() == id {
            prev.push(log.last().is_added())
        } else {
            prev
        }
    }
}

/// Arrival, departure, arrival, ... in turn, starting with an arrival.
pub open spec fn alternating(s: Seq<bool>) -> bool {
    forall|i: int| 0 <= i < s.len() ==> #[trigger] s[i] == (i % 2 == 0)
}

/// The servers of one kind.
pub struct KindEntry {
    pub kind: ServerKind,
    pub servers: Vec<Arc<Server>>,
}

/// The cache of known peers.
pub struct ServersCache {
    by_id: Vec<Arc<Server>>,
    by_kind: Vec<KindEntry>,
    sender: broadcast::Sender<Notification>,
    log: Ghost<Seq<Notification>>,
}

pub proof fn lemma_events_push(log: Seq<Notification>, n: Notification, id: Seq<char>)
    ensures
        events_for(log.push(n), id) == if n.server_id() == id {
            events_for(log, id).push(n.is_added())
        } else {
            events_for(log, id)
        },
{
    assert(log.push(n).drop_last() =~= log);
}

fn find_server(v: &Vec<Arc<Server>>, id: &ServerId) -> (r: Option<usize>)
    ensures
        match r {
            Some(i) => i < v.len() && v@[i as int].id.0@ == id.0@,
            None => !index_by(v@, id_key()).contains_key(id.0@),
        },
{
    let mut i: usize = 0;
    while i < v.len()
        invariant
            i <= v.len(),
            forall|j: int| 0 <= j < i ==> v@[j].id.0@ != id.0@,
        decreases v.len() - i,
    {
        if v[i].id.0 == id.0 {
            return Some(i);
        }
        i = i + 1;
    }
    assert(!(exists|j: int| 0 <= j < v@.len() && id_key()(v@[j]) == id.0@));
    None
}

fn find_kind(v: &Vec<KindEntry>, kind: &ServerKind) -> (r: Option<usize>)
    ensures
        match r {
            Some(i) => i < v.len() && v@[i as int].kind.0@ == kind.0@,
            None => !index_by(v@, kind_key()).contains_key(kind.0@),
        },
{
    let mut i: usize = 0;
    while i < v.len()
        invariant
            i <= v.len(),
            forall|j: int| 0 <= j < i ==> v@[j].kind.0@ != kind.0@,
        decreases v.len() - i,
    {
        if v[i].kind.0 == kind.0 {
            return Some(i);
        }
        i = i + 1;
    }
    assert(!(exists|j: int| 0 <= j < v@.len() && kind_key()(v@[j]) == kind.0@));
    None
}


/// Every kind appears once, and each holds at least one server, with distinct ids.
pub open spec fn entries_wf(v: Seq<KindEntry>) -> bool {
    &&& keys_unique(v, kind_key())
    &&& forall|i: int|
        #![trigger v[i]]
        0 <= i < v.len() ==> keys_unique(v[i].servers@, id_key()) && v[i].servers@.len() > 0
}

/// The index from kind to servers that `v` stands for.
pub open spec fn kinds_view(v: Seq<KindEntry>) -> KindIndex {
    index_by(v, kind_key()).map_values(|e: KindEntry| index_by(e.servers@, id_key()))
}

proof fn lemma_servers_nonempty(v: Seq<Arc<Server>>)
    requires
        keys_unique(v, id_key()),
    ensures
        (index_by(v, id_key()) == Map::<Seq<char>, Arc<Server>>::empty()) == (v.len() == 0),
{
    if v.len() == 0 {
        lemma_index_empty(v, id_key());
    } else {
        lemma_index_at(v, id_key(), 0);
        assert(!Map::<Seq<char>, Arc<Server>>::empty().contains_key(id_key()(v[0])));
    }
}

/// Puts `s` under its kind, replacing a record of the same id there.
fn kind_put(v: &mut Vec<KindEntry>, s: Arc<Server>)
    requires
        entries_wf(old(v)@),
    ensures
        entries_wf(final(v)@),
        kinds_view(final(v)@) == kinds_put(kinds_view(old(v)@), s),
{
    let ghost v0 = v@;
    let ghost k = s.kind.0@;
    match find_kind(v, &s.kind) {
        Some(i) => {
            let mut e = v.remove(i);
            proof {
                lemma_index_at(v0, kind_key(), i as int);
                lemma_index_remove(v0, kind_key(), i as int);
                assert(entries_wf(v@)) by {
                    assert forall|a: int| #![trigger v@[a]] 0 <= a < v@.len() implies keys_unique(v@[a].servers@, id_key()) && v@[a].servers@.len() > 0 by {
                        let a2 = if a < i { a } else { a + 1 };
                        assert(v@[a] == v0[a2]);
                    }
                }
            }
            let ghost inner0 = e.servers@;
            match find_server(&e.servers, &s.id) {
                Some(j) => {
                    e.servers.remove(j);
                    proof {
                        lemma_index_remove(inner0, id_key(), j as int);
                    }
                },
                None => {},
            }
            let ghost inner1 = e.servers@;
            e.servers.push(s);
            proof {
                lemma_index_push(inner1, id_key(), s);
                assert(index_by(e.servers@, id_key()) =~= index_by(inner0, id_key()).insert(s.id.0@, s));
            }
            let ghost v1 = v@;
            v.push(e);
            proof {
                assert(!index_by(v1, kind_key()).contains_key(kind_key()(e)));
                lemma_index_push(v1, kind_key(), e);
                assert forall|a: int| #![trigger v@[a]] 0 <= a < v@.len() implies keys_unique(v@[a].servers@, id_key()) && v@[a].servers@.len() > 0 by {
                    if a < v1.len() {
                        assert(v@[a] == v1[a]);
                    }
                }
                assert(kinds_view(v@) =~= kinds_put(kinds_view(v0), s));
            }
        },
        None => {
            let kind = ServerKind(s.kind.0.clone());
            let mut servers: Vec<Arc<Server>> = Vec::new();
            servers.push(s);
            let e = KindEntry { kind, servers };
            proof {
                assert(keys_unique(e.servers@, id_key()));
                assert(index_by(e.servers@, id_key()) =~= Map::<Seq<char>, Arc<Server>>::empty().insert(s.id.0@, s)) by {
                    lemma_index_push(Seq::<Arc<Server>>::empty(), id_key(), s);
                    lemma_index_empty(Seq::<Arc<Server>>::empty(), id_key());
                    assert(Seq::<Arc<Server>>::empty().push(s) =~= e.servers@);
                }
            }
            v.push(e);
            proof {
                lemma_index_push(v0, kind_key(), e);
                assert forall|a: int| #![trigger v@[a]] 0 <= a < v@.len() implies keys_unique(v@[a].servers@, id_key()) && v@[a].servers@.len() > 0 by {
                    if a < v0.len() {
                        assert(v@[a] == v0[a]);
                    }
                }
                assert(kinds_view(v@) =~= kinds_put(kinds_view(v0), s));
            }
        },
    }
}

/// Takes `id` out of kind `kind`, dropping the kind when nothing is left.
fn kind_drop(v: &mut Vec<KindEntry>, kind: &ServerKind, id: &ServerId)
    requires
        entries_wf(old(v)@),
    ensures
        entries_wf(final(v)@),
        kinds_view(final(v)@) == kinds_drop(kinds_view(old(v)@), kind.0@, id.0@),
{
    let ghost v0 = v@;
    match find_kind(v, kind) {
        None => {},
        Some(i) => {
            proof {
                lemma_index_at(v0, kind_key(), i as int);
            }
            match find_server(&v[i].servers, id) {
                None => {},
                Some(j) => {
                    let mut e = v.remove(i);
                    proof {
                        lemma_index_remove(v0, kind_key(), i as int);
                        assert forall|a: int| #![trigger v@[a]] 0 <= a < v@.len() implies keys_unique(v@[a].servers@, id_key()) && v@[a].servers@.len() > 0 by {
                            let a2 = if a < i { a } else { a + 1 };
                            assert(v@[a] == v0[a2]);
                        }
                    }
                    let ghost inner0 = e.servers@;
                    e.servers.remove(j);
                    proof {
                        lemma_index_remove(inner0, id_key(), j as int);
                        lemma_servers_nonempty(e.servers@);
                    }
                    if e.servers.len() > 0 {
                        let ghost v1 = v@;
                        v.push(e);
                        proof {
                            lemma_index_push(v1, kind_key(), e);
                            assert forall|a: int| #![trigger v@[a]] 0 <= a < v@.len() implies keys_unique(v@[a].servers@, id_key()) && v@[a].servers@.len() > 0 by {
                                if a < v1.len() {
                                    assert(v@[a] == v1[a]);
                                }
                            }
                            assert(kinds_view(v@) =~= kinds_drop(kinds_view(v0), kind.0@, id.0@));
                        }
                    } else {
                        proof {
                            assert(kinds_view(v@) =~= kinds_drop(kinds_view(v0), kind.0@, id.0@));
                        }
                    }
                },
            }
        },
    }
}


/// Putting a server whose id is absent keeps the indices consistent.
proof fn lemma_put_consistent(ids: IdIndex, kinds: KindIndex, s: Arc<Server>)
    requires
        indices_consistent(ids, kinds),
        !ids.contains_key(s.id.0@),
    ensures
        indices_consistent(ids.insert(s.id.0@, s), kinds_put(kinds, s)),
{
    let ids1 = ids.insert(s.id.0@, s);
    let kinds1 = kinds_put(kinds, s);
    assert forall|k: Seq<char>, id: Seq<char>|
        #![trigger kinds1[k][id]]
        kinds1.contains_key(k) && kinds1[k].contains_key(id) implies {
            &&& kinds1[k][id].kind.0@ == k
            &&& ids1.contains_key(id)
            &&& ids1[id] == kinds1[k][id]
        } by {
        if k == s.kind.0@ && id != s.id.0@ {
            assert(kinds.contains_key(k) && kinds[k].contains_key(id));
            assert(kinds1[k][id] == kinds[k][id]);
        }
    }
    assert forall|k: Seq<char>| #[trigger] kinds1.contains_key(k) implies kinds1[k] != Map::<Seq<char>, Arc<Server>>::empty() by {
        if k == s.kind.0@ {
            assert(kinds1[k].contains_key(s.id.0@));
        } else {
            assert(kinds1[k] == kinds[k]);
        }
    }
}

/// Taking out a present id, under its own kind, keeps the indices consistent.
proof fn lemma_drop_consistent(ids: IdIndex, kinds: KindIndex, id: Seq<char>)
    requires
        indices_consistent(ids, kinds),
        ids.contains_key(id),
    ensures
        indices_consistent(ids.remove(id), kinds_drop(kinds, ids[id].kind.0@, id)),
{
    let k0 = ids[id].kind.0@;
    let ids1 = ids.remove(id);
    let kinds1 = kinds_drop(kinds, k0, id);
    assert(kinds.contains_key(k0) && kinds[k0].contains_key(id));
    assert forall|x: Seq<char>| #![trigger ids1[x]] ids1.contains_key(x) implies {
        &&& ids1[x].id.0@ == x
        &&& kinds1.contains_key(ids1[x].kind.0@)
        &&& kinds1[ids1[x].kind.0@].contains_key(x)
        &&& kinds1[ids1[x].kind.0@][x] == ids1[x]
    } by {
        assert(ids[x] == ids1[x]);
        let kx = ids[x].kind.0@;
        if kx == k0 {
            assert(kinds[k0].remove(id).contains_key(x));
        }
    }
    assert forall|k: Seq<char>, x: Seq<char>|
        #![trigger kinds1[k][x]]
        kinds1.contains_key(k) && kinds1[k].contains_key(x) implies {
            &&& kinds1[k][x].kind.0@ == k
            &&& ids1.contains_key(x)
            &&& ids1[x] == kinds1[k][x]
        } by {
        assert(kinds.contains_key(k) && kinds[k].contains_key(x));
        assert(kinds1[k][x] == kinds[k][x]);
        if x == id {
            assert(kinds[k][x].kind.0@ == k);
            assert(k == k0);
        }
    }
}

/// A sequence with distinct keys has as many entries in its index as elements.
proof fn lemma_index_len(v: Seq<Arc<Server>>)
    requires
        keys_unique(v, id_key()),
    ensures
        index_by(v, id_key()).dom().finite(),
        index_by(v, id_key()).dom().len() == v.len(),
    decreases v.len(),
{
    if v.len() == 0 {
        lemma_index_empty(v, id_key());
    } else {
        let w = v.drop_last();
        assert(keys_unique(w, id_key()));
        lemma_index_len(w);
        assert(!index_by(w, id_key()).contains_key(id_key()(v.last()))) by {
            if index_by(w, id_key()).contains_key(id_key()(v.last())) {
                let j = choose|j: int| 0 <= j < w.len() && id_key()(w[j]) == id_key()(v.last());
                assert(v[j] == w[j]);
                assert(id_key()(v[j]) != id_key()(v[v.len() - 1]));
            }
        }
        lemma_index_push(w, id_key(), v.last());
        assert(w.push(v.last()) =~= v);
    }
}

impl ServersCache {
    /// The index from id to server.
    pub closed spec fn ids(&self) -> IdIndex {
        index_by(self.by_id@, id_key())
    }

    /// The index from kind to the servers of that kind.
    pub closed spec fn kinds(&self) -> KindIndex {
        kinds_view(self.by_kind@)
    }

    /// The capacity that the notification channel was made with.
    pub closed spec fn capacity(&self) -> nat {
        bound_of(self.sender)
    }

    /// The indices and notification log together.
    pub open spec fn state(&self) -> CacheState {
        (self.ids(), self.kinds(), self.sent())
    }

    /// Every notification sent so far, oldest first.
    pub closed spec fn sent(&self) -> Seq<Notification> {
        self.log@
    }

    pub closed spec fn wf(&self) -> bool {
        &&& keys_unique(self.by_id@, id_key())
        &&& entries_wf(self.by_kind@)
        &&& indices_consistent(self.ids(), self.kinds())
        &&& forall|id: Seq<char>|
            #![trigger events_for(self.log@, id)]
            alternating(events_for(self.log@, id)) && ((events_for(self.log@, id).len() % 2 == 1)
                == self.ids().contains_key(id))
    }

    /// What a well-formed cache guarantees: the two indices agree, and the
    /// notifications about each id alternate, starting with an arrival, and
    /// end with an arrival exactly when the id is present.
    pub proof fn lemma_wf(&self)
        requires
            self.wf(),
        ensures
            indices_consistent(self.ids(), self.kinds()),
            forall|id: Seq<char>|
                #![trigger events_for(self.sent(), id)]
                alternating(events_for(self.sent(), id)) && ((events_for(self.sent(), id).len() % 2
                    == 1) == self.ids().contains_key(id)),
    {
    }

    /// An empty cache, with a notification channel made with capacity
    /// `max_chan_size`.
    pub fn new(max_chan_size: usize) -> (r: ServersCache)
        requires
            0 < max_chan_size <= usize::MAX / 2,
        ensures
            r.capacity() == max_chan_size,
            r.wf(),
            r.ids() == IdIndex::empty(),
            r.kinds() == KindIndex::empty(),
            r.sent() == Seq::<Notification>::empty(),
    {
        let r = ServersCache {
            by_id: Vec::new(),
            by_kind: Vec::new(),
            sender: new_sender(max_chan_size),
            log: Ghost(Seq::empty()),
        };
        proof {
            lemma_index_empty(r.by_id@, id_key());
            lemma_index_empty(r.by_kind@, kind_key());
            assert(r.kinds() =~= KindIndex::empty());
            assert forall|id: Seq<char>| #![trigger events_for(r.log@, id)] alternating(events_for(r.log@, id)) && ((events_for(r.log@, id).len() % 2 == 1) == r.ids().contains_key(id)) by {
                assert(events_for(r.log@, id) == Seq::<bool>::empty());
            }
        }
        r
    }

    /// The server with id `id`, if present.
    pub fn by_id(&self, id: &ServerId) -> (r: Option<Arc<Server>>)
        requires
            self.wf(),
        ensures
            r == if self.ids().contains_key(id.0@) {
                Some(self.ids()[id.0@])
            } else {
                None::<Arc<Server>>
            },
    {
        match find_server(&self.by_id, id) {
            Some(i) => {
                proof {
                    lemma_index_at(self.by_id@, id_key(), i as int);
                }
                Some(share(&self.by_id[i]))
            },
            None => None,
        }
    }

    /// Upserts `server` in both indices. A new id sends `ServerAdded`; an id
    /// already present has its record replaced and sends nothing.
    pub fn insert(&mut self, server: Arc<Server>)
        requires
            old(self).wf(),
        ensures
            final(self).wf(),
            final(self).state() == insert_effect(old(self).state(), server),
            final(self).capacity() == old(self).capacity(),
            final(self).ids() == old(self).ids().insert(server.id.0@, server),
            final(self).kinds() == if old(self).ids().contains_key(server.id.0@) {
                kinds_put(
                    kinds_drop(old(self).kinds(), old(self).ids()[server.id.0@].kind.0@, server.id.0@),
                    server,
                )
            } else {
                kinds_put(old(self).kinds(), server)
            },
            final(self).sent() == if old(self).ids().contains_key(server.id.0@) {
                old(self).sent()
            } else {
                old(self).sent().push(Notification::ServerAdded(server))
            },
    {
        let ghost ids0 = self.ids();
        let ghost kinds0 = self.kinds();
        let ghost id = server.id.0@;
        match find_server(&self.by_id, &server.id) {
            Some(i) => {
                let ghost v0 = self.by_id@;
                let prior = self.by_id.remove(i);
                proof {
                    lemma_index_at(v0, id_key(), i as int);
                    lemma_index_remove(v0, id_key(), i as int);
                    lemma_drop_consistent(ids0, kinds0, id);
                }
                kind_drop(&mut self.by_kind, &prior.kind, &server.id);
                let ghost v1 = self.by_id@;
                self.by_id.push(share(&server));
                proof {
                    lemma_index_push(v1, id_key(), server);
                    lemma_put_consistent(ids0.remove(id), kinds_drop(kinds0, ids0[id].kind.0@, id), server);
                    assert(ids0.remove(id).insert(id, server) =~= ids0.insert(id, server));
                }
                kind_put(&mut self.by_kind, server);
                proof {
                    assert forall|x: Seq<char>| #![trigger events_for(self.log@, x)] alternating(events_for(self.log@, x)) && ((events_for(self.log@, x).len() % 2 == 1) == self.ids().contains_key(x)) by {
                        assert(ids0.contains_key(x) == self.ids().contains_key(x));
                    }
                }
            },
            None => {
                let ghost v0 = self.by_id@;
                self.by_id.push(share(&server));
                proof {
                    lemma_index_push(v0, id_key(), server);
                    lemma_put_consistent(ids0, kinds0, server);
                }
                kind_put(&mut self.by_kind, share(&server));
                let ghost log0 = self.log@;
                let ghost n = Notification::ServerAdded(server);
                self.notify(Notification::ServerAdded(server));
                proof {
                    assert forall|x: Seq<char>| #![trigger events_for(self.log@, x)] alternating(events_for(self.log@, x)) && ((events_for(self.log@, x).len() % 2 == 1) == self.ids().contains_key(x)) by {
                        lemma_events_push(log0, n, x);
                        assert(alternating(events_for(log0, x)));
                        if x == id {
                            assert(!ids0.contains_key(x));
                        } else {
                            assert(ids0.contains_key(x) == self.ids().contains_key(x));
                        }
                    }
                }
            },
        }
    }

    /// Takes out the server with id `id`, if present, from both indices and
    /// sends `ServerRemoved` with its record. The kind index is cleaned under
    /// the record's own kind, whatever `_kind` the caller supplied.
    pub fn remove(&mut self, _kind: &ServerKind, id: &ServerId)
        requires
            old(self).wf(),
        ensures
            final(self).wf(),
            final(self).state() == remove_effect(old(self).state(), id.0@),
            final(self).capacity() == old(self).capacity(),
            final(self).ids() == old(self).ids().remove(id.0@),
            final(self).kinds() == if old(self).ids().contains_key(id.0@) {
                kinds_drop(old(self).kinds(), old(self).ids()[id.0@].kind.0@, id.0@)
            } else {
                old(self).kinds()
            },
            final(self).sent() == if old(self).ids().contains_key(id.0@) {
                old(self).sent().push(Notification::ServerRemoved(old(self).ids()[id.0@]))
            } else {
                old(self).sent()
            },
    {
        let ghost ids0 = self.ids();
        let ghost kinds0 = self.kinds();
        match find_server(&self.by_id, id) {
            None => {
                proof {
                    assert(ids0.remove(id.0@) =~= ids0);
                }
            },
            Some(i) => {
                let ghost v0 = self.by_id@;
                let prior = self.by_id.remove(i);
                proof {
                    lemma_index_at(v0, id_key(), i as int);
                    lemma_index_remove(v0, id_key(), i as int);
                    lemma_drop_consistent(ids0, kinds0, id.0@);
                }
                kind_drop(&mut self.by_kind, &prior.kind, id);
                let ghost log0 = self.log@;
                let ghost n = Notification::ServerRemoved(prior);
                self.notify(Notification::ServerRemoved(prior));
                proof {
                    assert forall|x: Seq<char>| #![trigger events_for(self.log@, x)] alternating(events_for(self.log@, x)) && ((events_for(self.log@, x).len() % 2 == 1) == self.ids().contains_key(x)) by {
                        lemma_events_push(log0, n, x);
                        assert(alternating(events_for(log0, x)));
                        if x != id.0@ {
                            assert(ids0.contains_key(x) == self.ids().contains_key(x));
                        }
                    }
                }
            },
        }
    }

    /// Sends `n` to the current subscribers and records it as sent.
    fn notify(&mut self, n: Notification)
        ensures
            final(self).log@ == old(self).log@.push(n),
            final(self).by_id == old(self).by_id,
            final(self).by_kind == old(self).by_kind,
            final(self).sender == old(self).sender,
    {
        self.log = Ghost(self.log@.push(n));
        send_notification(&self.sender, n);
    }

    /// A subscription to this cache's channel, which receives the
    /// notifications sent from now on: it joins at the current end of the log.
    pub fn subscribe(&self) -> (r: Subscription)
        ensures
            r.joined_at@ == self.sent().len(),
    {
        Subscription { rx: new_receiver(&self.sender), joined_at: Ghost(self.log@.len()) }
    }

    /// A snapshot of the servers of kind `kind`: exactly the records that the
    /// kind index holds for it, each once; empty for an unknown kind.
    pub fn servers_of_kind(&self, kind: &ServerKind) -> (r: Vec<Arc<Server>>)
        requires
            self.wf(),
        ensures
            keys_unique(r@, id_key()),
            index_by(r@, id_key()) == if self.kinds().contains_key(kind.0@) {
                self.kinds()[kind.0@]
            } else {
                Map::<Seq<char>, Arc<Server>>::empty()
            },
    {
        let mut r: Vec<Arc<Server>> = Vec::new();
        match find_kind(&self.by_kind, kind) {
            None => {
                proof {
                    lemma_index_empty(r@, id_key());
                }
            },
            Some(i) => {
                proof {
                    lemma_index_at(self.by_kind@, kind_key(), i as int);
                }
                let servers = &self.by_kind[i].servers;
                let mut j: usize = 0;
                while j < servers.len()
                    invariant
                        j <= servers.len(),
                        servers@ == self.by_kind@[i as int].servers@,
                        keys_unique(servers@, id_key()),
                        r@ == servers@.subrange(0, j as int),
                    decreases servers.len() - j,
                {
                    r.push(share(&servers[j]));
                    j = j + 1;
                    proof {
                        assert(r@ =~= servers@.subrange(0, j as int));
                    }
                }
                proof {
                    assert(r@ =~= servers@);
                }
            },
        }
        r
    }

    /// How many servers are indexed by id.
    pub fn id_count(&self) -> (r: usize)
        requires
            self.wf(),
        ensures
            r == self.ids().dom().len(),
    {
        proof {
            lemma_index_len(self.by_id@);
        }
        self.by_id.len()
    }

    /// How many kinds are indexed.
    pub fn kind_count(&self) -> (r: usize)
        requires
            self.wf(),
        ensures
            r == self.kinds().dom().len(),
    {
        proof {
            kind_index_len(self.by_kind@);
        }
        self.by_kind.len()
    }
}

proof fn kind_index_len(v: Seq<KindEntry>)
    requires
        keys_unique(v, kind_key()),
    ensures
        kinds_view(v).dom().finite(),
        kinds_view(v).dom().len() == v.len(),
    decreases v.len(),
{
    if v.len() == 0 {
        lemma_index_empty(v, kind_key());
        assert(kinds_view(v).dom() =~= Set::<Seq<char>>::empty());
    } else {
        let w = v.drop_last();
        assert(keys_unique(w, kind_key()));
        kind_index_len(w);
        assert(!index_by(w, kind_key()).contains_key(kind_key()(v.last()))) by {
            if index_by(w, kind_key()).contains_key(kind_key()(v.last())) {
                let j = choose|j: int| 0 <= j < w.len() && kind_key()(w[j]) == kind_key()(v.last());
                assert(v[j] == w[j]);
                assert(kind_key()(v[j]) != kind_key()(v[v.len() - 1]));
            }
        }
        lemma_index_push(w, kind_key(), v.last());
        assert(w.push(v.last()) =~= v);
        assert(kinds_view(v).dom() =~= kinds_view(w).dom().insert(kind_key()(v.last())));
    }
}


proof fn lemma_events_concat(a: Seq<Notification>, b: Seq<Notification>, id: Seq<char>)
    ensures
        events_for(a + b, id) == events_for(a, id) + events_for(b, id),
    decreases b.len(),
{
    if b.len() == 0 {
        assert(a + b =~= a);
        assert(events_for(a, id) + events_for(b, id) =~= events_for(a, id));
    } else {
        let b0 = b.drop_last();
        lemma_events_concat(a, b0, id);
        assert((a + b).drop_last() =~= a + b0);
        assert(events_for(a, id) + events_for(b0, id).push(b.last().is_added()) =~= (events_for(a, id) + events_for(b0, id)).push(b.last().is_added()));
    }
}

/// A subscription that joined `before` while `id` was absent sees, about
/// `id`, arrivals and departures in turn, starting with an arrival, among the
/// notifications sent up to `after`; what it has seen ends with an arrival
/// exactly when `id` is present. So one that has seen a single arrival and
/// then a departure has seen one of each, in that order.
pub proof fn lemma_subscriber_alternation(
    sub: &Subscription,
    before: &ServersCache,
    after: &ServersCache,
    id: Seq<char>,
)
    requires
        before.wf(),
        after.wf(),
        sub.joined_at@ == before.sent().len(),
        before.sent().is_prefix_of(after.sent()),
        !before.ids().contains_key(id),
    ensures
        alternating(events_for(after.sent().subrange(sub.joined_at@ as int, after.sent().len() as int), id)),
        (events_for(after.sent().subrange(sub.joined_at@ as int, after.sent().len() as int), id).len() % 2 == 1)
            == after.ids().contains_key(id),
{
    let n = before.sent().len() as int;
    assert(after.sent().subrange(0, n) =~= before.sent());
    let tail = after.sent().subrange(n, after.sent().len() as int);
    assert(before.sent() + tail =~= after.sent());
    lemma_events_concat(before.sent(), tail, id);
    let e0 = events_for(before.sent(), id);
    let e1 = events_for(after.sent(), id);
    let t = events_for(tail, id);
    assert(alternating(e0) && e0.len() % 2 == 0);
    assert(alternating(e1));
    assert forall|i: int| 0 <= i < t.len() implies #[trigger] t[i] == (i % 2 == 0) by {
        assert(t[i] == e1[e0.len() + i]);
    }
}

} // verus!
