//! The lazy discovery engine: its lifecycle (lease, keep-alive and watch
//! tasks) and its queries, which read the cache and fill it on demand from a
//! prefix read of the store. The store calls themselves are made by the
//! caller, who hands the engine what the store returned.
use crate::bus::{Notification, Subscription};
use crate::cache::{id_key, insert_effect, inserted_all, remove_effect, IdIndex, ServersCache, NOTIFICATION_CAPACITY};
use crate::index::{index_by, keys_unique};
use crate::keys::{etcd_server_key, kind_root, server_key, server_kind_prefix, servers_root, watch_prefix};
use crate::server::{share, Server, ServerId, ServerKind};
use crate::watch::{apply_watch_event, deleted_id, WatchEvent};
use std::sync::Arc;
use vstd::prelude::*;

verus! {

/// Errors that queries surface.
#[derive(Debug, Clone, Copy, PartialEq, Eq, Structural)]
pub enum DiscoveryError {
    /// A call to the store failed.
    StoreUnavailable,
    /// A value in the store is not a server record.
    Decode,
}

/// What `stop` leaves to the caller, in this order: tell the keep-alive task
/// to end, cancel the watch, revoke the lease.
#[derive(Debug, Clone, Copy, PartialEq, Eq, Structural)]
pub struct StopPlan {
    pub stop_keep_alive: bool,
    pub cancel_watch: bool,
    pub revoke: Option<i64>,
}

/// How many leading values of a prefix read decoded into servers.
pub open spec fn decoded_len(s: Seq<Option<Arc<Server>>>) -> nat
    decreases s.len(),
{
    if s.len() == 0 {
        0
    } else if s[0] is None {
        0
    } else {
        1 + decoded_len(s.drop_first())
    }
}

/// The servers read before the first value that did not decode.
pub open spec fn decoded_servers(s: Seq<Option<Arc<Server>>>) -> Seq<Arc<Server>> {
    unwrapped(s.take(decoded_len(s) as int))
}

/// The servers in `s`, which holds only decoded values.
pub open spec fn unwrapped(s: Seq<Option<Arc<Server>>>) -> Seq<Arc<Server>> {
    s.map_values(|o: Option<Arc<Server>>| o->0)
}

proof fn lemma_decoded_len(s: Seq<Option<Arc<Server>>>, i: int)
    requires
        0 <= i <= s.len(),
        forall|j: int| 0 <= j < i ==> s[j] is Some,
        i == s.len() || s[i] is None,
    ensures
        decoded_len(s) == i,
    decreases i,
{
    if i > 0 {
        let t = s.drop_first();
        assert forall|j: int| 0 <= j < i - 1 implies t[j] is Some by {
            assert(t[j] == s[j + 1]);
        }
        lemma_decoded_len(t, i - 1);
    }
}

/// The engine.
pub struct EtcdLazy {
    prefix: String,
    this_server: Arc<Server>,
    lease_id: Option<i64>,
    keep_alive_running: bool,
    watch_running: bool,
    cache: ServersCache,
}

impl EtcdLazy {
    pub closed spec fn prefix(&self) -> Seq<char> {
        self.prefix@
    }

    pub closed spec fn this_server(&self) -> Arc<Server> {
        self.this_server
    }

    /// The lease that the local server is registered under, once granted.
    pub closed spec fn lease(&self) -> Option<i64> {
        self.lease_id
    }

    pub closed spec fn keep_alive_running(&self) -> bool {
        self.keep_alive_running
    }

    pub closed spec fn watching(&self) -> bool {
        self.watch_running
    }

    pub closed spec fn cached(&self) -> ServersCache {
        self.cache
    }

    /// The cache is well formed, and a keep-alive task runs only for a lease.
    pub open spec fn wf(&self) -> bool {
        &&& self.cached().wf()
        &&& self.keep_alive_running() ==> self.lease() is Some
    }

    /// Same prefix, local server, lease and tasks.
    pub open spec fn same_lifecycle(&self, other: &EtcdLazy) -> bool {
        &&& self.prefix() == other.prefix()
        &&& self.this_server() == other.this_server()
        &&& self.lease() == other.lease()
        &&& self.keep_alive_running() == other.keep_alive_running()
        &&& self.watching() == other.watching()
        &&& self.cached().capacity() == other.cached().capacity()
    }

    /// An engine for `server` under `prefix`, with an empty cache whose
    /// channel has capacity `NOTIFICATION_CAPACITY`, no lease and no task
    /// running.
    pub fn new(prefix: String, server: Arc<Server>) -> (r: EtcdLazy)
        ensures
            r.wf(),
            r.prefix() == prefix@,
            r.this_server() == server,
            r.lease() is None,
            !r.keep_alive_running(),
            !r.watching(),
            r.cached().ids() == IdIndex::empty(),
            r.cached().kinds() == Map::<Seq<char>, IdIndex>::empty(),
            r.cached().sent() == Seq::<Notification>::empty(),
            r.cached().capacity() == NOTIFICATION_CAPACITY,
    {
        EtcdLazy {
            prefix,
            this_server: server,
            lease_id: None,
            keep_alive_running: false,
            watch_running: false,
            cache: ServersCache::new(NOTIFICATION_CAPACITY),
        }
    }

    /// The cache.
    pub fn cache(&self) -> (r: &ServersCache)
        ensures
            *r == self.cached(),
    {
        &self.cache
    }

    /// The local server.
    pub fn server(&self) -> (r: Arc<Server>)
        ensures
            r == self.this_server(),
    {
        share(&self.this_server)
    }

    /// The lease, once granted.
    pub fn lease_id(&self) -> (r: Option<i64>)
        ensures
            r == self.lease(),
    {
        self.lease_id
    }

    /// Whether the keep-alive task runs.
    pub fn has_keep_alive_task(&self) -> (r: bool)
        ensures
            r == self.keep_alive_running(),
    {
        self.keep_alive_running
    }

    /// Whether the watch runs.
    pub fn has_watch_task(&self) -> (r: bool)
        ensures
            r == self.watching(),
    {
        self.watch_running
    }

    /// `{prefix}/servers/{kind}/`, the prefix read to fill kind `kind`.
    pub fn server_kind_prefix(&self, kind: &ServerKind) -> (r: String)
        ensures
            r@ == kind_root(self.prefix(), kind.0@),
    {
        server_kind_prefix(self.prefix.as_str(), kind)
    }

    /// `{prefix}/servers/{kind}/{id}` of the local server.
    pub fn get_etcd_server_key(&self) -> (r: String)
        ensures
            r@ == server_key(self.prefix(), self.this_server().kind.0@, self.this_server().id.0@),
    {
        etcd_server_key(self.prefix.as_str(), &self.this_server.kind, &self.this_server.id)
    }

    /// `{prefix}/servers/`, the prefix that the watch follows.
    pub fn watch_prefix(&self) -> (r: String)
        ensures
            r@ == servers_root(self.prefix()),
    {
        watch_prefix(self.prefix.as_str())
    }

    /// Records the lease that the store granted; its keep-alive task starts.
    pub fn grant_lease(&mut self, lease_id: i64)
        requires
            old(self).wf(),
            old(self).lease() is None,
            !old(self).keep_alive_running(),
        ensures
            final(self).wf(),
            final(self).lease() == Some(lease_id),
            final(self).keep_alive_running(),
            final(self).watching() == old(self).watching(),
            final(self).prefix() == old(self).prefix(),
            final(self).this_server() == old(self).this_server(),
            final(self).cached() == old(self).cached(),
    {
        self.lease_id = Some(lease_id);
        self.keep_alive_running = true;
    }

    /// The key and lease under which the local server registers itself; a
    /// lease must be held.
    pub fn registration(&self) -> (r: (String, i64))
        requires
            self.lease() is Some,
        ensures
            Some(r.1) == self.lease(),
            r.0@ == server_key(self.prefix(), self.this_server().kind.0@, self.this_server().id.0@),
    {
        (self.get_etcd_server_key(), self.lease_id.unwrap())
    }

    /// Records that the watch runs.
    pub fn start_watch(&mut self)
        requires
            old(self).wf(),
        ensures
            final(self).wf(),
            final(self).watching(),
            final(self).lease() == old(self).lease(),
            final(self).keep_alive_running() == old(self).keep_alive_running(),
            final(self).prefix() == old(self).prefix(),
            final(self).this_server() == old(self).this_server(),
            final(self).cached() == old(self).cached(),
    {
        self.watch_running = true;
    }

    /// Tears the lifecycle down: returns what the caller must end or revoke,
    /// and leaves no lease and no task behind. The cache is kept.
    pub fn stop(&mut self) -> (r: StopPlan)
        requires
            old(self).wf(),
        ensures
            final(self).wf(),
            r.stop_keep_alive == old(self).keep_alive_running(),
            r.cancel_watch == old(self).watching(),
            r.revoke == old(self).lease(),
            final(self).lease() is None,
            !final(self).keep_alive_running(),
            !final(self).watching(),
            final(self).prefix() == old(self).prefix(),
            final(self).this_server() == old(self).this_server(),
            final(self).cached() == old(self).cached(),
    {
        let r = StopPlan {
            stop_keep_alive: self.keep_alive_running,
            cancel_watch: self.watch_running,
            revoke: self.lease_id,
        };
        self.keep_alive_running = false;
        self.watch_running = false;
        self.lease_id = None;
        r
    }

    /// The cached server with id `id`, without reading the store.
    pub fn only_server_by_id(&self, id: &ServerId) -> (r: Option<Arc<Server>>)
        requires
            self.wf(),
        ensures
            r == if self.cached().ids().contains_key(id.0@) {
                Some(self.cached().ids()[id.0@])
            } else {
                None::<Arc<Server>>
            },
    {
        self.cache.by_id(id)
    }

    /// The cached servers of kind `kind`, without reading the store: exactly
    /// the records that the kind index holds for it at this moment.
    pub fn only_servers_by_kind(&self, kind: &ServerKind) -> (r: Vec<Arc<Server>>)
        requires
            self.wf(),
        ensures
            keys_unique(r@, id_key()),
            index_by(r@, id_key()) == if self.cached().kinds().contains_key(kind.0@) {
                self.cached().kinds()[kind.0@]
            } else {
                IdIndex::empty()
            },
    {
        self.cache.servers_of_kind(kind)
    }

    /// Whether a query for kind `kind` has to read the store first: exactly
    /// when the cache holds no server of that kind.
    pub fn needs_fill(&self, kind: &ServerKind) -> (r: bool)
        requires
            self.wf(),
        ensures
            r == !self.cached().kinds().contains_key(kind.0@),
    {
        let v = self.cache.servers_of_kind(kind);
        proof {
            self.cache.lemma_wf();
            if v@.len() > 0 {
                crate::index::lemma_index_at(v@, id_key(), 0);
                assert(!IdIndex::empty().contains_key(id_key()(v@[0])));
            } else {
                crate::index::lemma_index_empty(v@, id_key());
            }
        }
        v.len() == 0
    }

    /// Fills the cache from a prefix read whose values were decoded in order
    /// (`None` for one that is not a server): inserts each server up to the
    /// first value that did not decode, and fails with `Decode` if there is one.
    pub fn cache_server_kind(&mut self, decoded: Vec<Option<Arc<Server>>>) -> (r: Result<(), DiscoveryError>)
        requires
            old(self).wf(),
        ensures
            final(self).wf(),
            final(self).same_lifecycle(old(self)),
            r == if decoded_len(decoded@) == decoded@.len() {
                Ok::<(), DiscoveryError>(())
            } else {
                Err(DiscoveryError::Decode)
            },
            final(self).cached().state() == inserted_all(old(self).cached().state(), decoded_servers(decoded@)),
            old(self).cached().sent().is_prefix_of(final(self).cached().sent()),
    {
        let ghost st0 = self.cache.state();
        let ghost sent0 = self.cache.sent();
        let mut i: usize = 0;
        while i < decoded.len()
            invariant
                i <= decoded.len(),
                self.cache.wf(),
                self.same_lifecycle(old(self)),
                self.wf(),
                forall|j: int| 0 <= j < i ==> decoded@[j] is Some,
                self.cache.state() == inserted_all(st0, unwrapped(decoded@.take(i as int))),
                sent0.is_prefix_of(self.cache.sent()),
                sent0 == old(self).cached().sent(),
                st0 == old(self).cached().state(),
            decreases decoded.len() - i,
        {
            match &decoded[i] {
                Some(s) => {
                    let ghost before = self.cache.sent();
                    self.cache.insert(share(s));
                    proof {
                        let prev = unwrapped(decoded@.take(i as int));
                        let next = unwrapped(decoded@.take(i + 1));
                        assert(decoded@[i as int] == Some(*s));
                        assert(next.len() == prev.len() + 1);
                        assert(next[i as int] == *s);
                        assert(next =~= prev.push(*s));
                        assert(next.drop_last() =~= prev);
                        assert(sent0.is_prefix_of(self.cache.sent())) by {
                            assert forall|j: int| 0 <= j < sent0.len() implies sent0[j] == self.cache.sent()[j] by {
                                assert(before[j] == sent0[j]);
                            }
                        }
                    }
                },
                None => {
                    proof {
                        lemma_decoded_len(decoded@, i as int);
                        assert(decoded@.take(i as int) =~= decoded@.take(decoded_len(decoded@) as int));
                    }
                    return Err(DiscoveryError::Decode);
                },
            }
            i = i + 1;
        }
        proof {
            lemma_decoded_len(decoded@, i as int);
            assert(decoded@.take(i as int) =~= decoded@.take(decoded_len(decoded@) as int));
        }
        Ok(())
    }

    /// `serverById` after a cache miss: fills the cache from the prefix read
    /// of the kind, then looks the id up again.
    pub fn server_by_id_filled(&mut self, id: &ServerId, decoded: Vec<Option<Arc<Server>>>) -> (r: Result<
        Option<Arc<Server>>,
        DiscoveryError,
    >)
        requires
            old(self).wf(),
        ensures
            final(self).wf(),
            final(self).same_lifecycle(old(self)),
            final(self).cached().state() == inserted_all(old(self).cached().state(), decoded_servers(decoded@)),
            old(self).cached().sent().is_prefix_of(final(self).cached().sent()),
            r == if decoded_len(decoded@) == decoded@.len() {
                Ok(
                    if final(self).cached().ids().contains_key(id.0@) {
                        Some(final(self).cached().ids()[id.0@])
                    } else {
                        None::<Arc<Server>>
                    },
                )
            } else {
                Err::<Option<Arc<Server>>, DiscoveryError>(DiscoveryError::Decode)
            },
    {
        match self.cache_server_kind(decoded) {
            Ok(()) => Ok(self.only_server_by_id(id)),
            Err(e) => Err(e),
        }
    }

    /// `serversByKind` after finding no server of the kind cached: fills the
    /// cache from the prefix read of the kind and returns the servers of the
    /// kind that it then holds, possibly none.
    pub fn servers_by_kind_filled(&mut self, kind: &ServerKind, decoded: Vec<Option<Arc<Server>>>) -> (r:
        Result<Vec<Arc<Server>>, DiscoveryError>)
        requires
            old(self).wf(),
        ensures
            final(self).wf(),
            final(self).same_lifecycle(old(self)),
            final(self).cached().state() == inserted_all(old(self).cached().state(), decoded_servers(decoded@)),
            old(self).cached().sent().is_prefix_of(final(self).cached().sent()),
            (r is Ok) == (decoded_len(decoded@) == decoded@.len()),
            r is Err ==> r == Err::<Vec<Arc<Server>>, DiscoveryError>(DiscoveryError::Decode),
            r matches Ok(v) ==> keys_unique(v@, id_key()) && index_by(v@, id_key()) == if final(self).cached().kinds().contains_key(kind.0@) {
                final(self).cached().kinds()[kind.0@]
            } else {
                IdIndex::empty()
            },
    {
        match self.cache_server_kind(decoded) {
            Ok(()) => Ok(self.only_servers_by_kind(kind)),
            Err(e) => Err(e),
        }
    }

    /// A subscription to the membership notifications sent from now on.
    pub fn subscribe(&self) -> (r: Subscription)
        ensures
            r.joined_at@ == self.cached().sent().len(),
    {
        self.cache.subscribe()
    }

    /// Applies one event of the watch to the cache: a decoded put is
    /// inserted, a delete removes its id, anything else is skipped.
    pub fn apply_watch_event(&mut self, event: WatchEvent)
        requires
            old(self).wf(),
        ensures
            final(self).wf(),
            final(self).same_lifecycle(old(self)),
            match event {
                WatchEvent::Put(Some(s)) => final(self).cached().state() == insert_effect(old(self).cached().state(), s),
                WatchEvent::Put(None) => final(self).cached().state() == old(self).cached().state(),
                WatchEvent::Delete { key, prior } => match deleted_id(old(self).prefix(), key@, prior) {
                    Some(id) => final(self).cached().state() == remove_effect(old(self).cached().state(), id),
                    None => final(self).cached().state() == old(self).cached().state(),
                },
            },
            old(self).cached().sent().is_prefix_of(final(self).cached().sent()),
    {
        apply_watch_event(&mut self.cache, self.prefix.as_str(), event);
    }
}

} // verus!
