//! What the watch on `{prefix}/servers/` does with each event it receives.
use crate::cache::{insert_effect, remove_effect, ServersCache};
use crate::keys::{lemma_server_key_unique, parse_server_key, server_key};
use crate::server::Server;
use std::sync::Arc;
use vstd::prelude::*;

verus! {

/// One event of the prefix watch, its value already decoded.
pub enum WatchEvent {
    /// A server record was written; `None` when its value is not a server.
    Put(Option<Arc<Server>>),
    /// A key was deleted; `prior` is the record it held, where the store sent it.
    Delete { key: String, prior: Option<Arc<Server>> },
}

/// What the watch does when its stream ends.
#[derive(Debug, Clone, Copy, PartialEq, Eq, Structural)]
pub enum StreamEndAction {
    /// Watch the same prefix again.
    Reconnect,
    /// Raise the app-die signal and end the task.
    SignalAppDie,
}

/// The id that a deletion of `key` removes: taken from the prior record where
/// there is one, else from the key, where it is a server key under `prefix`.
pub open spec fn deleted_id(prefix: Seq<char>, key: Seq<char>, prior: Option<Arc<Server>>) -> Option<Seq<char>> {
    match prior {
        Some(s) => Some(s.id.0@),
        None => if exists|k: Seq<char>, id: Seq<char>| !k.contains('/') && key == #[trigger] server_key(prefix, k, id) {
            Some((choose|k: Seq<char>, id: Seq<char>| !k.contains('/') && key == #[trigger] server_key(prefix, k, id)).1)
        } else {
            None
        },
    }
}

/// Applies one watch event to the cache: a decoded put is inserted, a put
/// that could not be decoded is skipped, a delete removes its id, and a delete
/// whose id cannot be told is skipped.
pub fn apply_watch_event(cache: &mut ServersCache, prefix: &str, event: WatchEvent)
    requires
        old(cache).wf(),
    ensures
        final(cache).wf(),
        final(cache).capacity() == old(cache).capacity(),
        match event {
            WatchEvent::Put(Some(s)) => final(cache).state() == insert_effect(old(cache).state(), s),
            WatchEvent::Put(None) => final(cache).state() == old(cache).state(),
            WatchEvent::Delete { key, prior } => match deleted_id(prefix@, key@, prior) {
                Some(id) => final(cache).state() == remove_effect(old(cache).state(), id),
                None => final(cache).state() == old(cache).state(),
            },
        },
        old(cache).sent().is_prefix_of(final(cache).sent()),
{
    match event {
        WatchEvent::Put(Some(s)) => {
            cache.insert(s);
        },
        WatchEvent::Put(None) => {},
        WatchEvent::Delete { key, prior } => match prior {
            Some(s) => {
                cache.remove(&s.kind, &s.id);
            },
            None => match parse_server_key(prefix, key.as_str()) {
                Some((kind, id)) => {
                    proof {
                        let (k2, i2) = choose|k: Seq<char>, i: Seq<char>| !k.contains('/') && key@ == #[trigger] server_key(prefix@, k, i);
                        lemma_server_key_unique(prefix@, kind.0@, id.0@, k2, i2);
                    }
                    cache.remove(&kind, &id);
                },
                None => {},
            },
        },
    }
}

/// The watch's stream ended: it is watched again once, and if that also
/// fails the process is told to die.
pub fn on_stream_end(already_reconnected: bool) -> (r: StreamEndAction)
    ensures
        r == if already_reconnected { StreamEndAction::SignalAppDie } else { StreamEndAction::Reconnect },
{
    if already_reconnected {
        StreamEndAction::SignalAppDie
    } else {
        StreamEndAction::Reconnect
    }
}

} // verus!
