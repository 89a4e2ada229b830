use pitaya_discovery::bus::Notification;
use pitaya_discovery::engine::{DiscoveryError, EtcdLazy, StopPlan};
use pitaya_discovery::server::{Server, ServerId, ServerKind};
use std::collections::HashMap;
use std::sync::Arc;
use tokio::sync::broadcast::error::TryRecvError;

fn server(id: &str, kind: &str) -> Arc<Server> {
    Arc::new(Server {
        frontend: true,
        hostname: "".to_owned(),
        id: ServerId(id.to_owned()),
        kind: ServerKind(kind.to_owned()),
        metadata: HashMap::new(),
    })
}

fn engine(local: &Arc<Server>) -> EtcdLazy {
    EtcdLazy::new("pitaya".to_owned(), local.clone())
}

/// What a prefix read of `kind` returns once the local server is registered.
fn store_read(local: &Arc<Server>, kind: &str) -> Vec<Option<Arc<Server>>> {
    if local.kind.0 == kind {
        vec![Some(local.clone())]
    } else {
        vec![]
    }
}

fn start(sd: &mut EtcdLazy, lease: i64) {
    sd.grant_lease(lease);
    let (key, granted) = sd.registration();
    assert_eq!(key, "pitaya/servers/room/A");
    assert_eq!(granted, lease);
    sd.start_watch();
}

#[test]
fn cache_empty_on_start() {
    let local = server("A", "room");
    let sd = engine(&local);
    assert_eq!(sd.cache().id_count(), 0);
    assert_eq!(sd.cache().kind_count(), 0);
    assert_eq!(sd.lease_id(), None);
    assert!(!sd.has_keep_alive_task());
    assert!(!sd.has_watch_task());
}

#[test]
fn server_by_id_works() {
    let local = server("A", "room");
    let mut sd = engine(&local);
    let id = ServerId("random-id".to_owned());
    assert!(sd.only_server_by_id(&id).is_none());
    let server = sd.server_by_id_filled(&id, store_read(&local, "room")).unwrap();
    assert!(server.is_none());
    assert_eq!(sd.cache().id_count(), 1);

    let found_id = ServerId("A".to_owned());
    let server = sd.only_server_by_id(&found_id);
    assert!(server.is_some());
    assert_eq!(sd.cache().id_count(), 1);
    assert_eq!(sd.cache().kind_count(), 1);
    assert_eq!(sd.only_servers_by_kind(&ServerKind("room".to_owned())).len(), 1);
    assert_eq!(server.unwrap().id.0, "A");
}

#[test]
fn server_by_kind_works() {
    let local = server("A", "room");
    let mut sd = engine(&local);
    let room = ServerKind("room".to_owned());
    assert!(sd.needs_fill(&room));
    let servers = sd.servers_by_kind_filled(&room, store_read(&local, "room")).unwrap();
    assert_eq!(servers.len(), 1);
    assert!(!sd.needs_fill(&room));

    let room2 = ServerKind("room2".to_owned());
    assert!(sd.needs_fill(&room2));
    let servers = sd.servers_by_kind_filled(&room2, store_read(&local, "room2")).unwrap();
    assert_eq!(servers.len(), 0);
    assert_eq!(sd.cache().id_count(), 1);
    assert_eq!(sd.cache().kind_count(), 1);
}

#[test]
fn server_lease_works() {
    let local = server("A", "room");
    let mut sd = engine(&local);
    start(&mut sd, 10);
    assert_eq!(sd.lease_id(), Some(10));
    assert!(sd.has_keep_alive_task());
    assert!(sd.has_watch_task());
    let plan = sd.stop();
    assert_eq!(plan, StopPlan { stop_keep_alive: true, cancel_watch: true, revoke: Some(10) });
    assert_eq!(sd.lease_id(), None);
    assert!(!sd.has_keep_alive_task());
    assert!(!sd.has_watch_task());
}

#[test]
fn stop_before_start_has_nothing_to_undo() {
    let local = server("A", "room");
    let mut sd = engine(&local);
    let plan = sd.stop();
    assert_eq!(plan, StopPlan { stop_keep_alive: false, cancel_watch: false, revoke: None });
}

#[test]
fn server_watch_works() {
    let local = server("A", "room");
    let mut sd = engine(&local);
    let mut rx = sd.subscribe().rx;
    start(&mut sd, 10);
    assert!(matches!(rx.try_recv(), Err(TryRecvError::Empty)));

    let unknown = ServerKind("unknown-kind".to_owned());
    let servers = sd.servers_by_kind_filled(&unknown, store_read(&local, "unknown-kind")).unwrap();
    assert!(servers.is_empty());
    assert!(matches!(rx.try_recv(), Err(TryRecvError::Empty)));

    let room = ServerKind("room".to_owned());
    let servers = sd.servers_by_kind_filled(&room, store_read(&local, "room")).unwrap();
    assert_eq!(servers.len(), 1);
    match rx.try_recv() {
        Ok(Notification::ServerAdded(s)) => assert_eq!(s.id.0, "A"),
        _ => panic!("expected one arrival"),
    }
    assert!(matches!(rx.try_recv(), Err(TryRecvError::Empty)));

    // The lease is revoked and the watch sees the deletion of the key.
    let plan = sd.stop();
    assert_eq!(plan.revoke, Some(10));
    let key = sd.get_etcd_server_key();
    sd.apply_watch_event(pitaya_discovery::watch::WatchEvent::Delete { key, prior: None });
    match rx.try_recv() {
        Ok(Notification::ServerRemoved(s)) => assert_eq!(s.id.0, "A"),
        _ => panic!("expected one departure"),
    }
    assert!(matches!(rx.try_recv(), Err(TryRecvError::Empty)));
    assert_eq!(sd.cache().id_count(), 0);
    assert_eq!(sd.cache().kind_count(), 0);
}

#[test]
fn refilling_a_known_server_sends_nothing() {
    let local = server("A", "room");
    let mut sd = engine(&local);
    let mut rx = sd.subscribe().rx;
    let room = ServerKind("room".to_owned());
    sd.servers_by_kind_filled(&room, store_read(&local, "room")).unwrap();
    assert!(matches!(rx.try_recv(), Ok(Notification::ServerAdded(_))));
    sd.servers_by_kind_filled(&room, store_read(&local, "room")).unwrap();
    assert!(matches!(rx.try_recv(), Err(TryRecvError::Empty)));
    assert_eq!(sd.cache().id_count(), 1);
}

#[test]
fn fill_stops_at_first_undecodable_value() {
    let local = server("A", "room");
    let mut sd = engine(&local);
    let read = vec![Some(server("B", "room")), None, Some(server("C", "room"))];
    let r = sd.server_by_id_filled(&ServerId("C".to_owned()), read);
    assert_eq!(r.err(), Some(DiscoveryError::Decode));
    assert_eq!(sd.cache().id_count(), 1);
    assert!(sd.only_server_by_id(&ServerId("B".to_owned())).is_some());
    assert!(sd.only_server_by_id(&ServerId("C".to_owned())).is_none());
}

#[test]
fn keys_of_the_local_server() {
    let local = server("A", "room");
    let sd = engine(&local);
    assert_eq!(sd.get_etcd_server_key(), "pitaya/servers/room/A");
    assert_eq!(sd.server_kind_prefix(&ServerKind("room".to_owned())), "pitaya/servers/room/");
    assert_eq!(sd.watch_prefix(), "pitaya/servers/");
    assert_eq!(sd.server().id.0, "A");
}
