use pitaya_discovery::bus::Notification;
use pitaya_discovery::cache::{ServersCache, NOTIFICATION_CAPACITY};
use pitaya_discovery::server::{Server, ServerId, ServerKind};
use std::collections::HashMap;
use std::sync::Arc;
use tokio::sync::broadcast::error::TryRecvError;

fn server(id: &str, kind: &str, host: &str) -> Arc<Server> {
    Arc::new(Server {
        frontend: false,
        hostname: host.to_owned(),
        id: ServerId(id.to_owned()),
        kind: ServerKind(kind.to_owned()),
        metadata: HashMap::new(),
    })
}

fn ids_of(v: &[Arc<Server>]) -> Vec<String> {
    let mut r: Vec<String> = v.iter().map(|s| s.id.0.clone()).collect();
    r.sort();
    r
}

#[test]
fn capacity_of_the_channel() {
    assert_eq!(NOTIFICATION_CAPACITY, 80);
}

#[test]
fn insert_indexes_by_id_and_kind() {
    let mut c = ServersCache::new(NOTIFICATION_CAPACITY);
    c.insert(server("a", "room", "h1"));
    c.insert(server("b", "room", "h2"));
    c.insert(server("c", "connector", "h3"));
    assert_eq!(c.id_count(), 3);
    assert_eq!(c.kind_count(), 2);
    assert_eq!(ids_of(&c.servers_of_kind(&ServerKind("room".to_owned()))), vec!["a", "b"]);
    assert_eq!(ids_of(&c.servers_of_kind(&ServerKind("connector".to_owned()))), vec!["c"]);
    assert!(c.servers_of_kind(&ServerKind("gate".to_owned())).is_empty());
    assert_eq!(c.by_id(&ServerId("b".to_owned())).unwrap().hostname, "h2");
    assert!(c.by_id(&ServerId("z".to_owned())).is_none());
}

#[test]
fn reinsert_replaces_in_place_without_notification() {
    let mut c = ServersCache::new(NOTIFICATION_CAPACITY);
    let mut rx = c.subscribe().rx;
    c.insert(server("a", "room", "h1"));
    c.insert(server("a", "room", "h2"));
    assert_eq!(c.id_count(), 1);
    assert_eq!(c.servers_of_kind(&ServerKind("room".to_owned())).len(), 1);
    assert_eq!(c.by_id(&ServerId("a".to_owned())).unwrap().hostname, "h2");
    assert!(matches!(rx.try_recv(), Ok(Notification::ServerAdded(_))));
    assert!(matches!(rx.try_recv(), Err(TryRecvError::Empty)));
}

#[test]
fn reinsert_with_a_new_kind_moves_the_record() {
    let mut c = ServersCache::new(NOTIFICATION_CAPACITY);
    c.insert(server("a", "room", "h1"));
    c.insert(server("a", "gate", "h1"));
    assert_eq!(c.id_count(), 1);
    assert_eq!(c.kind_count(), 1);
    assert!(c.servers_of_kind(&ServerKind("room".to_owned())).is_empty());
    assert_eq!(ids_of(&c.servers_of_kind(&ServerKind("gate".to_owned()))), vec!["a"]);
}

#[test]
fn remove_drops_only_the_id_and_empty_kinds() {
    let mut c = ServersCache::new(NOTIFICATION_CAPACITY);
    c.insert(server("a", "room", "h1"));
    c.insert(server("b", "room", "h2"));
    c.remove(&ServerKind("room".to_owned()), &ServerId("a".to_owned()));
    assert_eq!(c.id_count(), 1);
    assert_eq!(c.kind_count(), 1);
    assert_eq!(ids_of(&c.servers_of_kind(&ServerKind("room".to_owned()))), vec!["b"]);
    c.remove(&ServerKind("room".to_owned()), &ServerId("b".to_owned()));
    assert_eq!(c.id_count(), 0);
    assert_eq!(c.kind_count(), 0);
}

#[test]
fn remove_uses_the_record_kind() {
    let mut c = ServersCache::new(NOTIFICATION_CAPACITY);
    c.insert(server("a", "room", "h1"));
    c.remove(&ServerKind("other".to_owned()), &ServerId("a".to_owned()));
    assert_eq!(c.id_count(), 0);
    assert_eq!(c.kind_count(), 0);
}

#[test]
fn remove_of_unknown_id_changes_nothing() {
    let mut c = ServersCache::new(NOTIFICATION_CAPACITY);
    let mut rx = c.subscribe().rx;
    c.insert(server("a", "room", "h1"));
    c.remove(&ServerKind("room".to_owned()), &ServerId("zz".to_owned()));
    assert_eq!(c.id_count(), 1);
    assert!(matches!(rx.try_recv(), Ok(Notification::ServerAdded(_))));
    assert!(matches!(rx.try_recv(), Err(TryRecvError::Empty)));
}

#[test]
fn subscriber_sees_added_then_removed() {
    let mut c = ServersCache::new(NOTIFICATION_CAPACITY);
    let mut rx = c.subscribe().rx;
    c.insert(server("a", "room", "h1"));
    c.insert(server("a", "room", "h1"));
    c.remove(&ServerKind("room".to_owned()), &ServerId("a".to_owned()));
    c.remove(&ServerKind("room".to_owned()), &ServerId("a".to_owned()));
    match rx.try_recv() {
        Ok(Notification::ServerAdded(s)) => assert_eq!(s.id.0, "a"),
        _ => panic!("expected an arrival"),
    }
    match rx.try_recv() {
        Ok(Notification::ServerRemoved(s)) => assert_eq!(s.hostname, "h1"),
        _ => panic!("expected a departure"),
    }
    assert!(matches!(rx.try_recv(), Err(TryRecvError::Empty)));
}

#[test]
fn late_subscriber_sees_only_later_events() {
    let mut c = ServersCache::new(NOTIFICATION_CAPACITY);
    c.insert(server("a", "room", "h1"));
    let mut rx = c.subscribe().rx;
    c.insert(server("b", "room", "h1"));
    match rx.try_recv() {
        Ok(Notification::ServerAdded(s)) => assert_eq!(s.id.0, "b"),
        _ => panic!("expected an arrival"),
    }
    assert!(matches!(rx.try_recv(), Err(TryRecvError::Empty)));
}

#[test]
fn slow_subscriber_is_told_it_lagged() {
    let mut c = ServersCache::new(NOTIFICATION_CAPACITY);
    let mut rx = c.subscribe().rx;
    // The channel rounds its capacity up to a power of two.
    let buffered = NOTIFICATION_CAPACITY.next_power_of_two();
    assert_eq!(buffered, 128);
    for i in 0..(buffered + 5) {
        c.insert(server(&format!("s{}", i), "room", "h"));
    }
    assert!(matches!(rx.try_recv(), Err(TryRecvError::Lagged(5))));
}
