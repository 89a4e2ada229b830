use pitaya_discovery::keys::{etcd_server_key, parse_server_key, server_kind_prefix, watch_prefix};
use pitaya_discovery::server::{ServerId, ServerKind};

#[test]
fn key_layout() {
    let kind = ServerKind("room".to_owned());
    let id = ServerId("A".to_owned());
    assert_eq!(watch_prefix("pitaya"), "pitaya/servers/");
    assert_eq!(server_kind_prefix("pitaya", &kind), "pitaya/servers/room/");
    assert_eq!(etcd_server_key("pitaya", &kind, &id), "pitaya/servers/room/A");
}

#[test]
fn parse_round_trips_a_server_key() {
    let (kind, id) = parse_server_key("pitaya", "pitaya/servers/room/A").unwrap();
    assert_eq!(kind.0, "room");
    assert_eq!(id.0, "A");
}

#[test]
fn parse_keeps_slashes_in_the_id() {
    let (kind, id) = parse_server_key("p", "p/servers/room/a/b").unwrap();
    assert_eq!(kind.0, "room");
    assert_eq!(id.0, "a/b");
}

#[test]
fn parse_rejects_foreign_keys() {
    assert!(parse_server_key("pitaya", "other/servers/room/A").is_none());
    assert!(parse_server_key("pitaya", "pitaya/servers/room").is_none());
    assert!(parse_server_key("pitaya", "pitaya/serv").is_none());
}

#[test]
fn parse_accepts_empty_kind_and_id() {
    let (kind, id) = parse_server_key("pitaya", "pitaya/servers//").unwrap();
    assert_eq!(kind.0, "");
    assert_eq!(id.0, "");
}
