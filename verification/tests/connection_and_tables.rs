use stomp::connection::{select_heartbeat, Credentials, OwnedCredentials};
use stomp::keyed::KeyedTable;
use stomp::session::OutstandingReceipt;
use stomp::frame::Frame;

#[test]
fn heartbeat_selection() {
    assert_eq!(select_heartbeat(0, 0, 0, 0), (0, 0));
    assert_eq!(select_heartbeat(5000, 2000, 0, 0), (0, 0));
    assert_eq!(select_heartbeat(0, 0, 1000, 1000), (0, 0));
    assert_eq!(select_heartbeat(5000, 2000, 1000, 1000), (5000, 2000));
    assert_eq!(select_heartbeat(500, 200, 1000, 3000), (3000, 1000));
    assert_eq!(select_heartbeat(u32::MAX, 1, 1, u32::MAX), (u32::MAX, 1));
    assert_eq!(select_heartbeat(5000, 0, 1000, 1000), (5000, 0));
}

#[test]
fn heartbeat_selection_agrees_between_peers() {
    let cases = [(5000u32, 2000u32, 1000u32, 3000u32), (0, 10, 20, 0), (7, 7, 7, 7), (1, 0, 0, 1)];
    for (ctx, crx, stx, srx) in cases {
        let client = select_heartbeat(ctx, crx, stx, srx);
        let server = select_heartbeat(stx, srx, ctx, crx);
        assert_eq!(client.0, server.1);
        assert_eq!(client.1, server.0);
    }
}

#[test]
fn owned_credentials() {
    let c = OwnedCredentials::from(Credentials("admin", "secret"));
    assert_eq!(c.login, "admin");
    assert_eq!(c.passcode, "secret");
    let d = c.clone();
    assert_eq!(d.login, "admin");
    assert_eq!(d.passcode, "secret");
}

#[test]
fn keyed_table_insert_replace_remove() {
    let mut t: KeyedTable<OutstandingReceipt> = KeyedTable::new();
    assert_eq!(t.len(), 0);
    t.insert("r1".to_string(), OutstandingReceipt::new(Frame::unsubscribe("a")));
    t.insert("r2".to_string(), OutstandingReceipt::new(Frame::unsubscribe("b")));
    assert_eq!(t.len(), 2);
    assert!(t.contains_key("r1"));
    assert!(!t.contains_key("r3"));
    let got = t.get("r2").unwrap();
    assert_eq!(got.original_frame.headers.get_value("id"), Some("b".to_string()));
    t.insert("r1".to_string(), OutstandingReceipt::new(Frame::unsubscribe("c")));
    assert_eq!(t.len(), 2);
    assert_eq!(t.get("r1").unwrap().original_frame.headers.get_value("id"), Some("c".to_string()));
    let removed = t.remove("r1").unwrap();
    assert_eq!(removed.original_frame.headers.get_value("id"), Some("c".to_string()));
    assert!(t.remove("r1").is_none());
    assert!(t.get("r1").is_none());
    assert_eq!(t.len(), 1);
}
