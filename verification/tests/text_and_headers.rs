use stomp::connection::HeartBeat;
use stomp::header::{parse_heart_beat_value, Header, HeaderList};
use stomp::text::{decimal_string, parse_u32_chars, push_decimal};

fn list(pairs: &[(&str, &str)]) -> HeaderList {
    let mut l = HeaderList::new();
    for (k, v) in pairs {
        l.push(Header::new(k, v));
    }
    l
}

fn keys(l: &HeaderList) -> Vec<String> {
    l.headers.iter().map(|h| h.get_key().to_string()).collect()
}

#[test]
fn decimal_numerals() {
    assert_eq!(decimal_string(0), "0");
    assert_eq!(decimal_string(7), "7");
    assert_eq!(decimal_string(10), "10");
    assert_eq!(decimal_string(5000), "5000");
    assert_eq!(decimal_string(u64::MAX), "18446744073709551615");
    let mut s = String::from("message/");
    push_decimal(&mut s, 42);
    assert_eq!(s, "message/42");
}

#[test]
fn parse_u32_runs() {
    assert_eq!(parse_u32_chars("0", 0, 1), Some(0));
    assert_eq!(parse_u32_chars("x123y", 1, 4), Some(123));
    assert_eq!(parse_u32_chars("4294967295", 0, 10), Some(u32::MAX));
    assert_eq!(parse_u32_chars("4294967296", 0, 10), None);
    assert_eq!(parse_u32_chars("99999999999999999999", 0, 20), None);
    assert_eq!(parse_u32_chars("12a", 0, 3), None);
    assert_eq!(parse_u32_chars("", 0, 0), None);
    assert_eq!(parse_u32_chars("-1", 0, 2), None);
}

#[test]
fn heart_beat_values() {
    assert_eq!(parse_heart_beat_value("5000,2000"), Some(HeartBeat(5000, 2000)));
    assert_eq!(parse_heart_beat_value("0,0"), Some(HeartBeat(0, 0)));
    assert_eq!(parse_heart_beat_value("4294967295,1"), Some(HeartBeat(u32::MAX, 1)));
    assert_eq!(parse_heart_beat_value("1,2,3"), None);
    assert_eq!(parse_heart_beat_value("1"), None);
    assert_eq!(parse_heart_beat_value(",1"), None);
    assert_eq!(parse_heart_beat_value("1,"), None);
    assert_eq!(parse_heart_beat_value(" 1,2"), None);
    assert_eq!(parse_heart_beat_value("4294967296,0"), None);
    assert_eq!(parse_heart_beat_value(""), None);
}

#[test]
fn heart_beat_written_is_read_back() {
    for (tx, rx) in [(0u32, 0u32), (5000, 2000), (u32::MAX, 7), (10, u32::MAX)] {
        let text = format!("{},{}", decimal_string(tx as u64), decimal_string(rx as u64));
        assert_eq!(parse_heart_beat_value(&text), Some(HeartBeat(tx, rx)));
    }
}

#[test]
fn header_accessors() {
    let h = Header::new("destination", "/queue/a");
    assert_eq!(h.get_key(), "destination");
    assert_eq!(h.get_value(), "/queue/a");
    let c = h.clone();
    assert_eq!(c.get_key(), "destination");
    assert_eq!(c.get_value(), "/queue/a");
}

#[test]
fn lookup_finds_first_header_of_key() {
    let l = list(&[("ack", "m-1"), ("subscription", "stomp-rs/0"), ("ack", "m-2")]);
    assert_eq!(l.len(), 3);
    assert_eq!(l.get_value("ack"), Some("m-1".to_string()));
    assert_eq!(l.get_ack(), Some("m-1".to_string()));
    assert_eq!(l.get_subscription(), Some("stomp-rs/0".to_string()));
    assert_eq!(l.get_receipt_id(), None);
    assert_eq!(l.get_destination(), None);
    assert_eq!(l.get_value("missing"), None);
}

#[test]
fn typed_lookups() {
    let l = list(&[("receipt-id", "message/3"), ("destination", "/topic/t"), ("heart-beat", "10,20")]);
    assert_eq!(l.get_receipt_id(), Some("message/3".to_string()));
    assert_eq!(l.get_destination(), Some("/topic/t".to_string()));
    assert_eq!(l.get_heart_beat(), Some(HeartBeat(10, 20)));
    let bad = list(&[("heart-beat", "ten,twenty")]);
    assert_eq!(bad.get_heart_beat(), None);
    assert_eq!(HeaderList::new().get_heart_beat(), None);
}

#[test]
fn remove_key_keeps_other_headers_in_order() {
    let mut l = list(&[("a", "1"), ("content-length", "0"), ("b", "2"), ("content-length", "5")]);
    l.remove_key("content-length");
    assert_eq!(keys(&l), vec!["a", "b"]);
    assert_eq!(l.get_value("content-length"), None);
    l.remove_key("absent");
    assert_eq!(keys(&l), vec!["a", "b"]);
}

#[test]
fn push_then_lookup() {
    let mut l = list(&[("a", "1")]);
    l.push(Header::new("b", "2"));
    assert_eq!(l.get_value("b"), Some("2".to_string()));
    l.push(Header::new("a", "3"));
    assert_eq!(l.get_value("a"), Some("1".to_string()));
}

#[test]
fn concat_moves_all_headers() {
    let mut a = list(&[("a", "1")]);
    let mut b = list(&[("b", "2"), ("c", "3")]);
    a.concat(&mut b);
    assert_eq!(keys(&a), vec!["a", "b", "c"]);
    assert_eq!(b.len(), 0);
    let copy = a.clone();
    assert_eq!(keys(&copy), vec!["a", "b", "c"]);
}
