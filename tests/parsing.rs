use sig_scan::db::hdb;
use sig_scan::db::hsb;
use sig_scan::db::ParseError;
use sig_scan::text::{lines, parse_u64, split};

#[test]
fn split_keeps_empty_pieces() {
    assert_eq!(split("a::b", ':'), vec!["a".to_string(), String::new(), "b".to_string()]);
    assert_eq!(split("", ':'), vec![String::new()]);
    assert_eq!(split(":", ':'), vec![String::new(), String::new()]);
}

#[test]
fn lines_drop_line_endings() {
    assert_eq!(lines("a\r\nb\nc"), vec!["a".to_string(), "b".to_string(), "c".to_string()]);
    assert_eq!(lines("a\n"), vec!["a".to_string()]);
    assert_eq!(lines(""), Vec::<String>::new());
    assert_eq!(lines("a\n\nb\n"), vec!["a".to_string(), String::new(), "b".to_string()]);
    assert_eq!(lines("a\r"), vec!["a\r".to_string()]);
}

#[test]
fn parse_u64_reads_decimal() {
    assert_eq!(parse_u64("0"), Some(0));
    assert_eq!(parse_u64("+42"), Some(42));
    assert_eq!(parse_u64("18446744073709551615"), Some(u64::MAX));
    assert_eq!(parse_u64("18446744073709551616"), None);
    assert_eq!(parse_u64(""), None);
    assert_eq!(parse_u64("+"), None);
    assert_eq!(parse_u64("-1"), None);
    assert_eq!(parse_u64("12a"), None);
    assert_eq!(parse_u64(" 1"), None);
}

#[test]
fn hdb_entry_parses_three_fields() {
    let e = hdb::Entry::from_str("d41d8cd98f00b204e9800998ecf8427e:0:EMPTY").unwrap();
    assert_eq!(e, hdb::Entry::new("d41d8cd98f00b204e9800998ecf8427e", 0, "EMPTY"));
}

#[test]
fn hdb_entry_errors() {
    assert_eq!(hdb::Entry::from_str("abc:1"), Err(ParseError::FieldCount));
    assert_eq!(hdb::Entry::from_str("abc:1:n:73"), Err(ParseError::FieldCount));
    assert_eq!(hdb::Entry::from_str("abc:x:n"), Err(ParseError::InvalidSize));
    assert_eq!(hdb::Entry::from_str("abc:-1:n"), Err(ParseError::InvalidSize));
    assert_eq!(hdb::Entry::from_str(""), Err(ParseError::FieldCount));
}

#[test]
fn hdb_line_round_trips() {
    for line in ["abc123:4:Trojan.Test", "ff:+7:x", ":0:", "0a:18446744073709551615:Name With Spaces"] {
        let e = hdb::Entry::from_str(line).unwrap();
        let again = hdb::Entry::from_str(&e.to_line()).unwrap();
        assert_eq!(e, again);
    }
    assert_eq!(hdb::Entry::from_str("ff:+7:x").unwrap().to_line(), "ff:7:x");
}

#[test]
fn hsb_entry_sized_and_wildcard() {
    let e = hsb::Entry::from_str("aa:100:Wild:73").unwrap();
    assert_eq!(e, hsb::Entry::new("aa", None, "Wild"));
    let e = hsb::Entry::from_str("aa:junk:Wild:73").unwrap();
    assert_eq!(e.size, None);
    let e = hsb::Entry::from_str("bb:12:Sized").unwrap();
    assert_eq!(e, hsb::Entry::new("bb", Some(12), "Sized"));
}

#[test]
fn hsb_entry_rejects_other_sentinels() {
    assert_eq!(hsb::Entry::from_str("aa:100:Wild:74"), Err(ParseError::InvalidSentinel));
    assert_eq!(hsb::Entry::from_str("aa:100:Wild:"), Err(ParseError::InvalidSentinel));
    assert_eq!(hsb::Entry::from_str("aa:100:Wild:730"), Err(ParseError::InvalidSentinel));
    assert_eq!(hsb::Entry::from_str("aa:100:Wild:73:x"), Err(ParseError::FieldCount));
    assert_eq!(hsb::Entry::from_str("aa:100"), Err(ParseError::FieldCount));
    assert_eq!(hsb::Entry::from_str("aa:x:n"), Err(ParseError::InvalidSize));
}

#[test]
fn table_load_fails_on_first_bad_line() {
    let t = hdb::HDB::from("a:1:A\nb:2:B\n").unwrap();
    assert_eq!(t.entries.len(), 2);
    assert_eq!(t.entries[1], hdb::Entry::new("b", 2, "B"));
    assert_eq!(hdb::HDB::from("a:1:A\nb:x:B\nc\n"), Err(ParseError::InvalidSize));
    assert_eq!(hdb::HDB::from("").unwrap().entries.len(), 0);
    let t = hsb::HSB::from("a:1:A\r\nb:2:B:73").unwrap();
    assert_eq!(t.entries[1], hsb::Entry::new("b", None, "B"));
    assert_eq!(hsb::HSB::from("a:1:A\nb:2:B:7"), Err(ParseError::InvalidSentinel));
}
