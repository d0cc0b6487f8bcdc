use sig_scan::db::hdb::HDB;
use sig_scan::db::hsb::HSB;
use sig_scan::db::{get_db_type, DBType, ParseError, DB};
use sig_scan::digest::Digests;
use sig_scan::scan::{Scan, ScanResult, Summary};

fn invalid(path: &str, names: &[&str]) -> ScanResult {
    ScanResult::Invalid { path: path.to_string(), name: names.iter().map(|n| n.to_string()).collect() }
}

#[test]
fn digests_of_known_inputs() {
    let d = Digests::compute(b"abc");
    assert_eq!(d.md5, "900150983cd24fb0d6963f7d28e17f72");
    assert_eq!(d.sha1, "a9993e364706816aba3e25717850c26c9cd0d89d");
    assert_eq!(d.sha256, "ba7816bf8f01cfea414140de5dae2223b00361a396177a9cb410ff61f20015ad");
    assert_eq!(Digests::compute(b"test").md5, "098f6bcd4621d373cade4e832627b4f6");
}

#[test]
fn lookup_skips_entries_whose_hash_differs() {
    let t = HDB::from("h1:10:X\nh2:10:X").unwrap();
    let d = Digests { md5: "h2".to_string(), sha1: String::new(), sha256: String::new() };
    assert_eq!(t.find(&d, 10), Some("X".to_string()));
    assert_eq!(t.find(&d, 11), None);
}

#[test]
fn lookup_first_match_wins() {
    let t = HDB::from("h1:10:A\nh1:10:B").unwrap();
    let d = Digests { md5: "h1".to_string(), sha1: String::new(), sha256: String::new() };
    assert_eq!(t.find(&d, 10), Some("A".to_string()));
    let t = HSB::from("s2:5:Sized\ns2:1:Any:73\ns1:9:First").unwrap();
    let d = Digests { md5: String::new(), sha1: "s1".to_string(), sha256: "s2".to_string() };
    assert_eq!(t.find(&d, 9), Some("Any".to_string()));
    assert_eq!(t.find(&d, 5), Some("Sized".to_string()));
}

#[test]
fn accumulate_appends_or_starts() {
    let r = ScanResult::Clean("f".to_string()).accumulate(Some("Foo".to_string()));
    assert_eq!(r, invalid("f", &["Foo"]));
    let r = r.accumulate(Some("Bar".to_string()));
    assert_eq!(r, invalid("f", &["Foo", "Bar"]));
    let r = r.accumulate(None);
    assert_eq!(r, invalid("f", &["Foo", "Bar"]));
    assert_eq!(ScanResult::Clean("f".to_string()).accumulate(None), ScanResult::Clean("f".to_string()));
}

#[test]
fn empty_file_is_never_matched() {
    let mut db = DB::new();
    db.load(DBType::HDB, "d41d8cd98f00b204e9800998ecf8427e:0:EMPTY").unwrap();
    let r = db.scan("empty", Some(&[]));
    assert_eq!(r, ScanResult::Empty("empty".to_string()));
    assert_eq!(db.summary.scanned_files, 1);
    assert_eq!(db.summary.infected, 0);
}

#[test]
fn both_tables_accumulate_in_order() {
    let d = Digests::compute(b"payload");
    let mut db = DB::new();
    db.load(DBType::HDB, &format!("{}:7:Foo", d.md5)).unwrap();
    db.load(DBType::HSB, &format!("{}:7:Bar", d.sha256)).unwrap();
    let r = db.scan("p", Some(b"payload"));
    assert_eq!(r, invalid("p", &["Foo", "Bar"]));
    assert_eq!(db.summary.infected, 1);
    assert_eq!(db.summary.data_scanned, 7);
}

#[test]
fn later_miss_keeps_earlier_match() {
    let d = Digests::compute(b"payload");
    let mut db = DB::new();
    db.load(DBType::HDB, &format!("{}:7:Foo", d.md5)).unwrap();
    db.load(DBType::HSB, "00:7:Other").unwrap();
    assert_eq!(db.scan("p", Some(b"payload")), invalid("p", &["Foo"]));
}

#[test]
fn scanning_twice_gives_the_same_result() {
    let mut db = DB::new();
    db.load(DBType::HDB, "098f6bcd4621d373cade4e832627b4f6:4:Trojan.Test").unwrap();
    let first = db.scan("t", Some(b"test"));
    let second = db.scan("t", Some(b"test"));
    assert_eq!(first, second);
    assert_eq!(db.summary.scanned_files, 2);
}

#[test]
fn md5_table_end_to_end() {
    let mut db = DB::new();
    db.load(DBType::HDB, "098f6bcd4621d373cade4e832627b4f6:4:Trojan.Test").unwrap();
    assert_eq!(db.summary.known, 1);
    assert_eq!(db.scan("a", Some(b"test")), invalid("a", &["Trojan.Test"]));
    assert_eq!(db.scan("b", Some(b"TEST")), ScanResult::Clean("b".to_string()));
}

#[test]
fn wildcard_size_end_to_end() {
    let d = Digests::compute(b"x");
    let mut db = DB::new();
    db.load(DBType::HSB, &format!("{}:100:Wild:73", d.sha1)).unwrap();
    assert_eq!(db.scan("x", Some(b"x")), invalid("x", &["Wild"]));
    let mut db = DB::new();
    db.load(DBType::HSB, &format!("{}:100:Sized", d.sha1)).unwrap();
    assert_eq!(db.scan("x", Some(b"x")), ScanResult::Clean("x".to_string()));
}

#[test]
fn unreadable_file_counts_nowhere() {
    let mut db = DB::new();
    let before = db.summary;
    let r = db.scan("locked", None);
    assert_eq!(
        r,
        ScanResult::Error { path: "locked".to_string(), desc: "unable to read file".to_string() }
    );
    assert_eq!(db.summary, before);
}

#[test]
fn load_replaces_table_of_same_format() {
    let mut db = DB::new();
    db.load(DBType::HDB, "a:1:A\nb:2:B").unwrap();
    db.load(DBType::HDB, "c:3:C").unwrap();
    assert_eq!(db.hdb.as_ref().unwrap().entries.len(), 1);
    assert_eq!(db.summary.known, 3);
    assert_eq!(db.load(DBType::HDB, "bad"), Err(ParseError::FieldCount));
    assert_eq!(db.hdb.as_ref().unwrap().entries.len(), 1);
    assert_eq!(db.summary.known, 3);
    assert!(db.hsb.is_none());
}

#[test]
fn db_type_from_extension() {
    assert_eq!(get_db_type("hdb"), Some(DBType::HDB));
    assert_eq!(get_db_type("hsb"), Some(DBType::HSB));
    assert_eq!(get_db_type("HDB"), None);
    assert_eq!(get_db_type(""), None);
}

#[test]
fn report_lines() {
    assert_eq!(ScanResult::Clean("/a".to_string()).to_string(), "/a: OK");
    assert_eq!(ScanResult::Empty("/a".to_string()).to_string(), "/a: Empty file");
    assert_eq!(invalid("/a", &["Foo"]).to_string(), "/a: Invalid: Foo FOUND(1/2)");
    assert_eq!(invalid("/a", &["Foo", "Bar"]).to_string(), "/a: Invalid: Foo, Bar FOUND(2/2)");
    assert_eq!(
        ScanResult::Error { path: "/a".to_string(), desc: "unable to read file".to_string() }.to_string(),
        "/a: Error: unable to read file"
    );
}

#[test]
fn summary_counts_and_time() {
    let mut s = Summary::new();
    s.update(&ScanResult::Clean("a".to_string()), 10);
    s.update(&invalid("b", &["X"]), 5);
    s.update(&ScanResult::Empty("c".to_string()), 0);
    s.update(&ScanResult::Error { path: "d".to_string(), desc: String::new() }, 0);
    assert_eq!((s.scanned_files, s.infected, s.data_scanned), (3, 1, 15));
    s.time = 59;
    assert_eq!(s.display_time(), "59 seconds");
    s.time = 61;
    assert_eq!(s.display_time(), "61 sec (1 m 1 s)");
    s.time = 3661;
    assert_eq!(s.display_time(), "3661 sec (1 h 1 m 1 s)");
    s.time = 90061;
    assert_eq!(s.display_time(), "90061 sec (1 d 1 h 1 m 1 s)");
    s.end();
    assert!(s.end_date >= s.start_date || s.time == 0);
}
