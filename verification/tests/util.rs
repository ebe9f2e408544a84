use mcplug::digest::{md5_hex, sha1_hex, sha256_hex, to_hex};
use mcplug::util::path::join;
use mcplug::util::slug::slugify;
use mcplug::util::sort::sort_strings;
use mcplug::util::McVersion;

#[test]
fn slugs() {
    assert_eq!(slugify("My Survival Server!"), "my-survival-server");
    assert_eq!(slugify("  --Lobby  #2--"), "lobby-2");
    assert_eq!(slugify("ÄÖÜ"), "");
    assert_eq!(slugify("abc"), "abc");
}

#[test]
fn versions_parse_and_print_back() {
    for s in ["26.2", "1.21.4", "1.21.5-pre1", "26.3-rc1"] {
        let v = McVersion::parse(s).unwrap();
        assert_eq!(v.to_string(), s);
    }
    assert!(McVersion::parse("1").is_none());
    assert!(McVersion::parse("1.2.3.4").is_none());
    assert!(McVersion::parse("1.21-").is_none());
    assert!(McVersion::parse("a.b").is_none());
    let v = McVersion::parse("1.21.4").unwrap();
    assert_eq!((v.major, v.minor, v.patch), (1, 21, Some(4)));
}

#[test]
fn version_order() {
    let p = |s: &str| McVersion::parse(s).unwrap();
    assert!(p("1.21.4").older_than(&p("1.21.5")));
    assert!(p("1.21").older_than(&p("1.21.1")));
    assert!(p("1.21.5-pre1").older_than(&p("1.21.5")));
    assert!(!p("26.2").older_than(&p("1.21.11")));
    assert!(p("26.3").newer_than(&p("26.2")));
    assert!(p("26.2.1").same_line(&p("26.2")));
    assert!(!p("26.2-rc1").is_release());
}

#[test]
fn path_joins() {
    assert_eq!(join("/srv", "plugins"), "/srv/plugins");
    assert_eq!(join("/srv/", "plugins"), "/srv/plugins");
    assert_eq!(join("/srv", "/abs"), "/abs");
    assert_eq!(join("", "rel"), "rel");
}

#[test]
fn string_sort() {
    let v: Vec<String> = ["b", "a", "B", "ab", "a"].iter().map(|s| s.to_string()).collect();
    assert_eq!(sort_strings(v), vec!["B", "a", "a", "ab", "b"]);
}

#[test]
fn digests() {
    assert_eq!(to_hex(&[0x00, 0x0f, 0xff]), "000fff");
    assert_eq!(sha1_hex(b"abc"), "a9993e364706816aba3e25717850c26c9cd0d89d");
    assert_eq!(sha256_hex(b"abc"), "ba7816bf8f01cfea414140de5dae2223b00361a396177a9cb410ff61f20015ad");
    assert_eq!(md5_hex(b"abc"), "900150983cd24fb0d6963f7d28e17f72");
}
