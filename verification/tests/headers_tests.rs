use moesif_extproc::headers::{header_list_to_map, HeaderEntry, HeaderMap};
use moesif_extproc::strutil::{ascii_lowercase, parse_usize, split_str, str_eq_ignore_case, trim_str};

fn entry(key: &str, value: &str) -> HeaderEntry {
    HeaderEntry { key: key.to_string(), value: value.to_string(), raw_value: Vec::new() }
}

#[test]
fn normalized_keys_are_lowercase_and_not_pseudo() {
    let entries = vec![
        entry(":Method", "GET"),
        entry("Content-TYPE", "text/plain"),
        entry("X-Api-Version", "1.0"),
        entry("ALL-CAPS-NAME", "v"),
    ];
    let map = header_list_to_map(&entries);
    for (k, _) in map.entries.iter() {
        assert_eq!(k.to_lowercase(), *k);
    }
    let mut map = map;
    map.remove_pseudo();
    for (k, _) in map.entries.iter() {
        assert!(!k.starts_with(':'));
        assert_eq!(k.to_lowercase(), *k);
    }
    assert!(map.get("content-type").is_some());
    assert!(map.get(":method").is_none());
}

#[test]
fn duplicate_header_lines_join_in_encounter_order() {
    let entries = vec![entry("X-Dup", "a"), entry("x-dup", "b"), entry("X-DUP", "c")];
    let map = header_list_to_map(&entries);
    assert_eq!(map.get("x-dup"), Some("a, b, c".to_string()));
    assert_eq!(map.entries.len(), 1);
}

#[test]
fn raw_value_is_used_when_value_is_empty() {
    let raw = HeaderEntry {
        key: "X-Raw".to_string(),
        value: String::new(),
        raw_value: b"rawbytes".to_vec(),
    };
    let map = header_list_to_map(&vec![raw]);
    assert_eq!(map.get("x-raw"), Some("rawbytes".to_string()));
}

#[test]
fn raw_value_with_invalid_utf8_is_decoded_lossily() {
    let raw = HeaderEntry {
        key: "X-Bin".to_string(),
        value: String::new(),
        raw_value: vec![b'a', 0xFF, b'b'],
    };
    let map = header_list_to_map(&vec![raw]);
    let got = map.get("x-bin").unwrap();
    assert_eq!(got, "a\u{FFFD}b".to_string());
}

#[test]
fn insert_join_appends_new_keys_in_order() {
    let mut map = HeaderMap::empty();
    map.insert_join("alpha".to_string(), "1".to_string());
    map.insert_join("beta".to_string(), "2".to_string());
    assert_eq!(map.entries[0].0, "alpha");
    assert_eq!(map.entries[1].0, "beta");
}

#[test]
fn ascii_lowercase_folds_only_ascii_letters() {
    assert_eq!(ascii_lowercase("MiXeD-123"), "mixed-123".to_string());
    assert_eq!(ascii_lowercase(""), "".to_string());
}

#[test]
fn str_eq_ignore_case_matches_etag_names() {
    assert!(str_eq_ignore_case("X-Moesif-Config-Etag", "x-moesif-config-etag"));
    assert!(!str_eq_ignore_case("X-Moesif-Config-Etag", "x-moesif-rules-etag"));
}

#[test]
fn split_and_trim_behave_like_plain_splitting() {
    let parts = split_str("a, b ,c", ',');
    assert_eq!(parts, vec!["a".to_string(), " b ".to_string(), "c".to_string()]);
    assert_eq!(trim_str(" b \t"), "b".to_string());
    let empty = split_str("", ',');
    assert_eq!(empty, vec!["".to_string()]);
}

#[test]
fn parse_usize_accepts_digits_and_rejects_junk() {
    assert_eq!(parse_usize("200"), Some(200));
    assert_eq!(parse_usize("+007"), Some(7));
    assert_eq!(parse_usize(""), None);
    assert_eq!(parse_usize("20x"), None);
    assert_eq!(parse_usize("99999999999999999999999999"), None);
}
