use qmaur::inventory::{exit_code, make_map, parse_inventory, read_inventory, Fatal, Package};
use qmaur::text::{chars_of, is_space, split_lines, split_tokens};

fn pkg(name: &str, version: &str) -> Package {
    Package { name: name.to_string(), version: version.to_string() }
}

fn pairs(ps: &[Package]) -> Vec<(String, String)> {
    ps.iter().map(|p| (p.name.clone(), p.version.clone())).collect()
}

fn words(v: &[Vec<char>]) -> Vec<String> {
    v.iter().map(|w| w.iter().collect()).collect()
}

#[test]
fn malformed_lines_are_skipped() {
    let inv = read_inventory(true, b"a 1\nbroken\n\nb 2\n".to_vec()).unwrap();
    assert_eq!(
        pairs(&inv.packages),
        vec![("a".to_string(), "1".to_string()), ("b".to_string(), "2".to_string())]
    );
    assert_eq!(inv.skipped, vec!["broken".to_string(), "".to_string()]);
}

#[test]
fn line_with_three_tokens_is_skipped() {
    let inv = parse_inventory("a 1 extra\nb 2");
    assert_eq!(pairs(&inv.packages), vec![("b".to_string(), "2".to_string())]);
    assert_eq!(inv.skipped, vec!["a 1 extra".to_string()]);
}

#[test]
fn failed_listing_is_fatal_with_status_one() {
    let r = read_inventory(false, b"a 1\nb 2\n".to_vec());
    assert_eq!(r.err(), Some(Fatal::ListingFailed));
    assert_eq!(exit_code(Some(Fatal::ListingFailed)), 1);
}

#[test]
fn non_utf8_listing_is_fatal() {
    let r = read_inventory(true, vec![b'a', b' ', 0xff, b'\n']);
    assert_eq!(r.err(), Some(Fatal::NotText));
    assert_eq!(exit_code(Some(Fatal::NotText)), 1);
}

#[test]
fn exit_code_zero_without_error() {
    assert_eq!(exit_code(None), 0);
    assert_eq!(exit_code(Some(Fatal::LookupFailed)), 1);
}

#[test]
fn empty_listing_is_empty_inventory() {
    let inv = read_inventory(true, Vec::new()).unwrap();
    assert!(inv.packages.is_empty());
    assert!(inv.skipped.is_empty());
}

#[test]
fn crlf_and_tabs_and_wide_spaces() {
    let inv = parse_inventory("a\t1\r\nb\u{3000}2\r\n  c   3  ");
    assert_eq!(
        pairs(&inv.packages),
        vec![
            ("a".to_string(), "1".to_string()),
            ("b".to_string(), "2".to_string()),
            ("c".to_string(), "3".to_string())
        ]
    );
    assert!(inv.skipped.is_empty());
}

#[test]
fn make_map_keeps_last_version() {
    let m = make_map(vec![pkg("a", "1"), pkg("b", "2"), pkg("a", "3")]);
    let mut got = pairs(&m);
    got.sort();
    assert_eq!(got, vec![("a".to_string(), "3".to_string()), ("b".to_string(), "2".to_string())]);
}

#[test]
fn make_map_of_nothing() {
    assert!(make_map(Vec::new()).is_empty());
}

#[test]
fn text_lines_and_tokens() {
    let cs = chars_of("x y\r\n\nz");
    assert_eq!(words(&split_lines(&cs)), vec!["x y".to_string(), "".to_string(), "z".to_string()]);
    let cs = chars_of("  ab \t cd ");
    assert_eq!(words(&split_tokens(&cs)), vec!["ab".to_string(), "cd".to_string()]);
    assert!(split_tokens(&chars_of("   ")).is_empty());
}

#[test]
fn white_space_chars() {
    assert!(is_space(' '));
    assert!(is_space('\n'));
    assert!(is_space('\u{a0}'));
    assert!(is_space('\u{3000}'));
    assert!(!is_space('a'));
    assert!(!is_space('\u{200b}'));
    for c in ['\t', '\r', '\u{85}', '\u{2028}', 'x', '-', '\u{180e}'] {
        assert_eq!(is_space(c), c.is_whitespace());
    }
}
