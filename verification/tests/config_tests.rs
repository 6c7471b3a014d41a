use run_jail::config::parse_config;
use run_jail::params::{ParamValue, ParameterSet};

fn parse_str(s: &str) -> ParameterSet {
    parse_config(&s.as_bytes().to_vec())
}

fn entry(ps: &ParameterSet, i: usize) -> (&[u8], &ParamValue) {
    (&ps.entries[i].key, &ps.entries[i].value)
}

#[test]
fn happy_path_parses_and_drops_trailer() {
    let ps = parse_str("myjail extra\nkey1 = 42;\nkey2 = hello\nflagkey\n");
    assert_eq!(ps.len(), 3);
    assert_eq!(entry(&ps, 0), (b"name".as_slice(), &ParamValue::Text(b"myjail".to_vec())));
    assert_eq!(entry(&ps, 1), (b"key1".as_slice(), &ParamValue::Integer(42)));
    assert_eq!(entry(&ps, 2), (b"key2".as_slice(), &ParamValue::Text(b"hello".to_vec())));
}

#[test]
fn comments_and_blank_lines_are_skipped() {
    let plain = parse_str("myjail\nkey1 = 42\nkey2 = hello\ntrailer\n");
    let noisy = parse_str(
        "# leading comment\n\nmyjail\n\n# between\nkey1 = 42\n   # indented comment\nkey2 = hello\n\ntrailer\n# trailing\n",
    );
    assert_eq!(noisy, plain);
}

#[test]
fn name_line_discards_after_first_space() {
    let ps = parse_str("box one two three\ntrailer\n");
    assert_eq!(ps.len(), 1);
    assert_eq!(entry(&ps, 0), (b"name".as_slice(), &ParamValue::Text(b"box".to_vec())));
}

#[test]
fn only_name_line_yields_no_entries() {
    let ps = parse_str("lonely\n");
    assert_eq!(ps.len(), 0);
}

#[test]
fn empty_input_yields_no_entries() {
    let ps = parse_str("");
    assert_eq!(ps.len(), 0);
}

#[test]
fn bare_key_becomes_flag() {
    let ps = parse_str("box\npersist\ntrailer\n");
    assert_eq!(ps.len(), 2);
    assert_eq!(entry(&ps, 1), (b"persist".as_slice(), &ParamValue::Flag));
}

#[test]
fn empty_value_becomes_flag() {
    let ps = parse_str("box\nvnet =\nempty2 = ;\ntrailer\n");
    assert_eq!(ps.len(), 3);
    assert_eq!(entry(&ps, 1), (b"vnet".as_slice(), &ParamValue::Flag));
    assert_eq!(entry(&ps, 2), (b"empty2".as_slice(), &ParamValue::Flag));
}

#[test]
fn trailing_semicolon_is_trimmed_once() {
    let ps = parse_str("box\na = 7;\nb = text;;\ntrailer\n");
    assert_eq!(entry(&ps, 1), (b"a".as_slice(), &ParamValue::Integer(7)));
    // only one semicolon is dropped; the rest stays text
    assert_eq!(entry(&ps, 2), (b"b".as_slice(), &ParamValue::Text(b"text;".to_vec())));
}

#[test]
fn whitespace_is_trimmed_around_key_and_value() {
    let ps = parse_str("box\n  spaced key  =   padded value  \ntrailer\n");
    assert_eq!(
        entry(&ps, 1),
        (b"spaced key".as_slice(), &ParamValue::Text(b"padded value".to_vec()))
    );
}

#[test]
fn integer_bounds_are_respected() {
    let ps = parse_str(
        "box\nmax = 2147483647\nmin = -2147483648\ntoo_big = 2147483648\nway_big = 99999999999999999999\nneg = -7;\ntrailer\n",
    );
    assert_eq!(entry(&ps, 1), (b"max".as_slice(), &ParamValue::Integer(i32::MAX)));
    assert_eq!(entry(&ps, 2), (b"min".as_slice(), &ParamValue::Integer(i32::MIN)));
    assert_eq!(
        entry(&ps, 3),
        (b"too_big".as_slice(), &ParamValue::Text(b"2147483648".to_vec()))
    );
    assert_eq!(
        entry(&ps, 4),
        (b"way_big".as_slice(), &ParamValue::Text(b"99999999999999999999".to_vec()))
    );
    assert_eq!(entry(&ps, 5), (b"neg".as_slice(), &ParamValue::Integer(-7)));
}

#[test]
fn sign_only_or_mixed_literal_stays_text() {
    let ps = parse_str("box\na = -\nb = 12x\nc = +5\ntrailer\n");
    assert_eq!(entry(&ps, 1), (b"a".as_slice(), &ParamValue::Text(b"-".to_vec())));
    assert_eq!(entry(&ps, 2), (b"b".as_slice(), &ParamValue::Text(b"12x".to_vec())));
    assert_eq!(entry(&ps, 3), (b"c".as_slice(), &ParamValue::Integer(5)));
}

#[test]
fn split_at_first_equals_sign() {
    let ps = parse_str("box\nkey = a = b\ntrailer\n");
    assert_eq!(entry(&ps, 1), (b"key".as_slice(), &ParamValue::Text(b"a = b".to_vec())));
}

#[test]
fn input_without_trailing_newline_still_drops_last_entry() {
    let ps = parse_str("box\nkey1 = 42\nkey2 = hello");
    assert_eq!(ps.len(), 2);
    assert_eq!(entry(&ps, 1), (b"key1".as_slice(), &ParamValue::Integer(42)));
}

#[test]
fn crlf_line_endings_are_handled() {
    let ps = parse_str("box\r\nkey1 = 42\r\ntrailer\r\n");
    assert_eq!(ps.len(), 2);
    assert_eq!(entry(&ps, 1), (b"key1".as_slice(), &ParamValue::Integer(42)));
}
