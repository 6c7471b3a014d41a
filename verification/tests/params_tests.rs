use run_jail::codec::{decode_i32, encode_i32};
use run_jail::params::{
    MarshalError, ParamEntry, ParamValue, ParameterSet, unmarshal,
};

fn set_with_path() -> ParameterSet {
    let mut ps = ParameterSet::new();
    ps.push_text(b"path".to_vec(), b"/".to_vec());
    ps.push_integer(b"vnet".to_vec(), 1);
    ps.push_flag(b"persist".to_vec());
    ps.push_text(b"host.hostname".to_vec(), b"freebsd.org".to_vec());
    ps
}

#[test]
fn encode_one_is_native_endian() {
    let bytes = encode_i32(1);
    assert_eq!(bytes, vec![1u8, 0, 0, 0]);
    assert_eq!(bytes.as_slice(), &1i32.to_ne_bytes());
}

#[test]
fn encode_decode_roundtrip_values() {
    for v in [0i32, 1, -1, 42, 99, i32::MAX, i32::MIN, 0x00636261] {
        let b = encode_i32(v);
        assert_eq!(b.len(), 4);
        assert_eq!(decode_i32(b[0], b[1], b[2], b[3]), v);
    }
}

#[test]
fn encode_minus_one_is_all_ones() {
    assert_eq!(encode_i32(-1), vec![255u8, 255, 255, 255]);
    assert_eq!(encode_i32(-1).as_slice(), &(-1i32).to_ne_bytes());
}

#[test]
fn marshal_layout_two_descriptors_per_entry() {
    let ps = set_with_path();
    let m = ps.marshal().expect("path entry present");
    assert_eq!(m.descs.len(), 8);
    // Key descriptors cover the null-terminated key bytes.
    let d0 = m.descs[0];
    assert_eq!(&m.buf[d0.offset..d0.offset + d0.length], b"path\0");
    // Text values carry a null terminator.
    let d1 = m.descs[1];
    assert_eq!(&m.buf[d1.offset..d1.offset + d1.length], b"/\0");
    // Integer values are exactly 4 bytes, native endian.
    let d3 = m.descs[3];
    assert_eq!(d3.length, 4);
    assert_eq!(&m.buf[d3.offset..d3.offset + d3.length], &1i32.to_ne_bytes());
    // Flag values have a zero-length payload.
    let d5 = m.descs[5];
    assert_eq!(d5.length, 0);
}

#[test]
fn marshal_missing_path_is_rejected() {
    let mut ps = ParameterSet::new();
    ps.push_integer(b"vnet".to_vec(), 1);
    assert_eq!(ps.marshal().unwrap_err(), MarshalError::MissingPath);
}

#[test]
fn marshal_unmarshal_roundtrip() {
    let ps = set_with_path();
    let m = ps.marshal().expect("path entry present");
    let back = unmarshal(&m).expect("well-formed wire data");
    assert_eq!(back, ps);
}

#[test]
fn marshal_unmarshal_roundtrip_flag_only_values() {
    let mut ps = ParameterSet::new();
    ps.push_text(b"path".to_vec(), b"/tmp/jails/freebsd/rootfs".to_vec());
    ps.push_flag(b"allow.mount.procfs".to_vec());
    ps.push_flag(b"allow.mount.devfs".to_vec());
    let m = ps.marshal().unwrap();
    let back = unmarshal(&m).unwrap();
    assert_eq!(back, ps);
}

#[test]
fn ambiguous_integer_payload_reads_back_as_text() {
    // The wire form of this integer is byte-for-byte the wire form of the
    // three-byte text "abc": decoding prefers the text reading, so such
    // integers are the one exclusion from the round-trip guarantee.
    let mut ps = ParameterSet::new();
    ps.push_text(b"path".to_vec(), b"/".to_vec());
    ps.push_integer(b"x".to_vec(), 0x00636261);
    let m = ps.marshal().unwrap();
    let back = unmarshal(&m).unwrap();
    assert_eq!(back.entries[1].value, ParamValue::Text(b"abc".to_vec()));
}

#[test]
fn unmarshal_rejects_odd_descriptor_count() {
    let ps = set_with_path();
    let mut m = ps.marshal().unwrap();
    m.descs.pop();
    assert!(unmarshal(&m).is_none());
}

#[test]
fn unmarshal_rejects_out_of_bounds_descriptor() {
    let ps = set_with_path();
    let mut m = ps.marshal().unwrap();
    m.descs[0].length = m.buf.len() + 1;
    assert!(unmarshal(&m).is_none());
}

#[test]
fn entries_keep_order_and_tags() {
    let ps = set_with_path();
    assert_eq!(ps.len(), 4);
    assert_eq!(ps.entries[0].key, b"path".to_vec());
    assert_eq!(
        ps.entries[1],
        ParamEntry { key: b"vnet".to_vec(), value: ParamValue::Integer(1) }
    );
    assert_eq!(ps.entries[2].value, ParamValue::Flag);
}

#[test]
fn contains_path_reports_presence() {
    let ps = set_with_path();
    assert!(ps.contains_path());
    let mut no_path = ParameterSet::new();
    no_path.push_flag(b"persist".to_vec());
    assert!(!no_path.contains_path());
}
