use kestrelc::web::{compile_reply, decode_source, make_result};

#[test]
fn success_header_layout() {
    let h = make_result(true, 5, 0x0102_0304);
    assert_eq!(h, vec![1, 5, 0, 0, 0, 0x04, 0x03, 0x02, 0x01]);
}

#[test]
fn failure_header_layout() {
    let h = make_result(false, 0x1234, 8);
    assert_eq!(h, vec![0, 0x34, 0x12, 0, 0, 8, 0, 0, 0]);
}

#[test]
fn header_fields_read_back() {
    let h = make_result(true, 70000, 123456789);
    assert_eq!(h.len(), 9);
    assert_eq!(u32::from_le_bytes([h[1], h[2], h[3], h[4]]), 70000);
    assert_eq!(u32::from_le_bytes([h[5], h[6], h[7], h[8]]), 123456789);
}

#[test]
fn valid_utf8_source_decodes() {
    assert_eq!(decode_source("fn main() { print(1); }".as_bytes()), Some("fn main() { print(1); }".to_string()));
    assert_eq!(decode_source("héllo".as_bytes()), Some("héllo".to_string()));
    assert_eq!(decode_source(b""), Some(String::new()));
}

#[test]
fn invalid_utf8_source_is_rejected() {
    assert_eq!(decode_source(&[0x66, 0xff, 0x6e]), None);
    assert_eq!(decode_source(&[0xc3]), None);
}

#[test]
fn reply_payloads() {
    assert_eq!(compile_reply(None), (false, b"kestrelc: source is not valid UTF-8".to_vec()));
    assert_eq!(compile_reply(Some(Ok(vec![0, 0x61, 0x73, 0x6d]))), (true, vec![0, 0x61, 0x73, 0x6d]));
    assert_eq!(compile_reply(Some(Err("kestrelc: boom".to_string()))), (false, b"kestrelc: boom".to_vec()));
}
