use gibberish::envelope::{envelope_from_entries, has_envelope_shape, pack_envelope, unpack_envelope, Entry, Value};
use gibberish::frame::{decode_frame, encode_frame, HEADER_LEN, NONCE_LEN, SALT_LEN};
use gibberish::name::{join_name, split_name};
use gibberish::pipeline::GibberishError;
use gibberish::sealing::{KEY_LEN, TAG_LEN};
use sodiumoxide::crypto::{pwhash, secretbox};

fn text(s: &str) -> Value {
    Value::Text(s.to_string())
}

fn entry(k: &str, v: Value) -> Entry {
    Entry { key: Some(k.to_string()), value: v }
}

#[test]
fn widths_match_libsodium() {
    assert_eq!(SALT_LEN, pwhash::SALTBYTES);
    assert_eq!(NONCE_LEN, secretbox::NONCEBYTES);
    assert_eq!(KEY_LEN, secretbox::KEYBYTES);
    assert_eq!(TAG_LEN, secretbox::MACBYTES);
    assert_eq!(HEADER_LEN, SALT_LEN + NONCE_LEN);
}

#[test]
fn split_on_last_dot() {
    let (b, e) = split_name("report.pdf");
    assert_eq!((b.as_str(), e.as_str()), ("report", "pdf"));
    let (b, e) = split_name("archive.tar.gz");
    assert_eq!((b.as_str(), e.as_str()), ("archive.tar", "gz"));
    let (b, e) = split_name("dir.d/file");
    assert_eq!((b.as_str(), e.as_str()), ("dir", "d/file"));
}

#[test]
fn split_without_dot() {
    let (b, e) = split_name("README");
    assert_eq!((b.as_str(), e.as_str()), ("README", ""));
    let (b, e) = split_name("");
    assert_eq!((b.as_str(), e.as_str()), ("", ""));
}

#[test]
fn split_trailing_and_leading_dot() {
    let (b, e) = split_name("name.");
    assert_eq!((b.as_str(), e.as_str()), ("name", ""));
    let (b, e) = split_name(".bashrc");
    assert_eq!((b.as_str(), e.as_str()), ("", "bashrc"));
}

#[test]
fn join_adds_dot() {
    assert_eq!(join_name("report", "gibberish"), "report.gibberish");
    assert_eq!(join_name("report", ""), "report.");
}

#[test]
fn frame_layout_is_concatenation() {
    let salt = vec![1u8; SALT_LEN];
    let nonce = vec![2u8; NONCE_LEN];
    let ct = vec![3u8, 4, 5];
    let f = encode_frame(&salt, &nonce, &ct);
    assert_eq!(f.len(), SALT_LEN + NONCE_LEN + 3);
    assert_eq!(&f[..SALT_LEN], &salt[..]);
    assert_eq!(&f[SALT_LEN..HEADER_LEN], &nonce[..]);
    assert_eq!(&f[HEADER_LEN..], &ct[..]);
    let parts = decode_frame(&f).ok().unwrap();
    assert_eq!(parts.salt, salt);
    assert_eq!(parts.nonce, nonce);
    assert_eq!(parts.ciphertext, ct);
}

#[test]
fn frame_header_only_has_empty_ciphertext() {
    let bytes: Vec<u8> = (0..HEADER_LEN as u8).collect();
    let parts = decode_frame(&bytes).ok().unwrap();
    assert_eq!(parts.salt, (0..32u8).collect::<Vec<u8>>());
    assert_eq!(parts.nonce, (32..56u8).collect::<Vec<u8>>());
    assert!(parts.ciphertext.is_empty());
}

#[test]
fn short_frames_are_malformed() {
    for n in 0..HEADER_LEN {
        let bytes = vec![7u8; n];
        assert!(matches!(decode_frame(&bytes), Err(GibberishError::MalformedFrame)));
    }
}

#[test]
fn envelope_bytes_are_messagepack_map() {
    let packed = pack_envelope("pdf", vec![1, 2]);
    let mut expected = vec![0x82, 0xa9];
    expected.extend_from_slice(b"extension");
    expected.push(0xa3);
    expected.extend_from_slice(b"pdf");
    expected.push(0xa4);
    expected.extend_from_slice(b"file");
    expected.extend_from_slice(&[0xc4, 0x02, 1, 2]);
    assert_eq!(packed, expected);
}

#[test]
fn envelope_round_trip() {
    let packed = pack_envelope("tar", vec![9, 8, 7, 0, 255]);
    let env = unpack_envelope(&packed).ok().unwrap();
    assert_eq!(env.extension, "tar");
    assert_eq!(env.content, vec![9, 8, 7, 0, 255]);
    let packed = pack_envelope("", vec![]);
    let env = unpack_envelope(&packed).ok().unwrap();
    assert_eq!(env.extension, "");
    assert!(env.content.is_empty());
}

#[test]
fn envelope_entries_in_either_order() {
    let env = envelope_from_entries(vec![entry("file", Value::Bytes(vec![5])), entry("extension", text("txt"))])
        .ok()
        .unwrap();
    assert_eq!(env.extension, "txt");
    assert_eq!(env.content, vec![5]);
}

#[test]
fn envelope_ignores_unknown_keys() {
    let env = envelope_from_entries(vec![
        entry("version", Value::Other),
        entry("extension", text("md")),
        entry("note", text("hello")),
        entry("file", Value::Bytes(vec![1])),
    ])
    .ok()
    .unwrap();
    assert_eq!(env.extension, "md");
    assert_eq!(env.content, vec![1]);
}

#[test]
fn envelope_later_entry_wins() {
    let env = envelope_from_entries(vec![
        entry("extension", text("a")),
        entry("file", Value::Bytes(vec![1])),
        entry("extension", text("b")),
    ])
    .ok()
    .unwrap();
    assert_eq!(env.extension, "b");
}

#[test]
fn envelope_schema_errors() {
    let r = envelope_from_entries(vec![entry("file", Value::Bytes(vec![1]))]);
    assert!(matches!(r, Err(GibberishError::ExtensionMissing)));
    let r = envelope_from_entries(vec![entry("extension", text("x"))]);
    assert!(matches!(r, Err(GibberishError::FileMissing)));
    let r = envelope_from_entries(vec![]);
    assert!(matches!(r, Err(GibberishError::ExtensionMissing)));
    let r = envelope_from_entries(vec![entry("extension", Value::Bytes(vec![1]))]);
    assert!(matches!(r, Err(GibberishError::ExtensionNotText)));
    let r = envelope_from_entries(vec![entry("extension", text("x")), entry("file", text("y"))]);
    assert!(matches!(r, Err(GibberishError::FileNotBinary)));
    let r = envelope_from_entries(vec![Entry { key: None, value: text("x") }]);
    assert!(matches!(r, Err(GibberishError::KeyNotText)));
}

#[test]
fn unpack_rejects_non_map_and_garbage() {
    assert!(matches!(unpack_envelope(&[0xa1, b'a']), Err(GibberishError::NotAMap)));
    assert!(matches!(unpack_envelope(&[0xc1]), Err(GibberishError::InvalidEnvelope)));
    assert!(matches!(unpack_envelope(&[]), Err(GibberishError::InvalidEnvelope)));
    // a map whose `file` entry is a string
    let bytes = [0x81, 0xa4, b'f', b'i', b'l', b'e', 0xa1, b'x'];
    assert!(matches!(unpack_envelope(&bytes), Err(GibberishError::FileNotBinary)));
    // a map with an integer key
    let bytes = [0x81, 0x01, 0xa1, b'x'];
    assert!(matches!(unpack_envelope(&bytes), Err(GibberishError::KeyNotText)));
}

#[test]
fn envelope_shape_accepts_flat_maps_and_scalars() {
    assert!(has_envelope_shape(&pack_envelope("pdf", vec![1, 2, 3])));
    assert!(has_envelope_shape(&pack_envelope("x", vec![0u8; 300])));
    assert!(has_envelope_shape(&[0xa1, b'a']));
    assert!(has_envelope_shape(&[0x80]));
    assert!(!has_envelope_shape(&[]));
    assert!(!has_envelope_shape(&[0xc1]));
    // a string header that claims more bytes than there are
    assert!(!has_envelope_shape(&[0xa5, b'a']));
    // a top-level array
    assert!(!has_envelope_shape(&[0x91, 0x01]));
}

#[test]
fn oversized_map_count_is_invalid() {
    let bytes = [0xdf, 0xff, 0xff, 0xff, 0xff, 0xa1, b'a'];
    assert!(!has_envelope_shape(&bytes));
    assert!(matches!(unpack_envelope(&bytes), Err(GibberishError::InvalidEnvelope)));
}

#[test]
fn deep_nesting_is_invalid() {
    let mut bytes = vec![0x81, 0xa1, b'k'];
    bytes.extend(std::iter::repeat(0x91u8).take(200_000));
    bytes.push(0x01);
    assert!(matches!(unpack_envelope(&bytes), Err(GibberishError::InvalidEnvelope)));
}

#[test]
fn nested_value_under_unknown_key_is_invalid() {
    let mut bytes = vec![0x83, 0xa9];
    bytes.extend_from_slice(b"extension");
    bytes.extend_from_slice(&[0xa1, b'x', 0xa4]);
    bytes.extend_from_slice(b"file");
    bytes.extend_from_slice(&[0xc4, 0x01, 0x07, 0xa1, b'n', 0x90]);
    assert!(matches!(unpack_envelope(&bytes), Err(GibberishError::InvalidEnvelope)));
    // the same map with a scalar there reads fine
    let last = bytes.len() - 1;
    bytes[last] = 0xc0;
    let env = unpack_envelope(&bytes).ok().unwrap();
    assert_eq!(env.extension, "x");
    assert_eq!(env.content, vec![7]);
}
