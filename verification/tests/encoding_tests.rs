use base64::prelude::{Engine, BASE64_STANDARD};
use kg_passgen::encoding::encode;

#[test]
fn encode_known_vectors() {
    assert_eq!(encode(b""), "");
    assert_eq!(encode(b"f"), "Zg==");
    assert_eq!(encode(b"fo"), "Zm8=");
    assert_eq!(encode(b"foo"), "Zm9v");
    assert_eq!(encode(b"foob"), "Zm9vYg==");
    assert_eq!(encode(b"fooba"), "Zm9vYmE=");
    assert_eq!(encode(b"foobar"), "Zm9vYmFy");
    assert_eq!(encode(b"Man"), "TWFu");
}

#[test]
fn encode_reaches_the_end_of_the_alphabet() {
    assert_eq!(encode(&[0xfa, 0xfb, 0xfc, 0xfd, 0xfe, 0xff]), "+vv8/f7/");
    assert_eq!(encode(&[0xfb, 0xff, 0xbf]), "+/+/");
    assert_eq!(encode(&[0x00, 0x00, 0x00]), "AAAA");
    assert_eq!(encode(&[0xff]), "/w==");
    assert_eq!(encode(&[0xff, 0xff]), "//8=");
}

#[test]
fn encode_agrees_with_a_decoder() {
    let mut bytes: Vec<u8> = Vec::new();
    for n in 0..300u32 {
        let text = encode(&bytes);
        assert_eq!(text.len(), 4 * ((bytes.len() + 2) / 3));
        assert_eq!(BASE64_STANDARD.decode(&text).unwrap(), bytes);
        assert_eq!(text, BASE64_STANDARD.encode(&bytes));
        bytes.push((n * 37 % 256) as u8);
    }
}

#[test]
fn encode_every_byte_value() {
    let bytes: Vec<u8> = (0..=255u8).collect();
    assert_eq!(encode(&bytes), BASE64_STANDARD.encode(&bytes));
}
