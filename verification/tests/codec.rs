use quantus_ur::cbor::{unwrap_cbor, wrap_cbor};
use quantus_ur::hex_text::{bytes_to_hex, hex_to_bytes};
use quantus_ur::QuantusUrError;

#[test]
fn envelope_has_the_shortest_head() {
    assert_eq!(wrap_cbor(&[]), Ok(vec![0x40]));
    assert_eq!(wrap_cbor(&[0xaa]), Ok(vec![0x41, 0xaa]));

    let wrapped = wrap_cbor(&[5u8; 23]).expect("Wrapping failed");
    assert_eq!(wrapped.len(), 24);
    assert_eq!(wrapped[0], 0x57);

    let wrapped = wrap_cbor(&[5u8; 24]).expect("Wrapping failed");
    assert_eq!(wrapped.len(), 26);
    assert_eq!(&wrapped[..2], &[0x58, 24]);

    let wrapped = wrap_cbor(&[5u8; 255]).expect("Wrapping failed");
    assert_eq!(wrapped.len(), 257);
    assert_eq!(&wrapped[..2], &[0x58, 0xff]);

    let wrapped = wrap_cbor(&[5u8; 256]).expect("Wrapping failed");
    assert_eq!(wrapped.len(), 259);
    assert_eq!(&wrapped[..3], &[0x59, 0x01, 0x00]);
    assert_eq!(&wrapped[3..], &[5u8; 256]);

    let wrapped = wrap_cbor(&vec![9u8; 65536]).expect("Wrapping failed");
    assert_eq!(wrapped.len(), 65541);
    assert_eq!(&wrapped[..5], &[0x5a, 0x00, 0x01, 0x00, 0x00]);
}

#[test]
fn unwrapping_inverts_wrapping() {
    for len in [0usize, 1, 23, 24, 255, 256, 65535, 65536, 70000] {
        let payload: Vec<u8> = (0..len).map(|i| (i * 7) as u8).collect();
        let wrapped = wrap_cbor(&payload).expect("Wrapping failed");
        assert_ne!(wrapped, payload);
        assert_eq!(unwrap_cbor(&wrapped), Ok(payload));
    }
}

#[test]
fn unwrapping_reads_every_definite_head() {
    assert_eq!(unwrap_cbor(&[0x40]), Ok(vec![]));
    assert_eq!(unwrap_cbor(&[0x42, 1, 2]), Ok(vec![1, 2]));
    assert_eq!(unwrap_cbor(&[0x58, 0x02, 1, 2]), Ok(vec![1, 2]));
    assert_eq!(unwrap_cbor(&[0x59, 0x00, 0x02, 1, 2]), Ok(vec![1, 2]));
    assert_eq!(unwrap_cbor(&[0x5a, 0, 0, 0, 0x02, 1, 2]), Ok(vec![1, 2]));
    assert_eq!(unwrap_cbor(&[0x5b, 0, 0, 0, 0, 0, 0, 0, 0x02, 1, 2]), Ok(vec![1, 2]));
    // bytes after the item are left alone
    assert_eq!(unwrap_cbor(&[0x41, 9, 0xff, 0xff]), Ok(vec![9]));
}

#[test]
fn unwrapping_refuses_what_is_no_definite_byte_string() {
    let refused: [&[u8]; 12] = [
        &[],
        &[0x00],
        &[0x3f],
        &[0x61, 0x61],
        &[0x80],
        &[0x5c],
        &[0x5e, 0, 0],
        &[0x5f, 0x41, 0, 0xff],
        &[0x42, 1],
        &[0x58],
        &[0x59, 0x00],
        &[0x5b, 0xff, 0xff, 0xff, 0xff, 0xff, 0xff, 0xff, 0xff, 1],
    ];
    for blob in refused {
        assert!(
            matches!(unwrap_cbor(blob), Err(QuantusUrError::CborDecode(_))),
            "{:?} was accepted",
            blob
        );
    }
    assert_eq!(
        unwrap_cbor(&[]),
        Err(QuantusUrError::CborDecode("end of input bytes".to_string()))
    );
}

#[test]
fn hex_text_is_read_in_either_case() {
    assert_eq!(hex_to_bytes(""), Ok(vec![]));
    assert_eq!(hex_to_bytes("0aFf"), Ok(vec![0x0a, 0xff]));
    assert_eq!(hex_to_bytes("00010203"), Ok(vec![0, 1, 2, 3]));
    assert_eq!(hex_to_bytes("ABCDEFabcdef0189"), Ok(vec![0xab, 0xcd, 0xef, 0xab, 0xcd, 0xef, 0x01, 0x89]));
}

#[test]
fn hex_text_is_written_in_lower_case() {
    assert_eq!(bytes_to_hex(&[]), "");
    assert_eq!(bytes_to_hex(&[0x0a, 0xff]), "0aff");
    assert_eq!(bytes_to_hex(&[1, 2, 3, 15, 16]), "0102030f10");
    assert_eq!(bytes_to_hex(b"Hello world!"), "48656c6c6f20776f726c6421");
}

#[test]
fn reading_inverts_writing() {
    let bytes: Vec<u8> = (0..=255u8).collect();
    let text = bytes_to_hex(&bytes);
    assert_eq!(text.len(), 512);
    assert_eq!(hex_to_bytes(&text), Ok(bytes.clone()));
    assert_eq!(hex_to_bytes(&text.to_uppercase()), Ok(bytes));
}

#[test]
fn malformed_hex_text_is_refused_with_the_codec_detail() {
    assert_eq!(
        hex_to_bytes("0"),
        Err(QuantusUrError::HexDecode("Odd number of digits".to_string()))
    );
    assert_eq!(
        hex_to_bytes("0g"),
        Err(QuantusUrError::HexDecode("Invalid character 'g' at position 1".to_string()))
    );
    assert_eq!(
        hex_to_bytes(" 0"),
        Err(QuantusUrError::HexDecode("Invalid character ' ' at position 0".to_string()))
    );
    // the odd length is met before the bad digit
    assert_eq!(
        hex_to_bytes("xyz"),
        Err(QuantusUrError::HexDecode("Odd number of digits".to_string()))
    );
    // one character of two bytes: even length, no digit
    assert!(matches!(hex_to_bytes("\u{e9}"), Err(QuantusUrError::HexDecode(_))));
}
