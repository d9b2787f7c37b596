use quantus_ur::emit::{emit_fragments, Probe};
use quantus_ur::reassemble::{decode_frames, frames_complete, recover_message, FrameKind};
use quantus_ur::{decode_bytes, decode_hex, encode_bytes, encode_hex, is_complete, QuantusUrError};

fn list(texts: &[&str]) -> Vec<String> {
    texts.iter().map(|t| t.to_string()).collect()
}

#[test]
fn empty_list_is_refused() {
    assert_eq!(decode_bytes(&[]), Err(QuantusUrError::EmptyInput));
    assert_eq!(decode_hex(&[]), Err(QuantusUrError::EmptyInput));
    assert!(!is_complete(&[]));
}

#[test]
fn text_without_scheme_is_a_ur_failure() {
    let parts = list(&["not-a-valid-ur"]);
    assert!(!is_complete(&parts));
    assert_eq!(
        decode_bytes(&parts),
        Err(QuantusUrError::UrDecode("invalid scheme".to_string()))
    );
}

#[test]
fn malformed_hex_is_refused() {
    assert_eq!(
        encode_hex("abc"),
        Err(QuantusUrError::HexDecode("Odd number of digits".to_string()))
    );
    assert_eq!(
        encode_hex("00zz"),
        Err(QuantusUrError::HexDecode("Invalid character 'z' at position 2".to_string()))
    );
    assert!(matches!(encode_hex("\u{e9}"), Err(QuantusUrError::HexDecode(_))));
    assert!(matches!(encode_hex("a\u{e9}"), Err(QuantusUrError::HexDecode(_))));
}

#[test]
fn frame_that_is_no_byte_string_is_a_cbor_failure() {
    // carries the CBOR unsigned integer 1
    let parts = list(&["ur:quantus-sign-request/adonahurcw"]);
    assert!(is_complete(&parts));
    assert!(matches!(decode_bytes(&parts), Err(QuantusUrError::CborDecode(_))));
    assert!(matches!(decode_hex(&parts), Err(QuantusUrError::CborDecode(_))));
    // carries the text "data", which starts like a CBOR text string
    let parts = list(&["UR:BYTES/IEHSJYHSPMWFWFIA"]);
    assert!(matches!(decode_bytes(&parts), Err(QuantusUrError::CborDecode(_))));
}

#[test]
fn truncated_byte_string_is_a_cbor_failure() {
    // head announces five bytes, two follow
    let parts = list(&["ur:quantus-sign-request/feadaokbahswgh"]);
    assert_eq!(
        decode_bytes(&parts),
        Err(QuantusUrError::CborDecode("end of input bytes".to_string()))
    );
}

#[test]
fn longer_head_and_trailing_bytes_are_accepted() {
    // 0x58 0x02 0xaa 0xbb, then a stray 0xff
    let parts = list(&["ur:quantus-sign-request/hdaopkrkzmnymwzoty"]);
    assert_eq!(decode_bytes(&parts), Ok(vec![0xaa, 0xbb]));
    assert_eq!(decode_hex(&parts), Ok("aabb".to_string()));
}

#[test]
fn rejected_fragment_aborts() {
    let mut parts = encode_bytes(&[7u8; 500]).expect("Encoding failed");
    assert_eq!(parts.len(), 3);
    parts[1] = "ur:quantus-sign-request/2-3/zzzz".to_string();
    assert!(!is_complete(&parts));
    assert!(matches!(decode_bytes(&parts), Err(QuantusUrError::UrDecode(_))));

    // a single-part string among fragments is rejected by the session
    let mut parts = encode_bytes(&[7u8; 500]).expect("Encoding failed");
    let single = encode_bytes(b"x").expect("Encoding failed");
    parts.push(single[0].clone());
    assert!(!is_complete(&parts));
    assert_eq!(
        decode_bytes(&parts),
        Err(QuantusUrError::UrDecode("can't decode single-part UR as multi-part".to_string()))
    );
}

#[test]
fn fragments_of_another_message_are_rejected() {
    let first = encode_bytes(&[1u8; 500]).expect("Encoding failed");
    let second = encode_bytes(&[2u8; 500]).expect("Encoding failed");
    let mixed = vec![first[0].clone(), second[1].clone(), first[2].clone()];
    assert!(!is_complete(&mixed));
    assert!(matches!(decode_bytes(&mixed), Err(QuantusUrError::UrDecode(_))));
}

#[test]
fn message_of_a_session_is_turned_into_the_payload() {
    assert_eq!(recover_message(Ok(Some(vec![0x43, 1, 2, 3]))), Ok(vec![1, 2, 3]));
    assert_eq!(recover_message(Ok(Some(vec![0x40]))), Ok(vec![]));
    assert_eq!(
        recover_message(Ok(None)),
        Err(QuantusUrError::UrDecode("No message".to_string()))
    );
    assert_eq!(
        recover_message(Err("invalid padding".to_string())),
        Err(QuantusUrError::UrDecode("invalid padding".to_string()))
    );
    assert!(matches!(
        recover_message(Ok(Some(vec![0x83, 1, 2, 3]))),
        Err(QuantusUrError::CborDecode(_))
    ));
    assert!(matches!(recover_message(Ok(Some(vec![]))), Err(QuantusUrError::CborDecode(_))));
}

#[test]
fn multi_part_probe_without_encoder_is_a_ur_failure() {
    let probe = Probe { is_multi_part: true, data: "ur:bytes/1-2/aeae".to_string(), encoder: None };
    assert_eq!(
        emit_fragments(probe),
        Err(QuantusUrError::UrEncode("Multi-part but no encoder returned".to_string()))
    );
}

#[test]
fn single_part_probe_gives_its_string_in_upper_case() {
    let probe = Probe { is_multi_part: false, data: "ur:bytes/iehsjyhspmwfwfia".to_string(), encoder: None };
    assert_eq!(emit_fragments(probe), Ok(vec!["UR:BYTES/IEHSJYHSPMWFWFIA".to_string()]));
}

#[test]
fn probe_with_encoder_is_drained_to_its_fragment_count() {
    let message: Vec<u8> = (0..95u8).collect();
    let probed = ur_parse_lib::keystone_ur_encoder::probe_encode(&message, 10, "bytes".to_string())
        .expect("Probing failed");
    assert!(probed.is_multi_part);
    let first = probed.data.clone();
    let probe = Probe { is_multi_part: true, data: probed.data, encoder: probed.encoder };
    let parts = emit_fragments(probe).expect("Emission failed");
    assert_eq!(parts.len(), 10);
    assert_eq!(parts[0], first.to_uppercase());
    let mut session = ur::ur::Decoder::default();
    for (i, part) in parts.iter().enumerate() {
        assert!(part.starts_with(&format!("UR:BYTES/{}-10/", i + 1)));
        assert!(!session.complete());
        session.receive(part).expect("Fragment rejected");
    }
    assert!(session.complete());
    assert_eq!(session.message().expect("No message"), Some(message));
}

#[test]
fn reports_name_the_failing_layer() {
    assert_eq!(
        QuantusUrError::HexDecode("Odd number of digits".to_string()).describe(),
        "Hex decoding error: Odd number of digits"
    );
    assert_eq!(QuantusUrError::UrEncode("x".to_string()).describe(), "UR error: x");
    assert_eq!(QuantusUrError::UrDecode("y".to_string()).describe(), "UR error: y");
    assert_eq!(QuantusUrError::CborEncode("z".to_string()).describe(), "CBOR error: z");
    assert_eq!(QuantusUrError::CborDecode("".to_string()).describe(), "CBOR error: ");
    assert_eq!(QuantusUrError::Incomplete.describe(), "Decoding incomplete");
    assert_eq!(QuantusUrError::EmptyInput.describe(), "UR error: No UR parts provided");
    assert_eq!(
        decode_bytes(&list(&["not-a-valid-ur"])).expect_err("Decoding succeeded").describe(),
        "UR error: invalid scheme"
    );
}

#[test]
fn only_incomplete_asks_for_more_fragments() {
    assert!(QuantusUrError::Incomplete.is_incomplete());
    assert!(!QuantusUrError::EmptyInput.is_incomplete());
    assert!(!QuantusUrError::UrDecode("Decoding incomplete".to_string()).is_incomplete());
    assert!(!QuantusUrError::CborDecode(String::new()).is_incomplete());
}

#[test]
fn classified_first_string_decides_the_path() {
    let stray = list(&["whatever"]);
    assert_eq!(
        decode_frames(Err("bad".to_string()), &stray),
        Err(QuantusUrError::UrDecode("bad".to_string()))
    );
    assert!(!frames_complete(Err("bad".to_string()), &stray));

    assert_eq!(
        decode_frames(Ok((FrameKind::SinglePart, vec![0x42, 1, 2])), &stray),
        Ok(vec![1, 2])
    );
    assert!(matches!(
        decode_frames(Ok((FrameKind::SinglePart, vec![0x01])), &stray),
        Err(QuantusUrError::CborDecode(_))
    ));
    assert!(frames_complete(Ok((FrameKind::SinglePart, vec![0x01])), &stray));

    // multi-part framing: the list is fed to a session, the frame is not looked at
    assert_eq!(
        decode_frames(Ok((FrameKind::MultiPart, vec![])), &[]),
        Err(QuantusUrError::Incomplete)
    );
    assert!(!frames_complete(Ok((FrameKind::MultiPart, vec![])), &[]));
    assert!(matches!(
        decode_frames(Ok((FrameKind::MultiPart, vec![])), &stray),
        Err(QuantusUrError::UrDecode(_))
    ));
    assert!(!frames_complete(Ok((FrameKind::MultiPart, vec![])), &stray));

    let payload = vec![3u8; 300];
    let parts = encode_bytes(&payload).expect("Encoding failed");
    assert_eq!(parts.len(), 2);
    assert_eq!(decode_frames(Ok((FrameKind::MultiPart, vec![])), &parts), Ok(payload));
    assert!(frames_complete(Ok((FrameKind::MultiPart, vec![])), &parts));
    assert_eq!(
        decode_frames(Ok((FrameKind::MultiPart, vec![])), &parts[1..]),
        Err(QuantusUrError::Incomplete)
    );
}
