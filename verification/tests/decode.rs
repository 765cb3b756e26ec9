use frame_content::content::{parse_content, parse_link, parse_text, parse_text_language,
    classify_frame, FrameKind, FrameValue};
use frame_content::cursor::Cursor;
use frame_content::encoding::{verify_encoding, Id3v2Error, Id3v2Version, TextEncoding};
use frame_content::text::decode_text;

fn cur(bytes: &[u8]) -> Cursor {
    Cursor::new(bytes.to_vec())
}

#[test]
fn verifier_v2_accepts_exactly_markers_0_and_1() {
    for m in 0..=255u8 {
        let r = verify_encoding(m, Id3v2Version::V2);
        match m {
            0 => assert_eq!(r, Ok(TextEncoding::Latin1)),
            1 => assert_eq!(r, Ok(TextEncoding::Utf16)),
            _ => assert_eq!(r, Err(Id3v2Error::V2InvalidTextEncoding)),
        }
    }
}

#[test]
fn verifier_newer_versions_accept_full_known_set() {
    for v in [Id3v2Version::V3, Id3v2Version::V4] {
        for m in 0..=255u8 {
            let r = verify_encoding(m, v);
            match m {
                0 => assert_eq!(r, Ok(TextEncoding::Latin1)),
                1 => assert_eq!(r, Ok(TextEncoding::Utf16)),
                2 => assert_eq!(r, Ok(TextEncoding::Utf16Be)),
                3 => assert_eq!(r, Ok(TextEncoding::Utf8)),
                _ => assert_eq!(r, Err(Id3v2Error::InvalidTextEncoding)),
            }
        }
    }
}

#[test]
fn text_parser_short_input_yields_no_value() {
    for input in [&[][..], &[0u8][..]] {
        let mut c = cur(input);
        let r = parse_text(&mut c, Id3v2Version::V4);
        assert!(matches!(r, Ok(None)));
        assert_eq!(c.remaining_len(), input.len());
    }
}

#[test]
fn link_parser_empty_input_yields_no_value() {
    let mut c = cur(&[]);
    let r = parse_link(&mut c);
    assert!(matches!(r, Ok(None)));
    assert_eq!(c.remaining_len(), 0);
}

#[test]
fn language_parser_short_input_yields_no_value() {
    let mut c = cur(&[0, b'e', b'n', b'g']);
    let r = parse_text_language(&mut c, "COMM", Id3v2Version::V4);
    assert!(matches!(r, Ok(None)));
    assert_eq!(c.remaining_len(), 4);
}

#[test]
fn latin1_terminated_round_trip() {
    let mut bytes = b"Art".to_vec();
    bytes.push(0);
    bytes.push(0xAA);
    let mut c = Cursor::new(bytes);
    let r = decode_text(&mut c, TextEncoding::Latin1, true);
    assert_eq!(r, Ok(Some(String::from("Art"))));
    assert_eq!(c.remaining_len(), 1);
    assert_eq!(c.peek(0), 0xAA);
}

#[test]
fn dispatch_exact_match_beats_prefix_match() {
    assert_eq!(classify_frame("TXXX"), FrameKind::UserText);
    assert_eq!(classify_frame("WXXX"), FrameKind::UserUrl);
    assert_eq!(classify_frame("WFED"), FrameKind::Text);
    assert_eq!(classify_frame("GRP1"), FrameKind::Text);
    assert_eq!(classify_frame("MVNM"), FrameKind::Text);
    assert_eq!(classify_frame("MVIN"), FrameKind::Text);
    assert_eq!(classify_frame("COMM"), FrameKind::Language);
    assert_eq!(classify_frame("USLT"), FrameKind::Language);
    assert_eq!(classify_frame("APIC"), FrameKind::Picture);
    assert_eq!(classify_frame("UFID"), FrameKind::UniqueFileId);
    assert_eq!(classify_frame("POPM"), FrameKind::Popularimeter);
    assert_eq!(classify_frame("TIT2"), FrameKind::Text);
    assert_eq!(classify_frame("WOAR"), FrameKind::Link);
    assert_eq!(classify_frame("GEOB"), FrameKind::Binary);
    assert_eq!(classify_frame("SYLT"), FrameKind::Binary);
}

#[test]
fn user_text_routes_to_delegate_not_text_parser() {
    let mut c = cur(&[0, b'k', 0, b'v']);
    let r = parse_content(&mut c, "TXXX", Id3v2Version::V4);
    match r {
        Ok(Some(FrameValue::UserText { version, data })) => {
            assert_eq!(version, Id3v2Version::V4);
            assert_eq!(data, vec![0, b'k', 0, b'v']);
        },
        other => panic!("expected a user-text delegate, got {:?}", other),
    }
    assert_eq!(c.remaining_len(), 0);
}

#[test]
fn unknown_identifier_yields_binary_untouched() {
    for id in ["SYLT", "GEOB", "ABCD"] {
        let mut c = cur(&[9, 8, 7]);
        let r = parse_content(&mut c, id, Id3v2Version::V4);
        match r {
            Ok(Some(FrameValue::Binary(data))) => assert_eq!(data, vec![9, 8, 7]),
            other => panic!("expected a binary fallback, got {:?}", other),
        }
        assert_eq!(c.remaining_len(), 0);
    }
}

#[test]
fn text_parser_utf16_marker_with_one_content_byte_is_no_value() {
    let mut c = cur(&[1, 0x00]);
    let r = parse_text(&mut c, Id3v2Version::V4);
    assert!(matches!(r, Ok(None)));
}

#[test]
fn comm_latin1_empty_description_and_content() {
    for v in [Id3v2Version::V2, Id3v2Version::V3, Id3v2Version::V4] {
        let mut c = cur(&[0, b'e', b'n', b'g', 0, b'h', b'i', 0]);
        let r = parse_content(&mut c, "COMM", v);
        match r {
            Ok(Some(FrameValue::Comment(lf))) => {
                assert_eq!(lf.encoding, TextEncoding::Latin1);
                assert_eq!(lf.language, vec![b'e', b'n', b'g']);
                assert_eq!(lf.description, "");
                assert_eq!(lf.content, "hi");
            },
            other => panic!("expected a comment, got {:?}", other),
        }
        assert_eq!(c.remaining_len(), 0);
    }
}

#[test]
fn uslt_wraps_as_unsynchronized_text() {
    let mut c = cur(&[0, b'e', b'n', b'g', b'd', 0, b'l', b'a']);
    let r = parse_content(&mut c, "USLT", Id3v2Version::V4);
    match r {
        Ok(Some(FrameValue::UnSyncText(lf))) => {
            assert_eq!(lf.encoding, TextEncoding::Latin1);
            assert_eq!(lf.language, vec![b'e', b'n', b'g']);
            assert_eq!(lf.description, "d");
            assert_eq!(lf.content, "la");
        },
        other => panic!("expected unsynchronized text, got {:?}", other),
    }
}

#[test]
fn unknown_w_prefixed_identifier_parses_as_link_to_end() {
    let mut c = cur(&[b'h', b't', b't', b'p']);
    let r = parse_content(&mut c, "WXYZ", Id3v2Version::V4);
    match r {
        Ok(Some(FrameValue::URL(l))) => assert_eq!(l, "http"),
        other => panic!("expected a URL, got {:?}", other),
    }
    assert_eq!(c.remaining_len(), 0);
}

#[test]
fn link_stops_at_terminator() {
    let mut c = cur(&[b'a', 0, b'b']);
    let r = parse_link(&mut c);
    match r {
        Ok(Some(FrameValue::URL(l))) => assert_eq!(l, "a"),
        other => panic!("expected a URL, got {:?}", other),
    }
    assert_eq!(c.remaining_len(), 1);
}

#[test]
fn text_frame_latin1_high_byte() {
    let mut c = cur(&[0, 0xE9]);
    let r = parse_text(&mut c, Id3v2Version::V4);
    match r {
        Ok(Some(FrameValue::Text { encoding, value })) => {
            assert_eq!(encoding, TextEncoding::Latin1);
            assert_eq!(value, "\u{e9}");
        },
        other => panic!("expected a text frame, got {:?}", other),
    }
}

#[test]
fn text_frame_empty_string_at_immediate_terminator() {
    let mut c = cur(&[0, 0]);
    let r = parse_text(&mut c, Id3v2Version::V4);
    match r {
        Ok(Some(FrameValue::Text { encoding, value })) => {
            assert_eq!(encoding, TextEncoding::Latin1);
            assert_eq!(value, "");
        },
        other => panic!("expected a text frame, got {:?}", other),
    }
}

#[test]
fn text_frame_utf8() {
    let mut c = cur(&[3, 0xC3, 0xA9, 0x21, 0]);
    let r = parse_text(&mut c, Id3v2Version::V4);
    match r {
        Ok(Some(FrameValue::Text { encoding, value })) => {
            assert_eq!(encoding, TextEncoding::Utf8);
            assert_eq!(value, "\u{e9}!");
        },
        other => panic!("expected a text frame, got {:?}", other),
    }
}

#[test]
fn text_frame_invalid_utf8_is_malformed() {
    let mut c = cur(&[3, 0xFF]);
    let r = parse_text(&mut c, Id3v2Version::V4);
    assert_eq!(
        match r {
            Err(e) => Some(e),
            _ => None,
        },
        Some(Id3v2Error::MalformedText)
    );
}

#[test]
fn text_frame_utf16_little_endian_bom() {
    let mut c = cur(&[1, 0xFF, 0xFE, 0x68, 0x00, 0x69, 0x00]);
    let r = parse_text(&mut c, Id3v2Version::V4);
    match r {
        Ok(Some(FrameValue::Text { encoding, value })) => {
            assert_eq!(encoding, TextEncoding::Utf16);
            assert_eq!(value, "hi");
        },
        other => panic!("expected a text frame, got {:?}", other),
    }
}

#[test]
fn text_frame_utf16_big_endian_bom() {
    let mut c = cur(&[1, 0xFE, 0xFF, 0x00, 0x68, 0x00, 0x69]);
    let r = parse_text(&mut c, Id3v2Version::V4);
    match r {
        Ok(Some(FrameValue::Text { encoding, value })) => {
            assert_eq!(encoding, TextEncoding::Utf16);
            assert_eq!(value, "hi");
        },
        other => panic!("expected a text frame, got {:?}", other),
    }
}

#[test]
fn text_frame_utf16be_without_bom() {
    let mut c = cur(&[2, 0x00, 0x68, 0x00, 0x69]);
    let r = parse_text(&mut c, Id3v2Version::V4);
    match r {
        Ok(Some(FrameValue::Text { encoding, value })) => {
            assert_eq!(encoding, TextEncoding::Utf16Be);
            assert_eq!(value, "hi");
        },
        other => panic!("expected a text frame, got {:?}", other),
    }
}

#[test]
fn utf16_terminator_must_be_code_unit_aligned() {
    // The low zero byte of 'a' (61 00) does not terminate; the aligned
    // 00 00 pair afterwards does, and the byte beyond it is untouched.
    let mut c = cur(&[1, 0xFF, 0xFE, 0x61, 0x00, 0x00, 0x00, 0x7E]);
    let r = parse_text(&mut c, Id3v2Version::V4);
    match r {
        Ok(Some(FrameValue::Text { encoding, value })) => {
            assert_eq!(encoding, TextEncoding::Utf16);
            assert_eq!(value, "a");
        },
        other => panic!("expected a text frame, got {:?}", other),
    }
    assert_eq!(c.remaining_len(), 1);
    assert_eq!(c.peek(0), 0x7E);
}

#[test]
fn utf16_without_bom_is_malformed() {
    let mut c = cur(&[1, 0x61, 0x00, 0x61, 0x00]);
    let r = parse_text(&mut c, Id3v2Version::V4);
    assert!(matches!(r, Err(Id3v2Error::MalformedText)));
}

#[test]
fn utf16_unpaired_surrogate_is_malformed() {
    let mut c = cur(&[1, 0xFF, 0xFE, 0x00, 0xD8]);
    let r = parse_text(&mut c, Id3v2Version::V4);
    assert!(matches!(r, Err(Id3v2Error::MalformedText)));
}

#[test]
fn utf16be_odd_byte_count_is_malformed() {
    let mut c = cur(&[2, 0x00, 0x68, 0x69]);
    let r = parse_text(&mut c, Id3v2Version::V4);
    assert!(matches!(r, Err(Id3v2Error::MalformedText)));
}

#[test]
fn v2_rejects_markers_above_one_with_version_error() {
    for m in [2u8, 3, 9] {
        let mut c = cur(&[m, b'x', 0]);
        let r = parse_text(&mut c, Id3v2Version::V2);
        assert!(matches!(r, Err(Id3v2Error::V2InvalidTextEncoding)));
    }
}

#[test]
fn unknown_marker_on_newer_version_is_invalid_encoding() {
    let mut c = cur(&[9, b'x', 0]);
    let r = parse_text(&mut c, Id3v2Version::V4);
    assert!(matches!(r, Err(Id3v2Error::InvalidTextEncoding)));
}

#[test]
fn comm_utf16_fields_decoded_under_one_encoding() {
    let mut c = cur(&[
        1, b'e', b'n', b'g', // marker + language
        0xFF, 0xFE, 0x64, 0x00, 0x00, 0x00, // description "d", terminated
        0xFF, 0xFE, 0x68, 0x00, 0x69, 0x00, // content "hi", to end
    ]);
    let r = parse_content(&mut c, "COMM", Id3v2Version::V4);
    match r {
        Ok(Some(FrameValue::Comment(lf))) => {
            assert_eq!(lf.encoding, TextEncoding::Utf16);
            assert_eq!(lf.language, vec![b'e', b'n', b'g']);
            assert_eq!(lf.description, "d");
            assert_eq!(lf.content, "hi");
        },
        other => panic!("expected a comment, got {:?}", other),
    }
    assert_eq!(c.remaining_len(), 0);
}

#[test]
fn picture_frame_hands_payload_through() {
    let mut c = cur(&[3, 0, 1, 2]);
    let r = parse_content(&mut c, "APIC", Id3v2Version::V3);
    match r {
        Ok(Some(FrameValue::Picture { version, data })) => {
            assert_eq!(version, Id3v2Version::V3);
            assert_eq!(data, vec![3, 0, 1, 2]);
        },
        other => panic!("expected a picture delegate, got {:?}", other),
    }
    assert_eq!(c.remaining_len(), 0);
}

#[test]
fn popularimeter_and_ufid_hand_payload_through() {
    let mut c = cur(&[b'a', 0, 5]);
    match parse_content(&mut c, "POPM", Id3v2Version::V4) {
        Ok(Some(FrameValue::Popularimeter { data })) => assert_eq!(data, vec![b'a', 0, 5]),
        other => panic!("expected a popularimeter delegate, got {:?}", other),
    }
    let mut c = cur(&[b'o', 0, 1]);
    match parse_content(&mut c, "UFID", Id3v2Version::V4) {
        Ok(Some(FrameValue::UniqueFileIdentifier { data })) => assert_eq!(data, vec![b'o', 0, 1]),
        other => panic!("expected a unique-file-identifier delegate, got {:?}", other),
    }
}

#[test]
fn text_frame_without_terminator_runs_to_end() {
    let mut c = cur(&[0, b'h', b'e', b'y']);
    let r = parse_text(&mut c, Id3v2Version::V4);
    match r {
        Ok(Some(FrameValue::Text { encoding, value })) => {
            assert_eq!(encoding, TextEncoding::Latin1);
            assert_eq!(value, "hey");
        },
        other => panic!("expected a text frame, got {:?}", other),
    }
    assert_eq!(c.remaining_len(), 0);
}

#[test]
fn utf16_immediate_aligned_terminator_gives_empty_text() {
    let mut c = cur(&[1, 0x00, 0x00, 0x41]);
    let r = parse_text(&mut c, Id3v2Version::V4);
    match r {
        Ok(Some(FrameValue::Text { encoding, value })) => {
            assert_eq!(encoding, TextEncoding::Utf16);
            assert_eq!(value, "");
        },
        other => panic!("expected a text frame, got {:?}", other),
    }
    assert_eq!(c.remaining_len(), 1);
}

#[test]
fn utf16be_immediate_terminator_gives_empty_text() {
    let mut c = cur(&[2, 0x00, 0x00]);
    let r = parse_text(&mut c, Id3v2Version::V4);
    match r {
        Ok(Some(FrameValue::Text { encoding, value })) => {
            assert_eq!(encoding, TextEncoding::Utf16Be);
            assert_eq!(value, "");
        },
        other => panic!("expected a text frame, got {:?}", other),
    }
    assert_eq!(c.remaining_len(), 0);
}

#[test]
fn comm_utf16_content_trailing_sentinel_is_stripped() {
    let mut c = cur(&[
        1, b'e', b'n', b'g', // marker + language
        0x00, 0x00, // empty description, terminated at once
        0xFF, 0xFE, 0x68, 0x00, 0x69, 0x00, 0x00, 0x00, // content "hi" + sentinel
    ]);
    let r = parse_content(&mut c, "COMM", Id3v2Version::V4);
    match r {
        Ok(Some(FrameValue::Comment(lf))) => {
            assert_eq!(lf.encoding, TextEncoding::Utf16);
            assert_eq!(lf.description, "");
            assert_eq!(lf.content, "hi");
        },
        other => panic!("expected a comment, got {:?}", other),
    }
    assert_eq!(c.remaining_len(), 0);
}

#[test]
fn comm_to_end_latin1_trailing_null_is_stripped_once() {
    let mut c = cur(&[0, b'e', b'n', b'g', 0, b'h', b'i', 0, 0]);
    let r = parse_content(&mut c, "COMM", Id3v2Version::V4);
    match r {
        Ok(Some(FrameValue::Comment(lf))) => {
            assert_eq!(lf.description, "");
            assert_eq!(lf.content, "hi\u{0}");
        },
        other => panic!("expected a comment, got {:?}", other),
    }
}
