use typscord::codec::{decode, encode, DecodeError};
use typscord::frame::{DiagnosticRecord, FrameBody, ResultFrame};

fn record(title: &str, hint: &str) -> DiagnosticRecord {
    DiagnosticRecord { title: title.to_string(), hint: hint.to_string() }
}

fn count(n: u64) -> Vec<u8> {
    n.to_be_bytes().to_vec()
}

fn failure_bytes() -> Vec<u8> {
    let mut bytes = count(1);
    bytes.extend(b"Unused value\nremove the unused expression\n");
    bytes.extend(count(1));
    bytes.extend(b"Syntax error\nmissing closing brace\n");
    bytes
}

fn failure_frame() -> ResultFrame {
    ResultFrame {
        warnings: vec![record("Unused value", "remove the unused expression")],
        body: FrameBody::Failure { errors: vec![record("Syntax error", "missing closing brace")] },
    }
}

#[test]
fn success_frame_is_read() {
    let mut bytes = count(0);
    bytes.extend(count(0));
    bytes.extend([0xFF, 0xD8, 0x00, 0x01]);
    let frame = decode(&bytes).unwrap();
    assert!(frame.warnings.is_empty());
    assert_eq!(frame.body, FrameBody::Success { artifact: vec![0xFF, 0xD8, 0x00, 0x01] });
}

#[test]
fn failure_frame_is_read() {
    assert_eq!(decode(&failure_bytes()), Ok(failure_frame()));
}

#[test]
fn encode_writes_the_documented_layout() {
    let mut expected = vec![0, 0, 0, 0, 0, 0, 0, 1];
    expected.extend(b"Unused value\nremove the unused expression\n");
    expected.extend([0, 0, 0, 0, 0, 0, 0, 1]);
    expected.extend(b"Syntax error\nmissing closing brace\n");
    assert_eq!(encode(&failure_frame()), expected);
}

#[test]
fn encode_writes_a_success() {
    let frame = ResultFrame {
        warnings: vec![],
        body: FrameBody::Success { artifact: vec![0xFF, 0xD8, 0x00, 0x01] },
    };
    assert_eq!(
        encode(&frame),
        vec![0, 0, 0, 0, 0, 0, 0, 0, 0, 0, 0, 0, 0, 0, 0, 0, 0xFF, 0xD8, 0x00, 0x01]
    );
}

#[test]
fn round_trip_of_a_success() {
    let frame = ResultFrame {
        warnings: vec![record("unknown font family: inter", "No hints provided."), record("é", "")],
        body: FrameBody::Success { artifact: vec![0x0A, 0x00, 0x0A, 0xFF, 0x80] },
    };
    assert!(frame.is_well_formed());
    assert_eq!(decode(&encode(&frame)), Ok(frame));
}

#[test]
fn round_trip_of_a_failure() {
    let frame = ResultFrame {
        warnings: vec![],
        body: FrameBody::Failure {
            errors: vec![record("a", "b"), record("", ""), record("  indented", "💩 x")],
        },
    };
    assert!(frame.is_well_formed());
    assert_eq!(decode(&encode(&frame)), Ok(frame));
}

#[test]
fn round_trip_of_an_empty_success() {
    let frame = ResultFrame { warnings: vec![], body: FrameBody::Success { artifact: vec![] } };
    assert_eq!(encode(&frame).len(), 16);
    assert_eq!(decode(&encode(&frame)), Ok(frame));
}

#[test]
fn warnings_keep_their_order() {
    let warnings: Vec<DiagnosticRecord> =
        (0..40).map(|i| record(&format!("warning {i}"), &format!("hint {i}"))).collect();
    let frame =
        ResultFrame { warnings: warnings.clone(), body: FrameBody::Success { artifact: vec![1] } };
    assert_eq!(decode(&encode(&frame)).unwrap().warnings, warnings);
}

#[test]
fn trailing_bytes_after_errors_are_malformed() {
    let mut bytes = failure_bytes();
    bytes.push(0x00);
    assert_eq!(decode(&bytes), Err(DecodeError::MalformedFrame));
}

#[test]
fn line_that_is_not_utf8_is_malformed() {
    let mut bytes = count(1);
    bytes.extend([0xFF, 0xFE, b'\n']);
    bytes.extend(b"hint\n");
    bytes.extend(count(0));
    assert_eq!(decode(&bytes), Err(DecodeError::MalformedFrame));
}

#[test]
fn overlong_and_surrogate_encodings_are_malformed() {
    for line in [vec![0xC0, 0x8A], vec![0xED, 0xA0, 0x80], vec![0xF4, 0x90, 0x80, 0x80], vec![0x80]]
    {
        let mut bytes = count(1);
        bytes.extend(&line);
        bytes.extend(b"\nhint\n");
        bytes.extend(count(0));
        assert_eq!(decode(&bytes), Err(DecodeError::MalformedFrame));
    }
}

#[test]
fn incomplete_wins_over_a_line_that_is_not_utf8() {
    let mut bytes = count(2);
    bytes.extend([0xFF, b'\n']);
    bytes.extend(b"hint\n");
    bytes.extend(b"second title\nhint without end");
    assert_eq!(decode(&bytes), Err(DecodeError::IncompleteFrame));
}

#[test]
fn multibyte_text_is_read() {
    let mut bytes = count(1);
    bytes.extend("ああい — é\n💩\n".as_bytes());
    bytes.extend(count(0));
    let frame = decode(&bytes).unwrap();
    assert_eq!(frame.warnings, vec![record("ああい — é", "💩")]);
}

#[test]
fn trailing_white_space_is_dropped() {
    let mut bytes = count(1);
    bytes.extend("title \t\r\n  hint\u{3000}\u{a0}\n".as_bytes());
    bytes.extend(count(0));
    let frame = decode(&bytes).unwrap();
    assert_eq!(frame.warnings, vec![record("title", "  hint")]);
}

#[test]
fn every_cut_of_a_failure_is_incomplete() {
    let bytes = failure_bytes();
    for cut in 0..bytes.len() {
        assert_eq!(decode(&bytes[..cut]), Err(DecodeError::IncompleteFrame), "cut at {cut}");
    }
}

#[test]
fn every_cut_before_the_artifact_is_incomplete() {
    let frame = ResultFrame {
        warnings: vec![record("w", "h")],
        body: FrameBody::Success { artifact: vec![1, 2, 3] },
    };
    let bytes = encode(&frame);
    let structure = bytes.len() - 3;
    for cut in 0..structure {
        assert_eq!(decode(&bytes[..cut]), Err(DecodeError::IncompleteFrame), "cut at {cut}");
    }
    let shortened = decode(&bytes[..structure + 1]).unwrap();
    assert_eq!(shortened.body, FrameBody::Success { artifact: vec![1] });
}

#[test]
fn stream_that_ends_inside_the_header_is_incomplete() {
    assert_eq!(decode(&[]), Err(DecodeError::IncompleteFrame));
    assert_eq!(decode(&[0, 0, 0, 0, 0, 0, 0]), Err(DecodeError::IncompleteFrame));
    assert_eq!(decode(&count(0)), Err(DecodeError::IncompleteFrame));
}

#[test]
fn stream_that_ends_inside_a_line_is_incomplete() {
    let mut bytes = count(1);
    bytes.extend(b"title\nhint");
    assert_eq!(decode(&bytes), Err(DecodeError::IncompleteFrame));
}

#[test]
fn announced_warnings_that_never_come_are_incomplete() {
    let mut bytes = count(2);
    bytes.extend(b"only\none\n");
    assert_eq!(decode(&bytes), Err(DecodeError::IncompleteFrame));
}

#[test]
fn huge_count_is_incomplete() {
    let mut bytes = count(u64::MAX);
    bytes.extend(b"a\nb\n");
    assert_eq!(decode(&bytes), Err(DecodeError::IncompleteFrame));
}

#[test]
fn frame_that_is_not_well_formed_does_not_round_trip() {
    let padded = ResultFrame {
        warnings: vec![record("title ", "hint")],
        body: FrameBody::Success { artifact: vec![] },
    };
    assert!(!padded.is_well_formed());
    assert_eq!(decode(&encode(&padded)).unwrap().warnings, vec![record("title", "hint")]);

    let broken = ResultFrame {
        warnings: vec![record("two\nlines", "hint")],
        body: FrameBody::Success { artifact: vec![] },
    };
    assert!(!broken.is_well_formed());
    assert_ne!(decode(&encode(&broken)), Ok(broken));

    let hollow = ResultFrame { warnings: vec![], body: FrameBody::Failure { errors: vec![] } };
    assert!(!hollow.is_well_formed());
    assert_eq!(
        decode(&encode(&hollow)),
        Ok(ResultFrame { warnings: vec![], body: FrameBody::Success { artifact: vec![] } })
    );
}
