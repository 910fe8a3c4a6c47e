use typscord::codec::{decode, encode};
use typscord::frame::{DiagnosticRecord, FrameBody, ResultFrame};
use typscord::producer::{
    assemble, diagnostic, truncate_diagnostics, ArtifactTooLarge, DEFAULT_HINT,
    MAX_ARTIFACT_SIZE, MAX_DIAGNOSTIC_COUNT,
};

fn record(title: &str, hint: &str) -> DiagnosticRecord {
    DiagnosticRecord { title: title.to_string(), hint: hint.to_string() }
}

fn numbered(n: usize) -> Vec<DiagnosticRecord> {
    (0..n).map(|i| record(&format!("title {i}"), &format!("hint {i}"))).collect()
}

#[test]
fn limits_are_as_documented() {
    assert_eq!(MAX_DIAGNOSTIC_COUNT, 25);
    assert_eq!(MAX_ARTIFACT_SIZE, 8_388_608);
    assert_eq!(DEFAULT_HINT, "No hints provided.");
}

#[test]
fn diagnostic_takes_the_first_hint_or_the_default() {
    assert_eq!(
        diagnostic("unknown variable: x".to_string(), Some("did you mean y?".to_string())),
        record("unknown variable: x", "did you mean y?")
    );
    assert_eq!(
        diagnostic("unknown variable: x".to_string(), None),
        record("unknown variable: x", "No hints provided.")
    );
}

#[test]
fn truncation_keeps_the_first_records() {
    assert_eq!(truncate_diagnostics(numbered(30), 25), numbered(30)[..25].to_vec());
    assert_eq!(truncate_diagnostics(numbered(25), 25), numbered(25));
    assert_eq!(truncate_diagnostics(numbered(3), 25), numbered(3));
    assert_eq!(truncate_diagnostics(numbered(3), 0), vec![]);
    assert_eq!(truncate_diagnostics(vec![], 25), vec![]);
}

#[test]
fn assemble_builds_a_success() {
    let frame = assemble(numbered(26), Ok(vec![1, 2, 3]), MAX_DIAGNOSTIC_COUNT).unwrap();
    assert_eq!(
        frame,
        ResultFrame {
            warnings: numbered(26)[..25].to_vec(),
            body: FrameBody::Success { artifact: vec![1, 2, 3] }
        }
    );
}

#[test]
fn assemble_builds_a_failure() {
    let frame = assemble(numbered(1), Err(numbered(40)), MAX_DIAGNOSTIC_COUNT).unwrap();
    assert_eq!(
        frame,
        ResultFrame {
            warnings: numbered(1),
            body: FrameBody::Failure { errors: numbered(40)[..25].to_vec() }
        }
    );
    assert_eq!(decode(&encode(&frame)), Ok(frame));
}

#[test]
fn failure_without_errors_becomes_an_empty_success() {
    let empty = ResultFrame { warnings: vec![], body: FrameBody::Success { artifact: vec![] } };
    assert_eq!(assemble(vec![], Err(vec![]), MAX_DIAGNOSTIC_COUNT), Ok(empty.clone()));
    assert_eq!(assemble(numbered(2), Err(numbered(2)), 0), Ok(empty));
}

#[test]
fn artifact_of_eight_mebibytes_is_refused() {
    let fits = vec![0u8; MAX_ARTIFACT_SIZE - 1];
    let frame = assemble(vec![], Ok(fits.clone()), MAX_DIAGNOSTIC_COUNT).unwrap();
    assert_eq!(frame.body, FrameBody::Success { artifact: fits });
    assert_eq!(
        assemble(vec![], Ok(vec![0u8; MAX_ARTIFACT_SIZE]), MAX_DIAGNOSTIC_COUNT),
        Err(ArtifactTooLarge { size: MAX_ARTIFACT_SIZE })
    );
}
