use scriptify_core::extract::{extract_result, TranscriptionError};
use scriptify_core::session::{Orchestration, OutputBuffer, SessionPhase, TranscriptStore};
use scriptify_core::progress::StepTag;

#[test]
fn full_document_is_extracted_exactly() {
    let raw = r#"{"text":"hello","confidence":0.9,"segments":[{"start":0.0,"end":1.0,"text":"hi"}]}"#;
    let res = extract_result(raw).expect("well-formed output must succeed");
    assert_eq!(res.text, "hello");
    assert_eq!(res.confidence_milli, 900);
    assert!(res.language.is_none());
    assert!(res.error.is_none());
    let segs = res.segments.expect("segments were present");
    assert_eq!(segs.len(), 1);
    assert_eq!(segs[0].start_milli, 0);
    assert_eq!(segs[0].end_milli, 1000);
    assert_eq!(segs[0].text, "hi");
}

#[test]
fn reported_error_field_is_a_semantic_failure() {
    let res = extract_result(r#"{"error":"model load failed"}"#);
    match res {
        Err(TranscriptionError::TranscriptionFailed(msg)) => {
            assert_eq!(msg, "model load failed");
        }
        other => panic!("expected a semantic failure, got {:?}", outcome_name(&other)),
    }
}

#[test]
fn error_field_wins_over_present_text() {
    let res = extract_result(r#"{"text":"hello","error":"cuda out of memory"}"#);
    match res {
        Err(TranscriptionError::TranscriptionFailed(msg)) => {
            assert_eq!(msg, "cuda out of memory");
        }
        other => panic!("expected a semantic failure, got {:?}", outcome_name(&other)),
    }
}

#[test]
fn unparseable_output_carries_the_raw_text() {
    let res = extract_result("not json");
    match res {
        Err(TranscriptionError::MalformedOutput(raw)) => {
            assert_eq!(raw, "not json");
        }
        other => panic!("expected malformed output, got {:?}", outcome_name(&other)),
    }
}

#[test]
fn empty_output_is_malformed() {
    let res = extract_result("");
    assert!(matches!(res, Err(TranscriptionError::MalformedOutput(_))));
}

#[test]
fn malformed_segment_is_dropped_but_valid_ones_kept() {
    let raw = r#"{"text":"t","segments":[
        {"start":0.0,"end":1.0,"text":"a"},
        {"start":1.0,"end":2.0},
        {"start":2.0,"end":3.5,"text":"c"}
    ]}"#;
    let res = extract_result(raw).expect("partial segment data must not fail the parse");
    let segs = res.segments.expect("segments were present");
    assert_eq!(segs.len(), 2);
    assert_eq!(segs[0].text, "a");
    assert_eq!(segs[1].text, "c");
    assert_eq!(segs[1].start_milli, 2000);
    assert_eq!(segs[1].end_milli, 3500);
}

#[test]
fn absent_fields_fall_back_to_defaults() {
    let res = extract_result("{}").expect("an empty object is a valid document");
    assert_eq!(res.text, "");
    assert_eq!(res.confidence_milli, 0);
    assert!(res.language.is_none());
    assert!(res.segments.is_none());
    assert!(res.error.is_none());
}

#[test]
fn empty_error_string_is_not_a_failure() {
    let res = extract_result(r#"{"error":"","text":"fine"}"#).expect("empty error is benign");
    assert_eq!(res.text, "fine");
}

#[test]
fn non_string_error_field_is_ignored() {
    let res = extract_result(r#"{"error":5,"text":"fine"}"#).expect("non-string error is ignored");
    assert_eq!(res.text, "fine");
}

#[test]
fn language_is_kept_when_named() {
    let res = extract_result(r#"{"text":"bonjour","language":"fr"}"#).unwrap();
    assert_eq!(res.language.as_deref(), Some("fr"));
}

#[test]
fn integer_confidence_scales_to_thousandths() {
    let res = extract_result(r#"{"confidence":1}"#).unwrap();
    assert_eq!(res.confidence_milli, 1000);
    let res = extract_result(r#"{"confidence":0.95}"#).unwrap();
    assert_eq!(res.confidence_milli, 950);
}

#[test]
fn negative_segment_times_are_kept_signed() {
    let raw = r#"{"segments":[{"start":-1.5,"end":0.25,"text":"s"}]}"#;
    let segs = extract_result(raw).unwrap().segments.unwrap();
    assert_eq!(segs[0].start_milli, -1500);
    assert_eq!(segs[0].end_milli, 250);
}

#[test]
fn completed_event_needs_clean_exit_and_clean_extraction() {
    let good = r#"{"text":"hello"}"#;

    let mut s = Orchestration::new();
    s.staged();
    let (ev, res) = s.child_exited(true, good);
    assert!(res.is_ok());
    let ev = ev.expect("clean exit and clean extraction owe the final event");
    assert_eq!(ev.step, StepTag::Completed);
    assert_eq!(ev.progress_centi, 10000);
    assert_eq!(s.phase, SessionPhase::Completed);

    let mut s = Orchestration::new();
    s.staged();
    let (ev, res) = s.child_exited(false, good);
    assert!(res.is_ok());
    assert!(ev.is_none(), "a failed exit never earns the final event");

    let mut s = Orchestration::new();
    s.staged();
    let (ev, res) = s.child_exited(true, r#"{"error":"boom"}"#);
    assert!(res.is_err());
    assert!(ev.is_none(), "a semantic failure never earns the final event");
    assert_eq!(s.phase, SessionPhase::Failed);

    let mut s = Orchestration::new();
    s.staged();
    let (ev, res) = s.child_exited(true, "not json");
    assert!(res.is_err());
    assert!(ev.is_none(), "a malformed output never earns the final event");
}

#[test]
fn fatal_paths_map_to_their_error_kinds() {
    let mut s = Orchestration::new();
    let e = s.fail_staging("disk full".to_string());
    assert!(matches!(e, TranscriptionError::Staging(m) if m == "disk full"));
    assert_eq!(s.phase, SessionPhase::Failed);

    let mut s = Orchestration::new();
    s.staged();
    let e = s.fail_spawn("no interpreter".to_string());
    assert!(matches!(e, TranscriptionError::Spawn(m) if m == "no interpreter"));

    let mut s = Orchestration::new();
    s.staged();
    let e = s.fail_wait("lost child".to_string());
    assert!(matches!(e, TranscriptionError::Wait(m) if m == "lost child"));
}

#[test]
fn output_buffer_appends_lines_with_newlines() {
    let mut b = OutputBuffer::new();
    b.push_line("{\"text\":");
    b.push_line("\"x\"}");
    assert_eq!(b.into_text(), "{\"text\":\n\"x\"}\n");
}

#[test]
fn buffered_multiline_output_still_extracts() {
    let mut b = OutputBuffer::new();
    b.push_line("{\"text\": \"hello\",");
    b.push_line("\"confidence\": 0.5}");
    let text = b.into_text();
    let res = extract_result(&text).expect("multi-line JSON must parse");
    assert_eq!(res.text, "hello");
    assert_eq!(res.confidence_milli, 500);
}

#[test]
fn transcript_store_keeps_the_last_text() {
    let mut store = TranscriptStore::new();
    assert_eq!(store.last(), "");
    store.record("first");
    store.record("second");
    assert_eq!(store.last(), "second");
}

fn outcome_name(r: &Result<scriptify_core::extract::TranscriptionResult, TranscriptionError>) -> &'static str {
    match r {
        Ok(_) => "success",
        Err(TranscriptionError::Staging(_)) => "staging failure",
        Err(TranscriptionError::Spawn(_)) => "spawn failure",
        Err(TranscriptionError::Wait(_)) => "wait failure",
        Err(TranscriptionError::MalformedOutput(_)) => "malformed output",
        Err(TranscriptionError::TranscriptionFailed(_)) => "semantic failure",
    }
}
