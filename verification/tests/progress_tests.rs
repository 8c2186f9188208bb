use scriptify_core::progress::{classify_line, LineSignal, ProgressTracker, StepTag};

fn phase_of(line: &str) -> (StepTag, u32, bool, bool) {
    match classify_line(line) {
        LineSignal::Phase { step, target_centi, gated, terminal, .. } => {
            (step, target_centi, gated, terminal)
        }
        other => panic!("expected a phase signal, got {:?}", other),
    }
}

#[test]
fn loading_model_line_hits_twenty_percent() {
    let (step, target, gated, terminal) = phase_of("Loading Whisper model (base)...");
    assert_eq!(step, StepTag::LoadingModel);
    assert_eq!(target, 2000);
    assert!(!gated);
    assert!(!terminal);
}

#[test]
fn preparing_audio_line_hits_forty_percent() {
    let (step, target, _, _) = phase_of("Preparing audio from input file");
    assert_eq!(step, StepTag::PreparingAudio);
    assert_eq!(target, 4000);
}

#[test]
fn chunking_audio_line_hits_sixty_percent() {
    let (step, target, _, _) = phase_of("Chunking audio into windows");
    assert_eq!(step, StepTag::ChunkingAudio);
    assert_eq!(target, 6000);
}

#[test]
fn transcribing_without_percent_is_gated_eighty() {
    let (step, target, gated, terminal) = phase_of("Transcribing chunks...");
    assert_eq!(step, StepTag::Transcribing);
    assert_eq!(target, 8000);
    assert!(gated);
    assert!(!terminal);
}

#[test]
fn formatting_line_hits_ninety_five_and_is_terminal() {
    let (step, target, gated, terminal) = phase_of("Formatting result...");
    assert_eq!(step, StepTag::Formatting);
    assert_eq!(target, 9500);
    assert!(!gated);
    assert!(terminal);
}

#[test]
fn forty_five_percent_maps_to_seventy_three_and_a_half() {
    // 60.0 + 0.45 * 30.0 = 73.5 percent, i.e. 7350 hundredths.
    let (step, target, gated, _) = phase_of("Transcribing chunks... | 45.0%");
    assert_eq!(step, StepTag::Transcribing);
    assert_eq!(target, 7350);
    assert!(!gated);
}

#[test]
fn percent_parse_uses_last_bar_before_first_percent() {
    let (_, target, gated, _) = phase_of("Transcribing chunks |ignored| 45.0% | 90.0%");
    assert_eq!(target, 7350);
    assert!(!gated);
}

#[test]
fn unparseable_percent_falls_back_to_gated_eighty() {
    let (_, target, gated, _) = phase_of("Transcribing chunks... | n/a%");
    assert_eq!(target, 8000);
    assert!(gated);
}

#[test]
fn percent_without_bar_falls_back_to_gated_eighty() {
    let (_, target, gated, _) = phase_of("Transcribing chunks... 45%");
    assert_eq!(target, 8000);
    assert!(gated);
}

#[test]
fn oversized_percent_is_clamped_to_full_scale() {
    let (_, target, _, _) = phase_of("Transcribing chunks... | 200%");
    assert_eq!(target, 10000);
}

#[test]
fn percent_endpoints_map_to_the_transcription_band() {
    // 60% at the band's start, 90% at its end.
    let (_, target, _, _) = phase_of("Transcribing chunks... | 0%");
    assert_eq!(target, 6000);
    let (_, target, _, _) = phase_of("Transcribing chunks... | 100%");
    assert_eq!(target, 9000);
}

#[test]
fn fractional_percent_is_kept_in_hundredths() {
    // 60.0 + 0.4550 * 30.0 = 73.65 percent.
    let (_, target, _, _) = phase_of("Transcribing chunks... | 45.50%");
    assert_eq!(target, 7365);
}

#[test]
fn message_percent_is_rounded_to_whole() {
    let mut t = ProgressTracker::new();
    let ev = t.on_line("Transcribing chunks... | 45.5%").unwrap();
    assert_eq!(ev.message, "Transcribing chunks... 46%");
}

#[test]
fn gated_transcribing_emits_exactly_below_baseline() {
    let mut t = ProgressTracker::new();
    t.on_line("Chunking audio...");
    let ev = t.on_line("Transcribing chunks...").expect("baseline below eighty must emit");
    assert_eq!(ev.progress_centi, 8000);
}

#[test]
fn warning_lines_are_discarded() {
    assert!(matches!(
        classify_line("lib/python3.11/site-packages: UserWarning: FP16 is not supported"),
        LineSignal::Discard
    ));
    assert!(matches!(classify_line("  warnings.warn(message)"), LineSignal::Discard));
}

#[test]
fn blank_lines_are_discarded() {
    assert!(matches!(classify_line(""), LineSignal::Discard));
    assert!(matches!(classify_line("   \t  "), LineSignal::Discard));
}

#[test]
fn unrecognized_lines_are_no_signal() {
    assert!(matches!(classify_line("some chatter from the engine"), LineSignal::NoSignal));
}

#[test]
fn noise_check_wins_over_phase_markers() {
    assert!(matches!(
        classify_line("UserWarning: Loading Whisper model"),
        LineSignal::Discard
    ));
}

#[test]
fn tracker_emits_table_values_in_order() {
    let mut t = ProgressTracker::new();
    let lines = [
        ("Loading Whisper model...", 2000),
        ("Preparing audio...", 4000),
        ("Chunking audio...", 6000),
        ("Transcribing chunks... | 45.0%", 7350),
        ("Formatting result...", 9500),
    ];
    for (line, expected) in lines {
        let ev = t.on_line(line).expect("phase line must emit");
        assert_eq!(ev.progress_centi, expected);
    }
}

#[test]
fn tracker_progress_is_non_decreasing_over_a_session() {
    let mut t = ProgressTracker::new();
    let lines = [
        "Loading Whisper model...",
        "Transcribing chunks... | 90.0%",
        "Preparing audio...",
        "chatter",
        "Transcribing chunks...",
        "Transcribing chunks... | 10.0%",
        "Formatting result...",
    ];
    let mut seen: Vec<u32> = Vec::new();
    for line in lines {
        if let Some(ev) = t.on_line(line) {
            seen.push(ev.progress_centi);
        }
        if let Some(ev) = t.on_tick(5) {
            seen.push(ev.progress_centi);
        }
    }
    for pair in seen.windows(2) {
        assert!(pair[0] <= pair[1], "progress went down: {:?}", seen);
    }
}

#[test]
fn gated_transcribing_does_not_emit_below_baseline() {
    let mut t = ProgressTracker::new();
    t.on_line("Transcribing chunks... | 90.0%");
    assert_eq!(t.current_centi, 8700);
    assert!(t.on_line("Transcribing chunks...").is_none());
    assert_eq!(t.current_centi, 8700);
}

#[test]
fn fallback_fires_after_silence_and_nudges_progress() {
    let mut t = ProgressTracker::new();
    t.on_line("Loading Whisper model...");
    let ev = t.on_tick(4).expect("silence beyond the threshold must emit");
    assert_eq!(ev.step, StepTag::Processing);
    assert_eq!(ev.progress_centi, 2080);
}

#[test]
fn fallback_is_rate_limited_per_tick() {
    let mut t = ProgressTracker::new();
    let ev = t.on_tick(60).expect("must emit");
    assert_eq!(ev.progress_centi, 200);
}

#[test]
fn fallback_never_fires_before_threshold() {
    let mut t = ProgressTracker::new();
    assert!(t.on_tick(3).is_none());
}

#[test]
fn fallback_never_exceeds_eighty_five_percent() {
    let mut t = ProgressTracker::new();
    t.on_line("Transcribing chunks... | 80.0%");
    assert_eq!(t.current_centi, 8400);
    let ev = t.on_tick(100).expect("must emit");
    assert_eq!(ev.progress_centi, 8500);
    assert!(t.on_tick(100).is_none());
}

#[test]
fn fallback_never_fires_after_terminal_phase() {
    let mut t = ProgressTracker::new();
    t.on_line("Formatting result...");
    assert!(t.terminal_seen);
    assert!(t.on_tick(100).is_none());
    assert_eq!(t.current_centi, 9500);
}

#[test]
fn event_messages_follow_the_phase() {
    let mut t = ProgressTracker::new();
    let ev = t.on_line("Loading Whisper model...").unwrap();
    assert_eq!(ev.message, "Loading Whisper model...");
    let ev = t.on_line("Transcribing chunks... | 45.0%").unwrap();
    assert_eq!(ev.message, "Transcribing chunks... 45%");
}
