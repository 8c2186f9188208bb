//! Turning diagnostic lines of the child process into progress events.
//!
//! A line either is noise (discarded silently), names a known phase (and then
//! yields an event with a fixed point on the progress scale), or is
//! unrecognized (no event, but the line is still shown and the time-based
//! fallback stays eligible).  Progress is measured in hundredths of a percent.

use crate::text::{
    contains_seq, contains_sub, dec_str, find_char, first_at, last_before,
    lemma_first_at_unique, parse_scaled, parse_scaled_spec, rfind_char_before, trim_spec,
    trim_str, u64_to_dec,
};
use vstd::prelude::*;
use vstd::string::*;

verus! {

/// The closed set of phases a progress event can name.
#[derive(Clone, Copy, Debug, PartialEq, Eq, Structural)]
pub enum StepTag {
    Initializing,
    LoadingModel,
    PreparingAudio,
    ChunkingAudio,
    Transcribing,
    Formatting,
    Processing,
    Completed,
}

/// One progress event, as delivered to the caller's sink.
#[derive(Debug)]
pub struct ProgressEvent {
    pub step: StepTag,
    /// Hundredths of a percent, always in `[0, 10000]`.
    pub progress_centi: u32,
    pub message: String,
}

/// What one diagnostic line signals.
#[derive(Clone, Copy, Debug)]
pub enum LineSignal {
    /// A known noise marker or blank line: produce nothing, log nothing.
    Discard,
    /// No phase marker: no event, but the line is logged and the time-based
    /// fallback stays armed.
    NoSignal,
    /// A phase marker with its fixed target on the progress scale.
    Phase {
        step: StepTag,
        target_centi: u32,
        /// The whole-number percent shown in the message, when the line
        /// carried one.
        pct_whole: Option<u64>,
        /// The target only applies when above the current baseline.
        gated: bool,
        /// Marks the terminal phase: the fallback must stay quiet afterwards.
        terminal: bool,
    },
}

pub const LOADING_MODEL_CENTI: u32 = 2000;

pub const PREPARING_AUDIO_CENTI: u32 = 4000;

pub const CHUNKING_AUDIO_CENTI: u32 = 6000;

pub const TRANSCRIBING_FLAT_CENTI: u32 = 8000;

pub const FORMATTING_CENTI: u32 = 9500;

pub const FALLBACK_CAP_CENTI: u32 = 8500;

pub const COMPLETED_CENTI: u32 = 10000;

/// Noise: warning chatter, or nothing but blanks.  Such lines are dropped
/// silently and never reach the user-facing diagnostic log.
pub open spec fn noise_line(l: Seq<char>) -> bool {
    ||| contains_seq(l, "UserWarning"@)
    ||| contains_seq(l, "warnings.warn"@)
    ||| trim_spec(l).len() == 0
}

/// The percentage embedded in a transcription line, in hundredths of a
/// percent: the digits between the last `|` before the first `%` and that
/// `%`, trimmed.  `None` when the line has no such well-formed marker.
pub open spec fn pct_centi_of(l: Seq<char>) -> Option<nat> {
    if exists|i: int| first_at(l, '%', i) {
        let p = choose|i: int| first_at(l, '%', i);
        if exists|i: int| last_before(l, '|', p, i) {
            let bar = choose|i: int| last_before(l, '|', p, i);
            parse_scaled_spec(trim_spec(l.subrange(bar + 1, p)), 2)
        } else {
            None
        }
    } else {
        None
    }
}

/// The progress value for an in-transcription percentage `pc` (hundredths of
/// a percent): sixty percent for reaching the phase plus thirty percent
/// scaled by `pc`, clamped to the progress scale.
pub open spec fn pct_target_centi(pc: nat) -> u32 {
    let t = 6000 + (pc * 3) / 10;
    if t > 10000 {
        10000u32
    } else {
        t as u32
    }
}

/// The percent as shown in the event message: `pc` rounded to a whole
/// number of percent.
pub open spec fn pct_whole_of(pc: nat) -> u64 {
    ((pc + 50) / 100) as u64
}

/// The complete reading of one diagnostic line.  The phase checks follow a
/// fixed order, so a line naming several phases counts as the first.
pub open spec fn classify_spec(l: Seq<char>) -> LineSignal {
    if noise_line(l) {
        LineSignal::Discard
    } else if contains_seq(l, "Loading Whisper model"@) {
        (LineSignal::Phase {
            step: StepTag::LoadingModel,
            target_centi: LOADING_MODEL_CENTI,
            pct_whole: None,
            gated: false,
            terminal: false,
        })
    } else if contains_seq(l, "Preparing audio"@) {
        (LineSignal::Phase {
            step: StepTag::PreparingAudio,
            target_centi: PREPARING_AUDIO_CENTI,
            pct_whole: None,
            gated: false,
            terminal: false,
        })
    } else if contains_seq(l, "Chunking audio"@) {
        (LineSignal::Phase {
            step: StepTag::ChunkingAudio,
            target_centi: CHUNKING_AUDIO_CENTI,
            pct_whole: None,
            gated: false,
            terminal: false,
        })
    } else if contains_seq(l, "Transcribing chunks"@) {
        match pct_centi_of(l) {
            Some(pc) => (LineSignal::Phase {
                step: StepTag::Transcribing,
                target_centi: pct_target_centi(pc),
                pct_whole: Some(pct_whole_of(pc)),
                gated: false,
                terminal: false,
            }),
            None => (LineSignal::Phase {
                step: StepTag::Transcribing,
                target_centi: TRANSCRIBING_FLAT_CENTI,
                pct_whole: None,
                gated: true,
                terminal: false,
            }),
        }
    } else if contains_seq(l, "Formatting result"@) {
        (LineSignal::Phase {
            step: StepTag::Formatting,
            target_centi: FORMATTING_CENTI,
            pct_whole: None,
            gated: false,
            terminal: true,
        })
    } else {
        LineSignal::NoSignal
    }
}

/// The trigger table: every recognized trigger line yields exactly the step
/// and progress value assigned to it, in the fixed order of precedence, and
/// noise is discarded before anything else is looked at.
pub proof fn lemma_trigger_table(l: Seq<char>)
    ensures
        noise_line(l) ==> classify_spec(l) is Discard,
        !noise_line(l) && contains_seq(l, "Loading Whisper model"@) ==> classify_spec(l)
            matches LineSignal::Phase {
            step: StepTag::LoadingModel,
            target_centi: 2000,
            gated: false,
            terminal: false,
            ..
        },
        !noise_line(l) && !contains_seq(l, "Loading Whisper model"@) && contains_seq(
            l,
            "Preparing audio"@,
        ) ==> classify_spec(l) matches LineSignal::Phase {
            step: StepTag::PreparingAudio,
            target_centi: 4000,
            gated: false,
            terminal: false,
            ..
        },
        !noise_line(l) && !contains_seq(l, "Loading Whisper model"@) && !contains_seq(
            l,
            "Preparing audio"@,
        ) && contains_seq(l, "Chunking audio"@) ==> classify_spec(l)
            matches LineSignal::Phase {
            step: StepTag::ChunkingAudio,
            target_centi: 6000,
            gated: false,
            terminal: false,
            ..
        },
        !noise_line(l) && !contains_seq(l, "Loading Whisper model"@) && !contains_seq(
            l,
            "Preparing audio"@,
        ) && !contains_seq(l, "Chunking audio"@) && contains_seq(l, "Transcribing chunks"@)
            && pct_centi_of(l) is None ==> classify_spec(l) matches LineSignal::Phase {
            step: StepTag::Transcribing,
            target_centi: 8000,
            gated: true,
            terminal: false,
            ..
        },
        !noise_line(l) && !contains_seq(l, "Loading Whisper model"@) && !contains_seq(
            l,
            "Preparing audio"@,
        ) && !contains_seq(l, "Chunking audio"@) && contains_seq(l, "Transcribing chunks"@) ==> (
        pct_centi_of(l) matches Some(pc) ==> (classify_spec(l) matches LineSignal::Phase {
            step: StepTag::Transcribing,
            target_centi,
            gated: false,
            terminal: false,
            ..
        } && target_centi == pct_target_centi(pc))),
        !noise_line(l) && !contains_seq(l, "Loading Whisper model"@) && !contains_seq(
            l,
            "Preparing audio"@,
        ) && !contains_seq(l, "Chunking audio"@) && !contains_seq(l, "Transcribing chunks"@)
            && contains_seq(l, "Formatting result"@) ==> classify_spec(l)
            matches LineSignal::Phase {
            step: StepTag::Formatting,
            target_centi: 9500,
            gated: false,
            terminal: true,
            ..
        },
{
}

/// Every target a classification can name stays on the progress scale.
pub open spec fn signal_bounded(sig: LineSignal) -> bool {
    match sig {
        LineSignal::Phase { target_centi, .. } => target_centi <= 10000,
        _ => true,
    }
}

pub proof fn lemma_classify_bounded(l: Seq<char>)
    ensures
        signal_bounded(classify_spec(l)),
{
}

proof fn lemma_last_before_unique(s: Seq<char>, c: char, end: int, i: int, j: int)
    requires
        last_before(s, c, end, i),
        last_before(s, c, end, j),
    ensures
        i == j,
{
    if i < j {
        assert(s[j] != c);
    } else if j < i {
        assert(s[i] != c);
    }
}

fn pct_centi_exec(line: &str) -> (r: Option<u64>)
    ensures
        match r {
            Some(v) => pct_centi_of(line@) == Some(v as nat) && v < 2000000000000,
            None => pct_centi_of(line@) is None,
        },
{
    let p = match find_char(line, '%') {
        Some(p) => p,
        None => {
            proof {
                assert(forall|i: int| !first_at(line@, '%', i));
            }
            return None;
        },
    };
    proof {
        let pp = choose|i: int| first_at(line@, '%', i);
        lemma_first_at_unique(line@, '%', pp, p as int);
    }
    let bar = match rfind_char_before(line, '|', p) {
        Some(b) => b,
        None => {
            proof {
                assert(forall|i: int| !last_before(line@, '|', p as int, i));
            }
            return None;
        },
    };
    proof {
        let bb = choose|i: int| last_before(line@, '|', p as int, i);
        lemma_last_before_unique(line@, '|', p as int, bb, bar as int);
    }
    let sub = line.substring_char(bar + 1, p);
    let trimmed = trim_str(sub);
    parse_scaled(trimmed, 2)
}

/// Reads one diagnostic line.
pub fn classify_line(line: &str) -> (sig: LineSignal)
    ensures
        sig == classify_spec(line@),
        signal_bounded(sig),
{
    proof {
        lemma_classify_bounded(line@);
    }
    let trimmed = trim_str(line);
    if contains_sub(line, "UserWarning") || contains_sub(line, "warnings.warn")
        || trimmed.unicode_len() == 0 {
        return LineSignal::Discard;
    }
    if contains_sub(line, "Loading Whisper model") {
        return LineSignal::Phase {
            step: StepTag::LoadingModel,
            target_centi: LOADING_MODEL_CENTI,
            pct_whole: None,
            gated: false,
            terminal: false,
        };
    }
    if contains_sub(line, "Preparing audio") {
        return LineSignal::Phase {
            step: StepTag::PreparingAudio,
            target_centi: PREPARING_AUDIO_CENTI,
            pct_whole: None,
            gated: false,
            terminal: false,
        };
    }
    if contains_sub(line, "Chunking audio") {
        return LineSignal::Phase {
            step: StepTag::ChunkingAudio,
            target_centi: CHUNKING_AUDIO_CENTI,
            pct_whole: None,
            gated: false,
            terminal: false,
        };
    }
    if contains_sub(line, "Transcribing chunks") {
        match pct_centi_exec(line) {
            Some(pc) => {
                let t64: u64 = 6000 + (pc * 3) / 10;
                let target: u32 = if t64 > 10000 {
                    10000
                } else {
                    t64 as u32
                };
                let whole: u64 = (pc + 50) / 100;
                return LineSignal::Phase {
                    step: StepTag::Transcribing,
                    target_centi: target,
                    pct_whole: Some(whole),
                    gated: false,
                    terminal: false,
                };
            },
            None => {
                return LineSignal::Phase {
                    step: StepTag::Transcribing,
                    target_centi: TRANSCRIBING_FLAT_CENTI,
                    pct_whole: None,
                    gated: true,
                    terminal: false,
                };
            },
        }
    }
    if contains_sub(line, "Formatting result") {
        return LineSignal::Phase {
            step: StepTag::Formatting,
            target_centi: FORMATTING_CENTI,
            pct_whole: None,
            gated: false,
            terminal: true,
        };
    }
    LineSignal::NoSignal
}

/// The message text carried by an event for `step`; a transcription event
/// shows the whole-number percent when the line carried one.
pub open spec fn message_view(step: StepTag, pct: Option<u64>) -> Seq<char> {
    match step {
        StepTag::Initializing => "Starting transcription..."@,
        StepTag::LoadingModel => "Loading Whisper model..."@,
        StepTag::PreparingAudio => "Preparing audio..."@,
        StepTag::ChunkingAudio => "Chunking audio..."@,
        StepTag::Transcribing => match pct {
            Some(p) => "Transcribing chunks... "@ + dec_str(p as nat) + "%"@,
            None => "Transcribing chunks..."@,
        },
        StepTag::Formatting => "Formatting result..."@,
        StepTag::Processing => "Processing..."@,
        StepTag::Completed => "Transcription completed!"@,
    }
}

/// The message shown for `step`.
pub fn message_for(step: StepTag, pct: Option<u64>) -> (r: String)
    ensures
        r@ == message_view(step, pct),
{
    match step {
        StepTag::Initializing => String::from_str("Starting transcription..."),
        StepTag::LoadingModel => String::from_str("Loading Whisper model..."),
        StepTag::PreparingAudio => String::from_str("Preparing audio..."),
        StepTag::ChunkingAudio => String::from_str("Chunking audio..."),
        StepTag::Transcribing => {
            match pct {
                Some(p) => {
                    let mut s = String::from_str("Transcribing chunks... ");
                    let digits = u64_to_dec(p);
                    s.append(digits.as_str());
                    s.append("%");
                    proof {
                        assert(s@ =~= message_view(step, pct));
                    }
                    s
                },
                None => String::from_str("Transcribing chunks..."),
            }
        },
        StepTag::Formatting => String::from_str("Formatting result..."),
        StepTag::Processing => String::from_str("Processing..."),
        StepTag::Completed => String::from_str("Transcription completed!"),
    }
}

/// The progress baseline after a line's signal is applied: a phase target
/// raises the baseline, nothing lowers it.
pub open spec fn signal_next_progress(cur: u32, sig: LineSignal) -> u32 {
    match sig {
        LineSignal::Discard => cur,
        LineSignal::NoSignal => cur,
        LineSignal::Phase { target_centi, gated, .. } => {
            if gated && target_centi <= cur {
                cur
            } else if target_centi >= cur {
                target_centi
            } else {
                cur
            }
        },
    }
}

/// Whether the terminal phase has been seen once the signal is applied.
pub open spec fn signal_next_terminal(term: bool, sig: LineSignal) -> bool {
    match sig {
        LineSignal::Phase { terminal, .. } => term || terminal,
        _ => term,
    }
}

/// The event a signal emits at baseline `cur`: its step, its progress value
/// (the new baseline) and the percent shown in its message.
pub open spec fn signal_emission(cur: u32, sig: LineSignal) -> Option<(StepTag, u32, Option<u64>)> {
    match sig {
        LineSignal::Discard => None,
        LineSignal::NoSignal => None,
        LineSignal::Phase { step, target_centi, pct_whole, gated, .. } => {
            if gated && target_centi <= cur {
                None
            } else if target_centi >= cur {
                Some((step, target_centi, pct_whole))
            } else {
                Some((step, cur, pct_whole))
            }
        },
    }
}

/// The progress baseline after a time-based fallback check with `elapsed`
/// time units since the last phase change.
pub open spec fn tick_next_progress(cur: u32, term: bool, elapsed: nat) -> u32 {
    if elapsed > 3 && !term && cur < FALLBACK_CAP_CENTI {
        let bump = if elapsed * 20 > 200 {
            200
        } else {
            elapsed * 20
        };
        if cur + bump > FALLBACK_CAP_CENTI {
            FALLBACK_CAP_CENTI
        } else {
            (cur + bump) as u32
        }
    } else {
        cur
    }
}

/// The progress value a fallback check emits, when it emits at all.
pub open spec fn tick_emission(cur: u32, term: bool, elapsed: nat) -> Option<u32> {
    if elapsed > 3 && !term && cur < FALLBACK_CAP_CENTI {
        Some(tick_next_progress(cur, term, elapsed))
    } else {
        None
    }
}

/// The rolling baseline of one session: the highest progress reported so
/// far, and whether the terminal phase has been observed.
pub struct ProgressTracker {
    pub current_centi: u32,
    pub terminal_seen: bool,
}

impl ProgressTracker {
    /// The baseline stays on the progress scale.
    pub open spec fn wf(self) -> bool {
        self.current_centi <= 10000
    }

    pub fn new() -> (t: Self)
        ensures
            t.current_centi == 0,
            !t.terminal_seen,
            t.wf(),
    {
        ProgressTracker { current_centi: 0, terminal_seen: false }
    }

    /// Feeds one diagnostic line; returns the event to deliver, if any.
    pub fn on_line(&mut self, line: &str) -> (ev: Option<ProgressEvent>)
        requires
            old(self).wf(),
        ensures
            final(self).wf(),
            final(self).current_centi == signal_next_progress(
                old(self).current_centi,
                classify_spec(line@),
            ),
            final(self).terminal_seen == signal_next_terminal(
                old(self).terminal_seen,
                classify_spec(line@),
            ),
            final(self).current_centi >= old(self).current_centi,
            match signal_emission(old(self).current_centi, classify_spec(line@)) {
                None => ev is None,
                Some(t) => ev matches Some(e) && e.step == t.0 && e.progress_centi == t.1
                    && e.message@ == message_view(t.0, t.2) && t.1 == final(self).current_centi,
            },
    {
        let sig = classify_line(line);
        match sig {
            LineSignal::Discard => None,
            LineSignal::NoSignal => None,
            LineSignal::Phase { step, target_centi, pct_whole, gated, terminal } => {
                if gated && target_centi <= self.current_centi {
                    None
                } else {
                    let np = if target_centi >= self.current_centi {
                        target_centi
                    } else {
                        self.current_centi
                    };
                    self.current_centi = np;
                    self.terminal_seen = self.terminal_seen || terminal;
                    let msg = message_for(step, pct_whole);
                    Some(ProgressEvent { step, progress_centi: np, message: msg })
                }
            },
        }
    }

    /// The time-based fallback: nudges progress after a silent stretch, rate
    /// limited, never past `FALLBACK_CAP_CENTI`, and never once the terminal
    /// phase has been seen.
    pub fn on_tick(&mut self, elapsed_units: u64) -> (ev: Option<ProgressEvent>)
        requires
            old(self).wf(),
        ensures
            final(self).wf(),
            final(self).terminal_seen == old(self).terminal_seen,
            final(self).current_centi == tick_next_progress(
                old(self).current_centi,
                old(self).terminal_seen,
                elapsed_units as nat,
            ),
            final(self).current_centi >= old(self).current_centi,
            match tick_emission(
                old(self).current_centi,
                old(self).terminal_seen,
                elapsed_units as nat,
            ) {
                None => ev is None,
                Some(p) => ev matches Some(e) && e.step == StepTag::Processing
                    && e.progress_centi == p && e.message@ == message_view(
                    StepTag::Processing,
                    None,
                ) && p == final(self).current_centi,
            },
            old(self).terminal_seen ==> ev is None && *final(self) == *old(self),
            ev matches Some(e) ==> e.progress_centi <= FALLBACK_CAP_CENTI,
    {
        if elapsed_units > 3 && !self.terminal_seen && self.current_centi < FALLBACK_CAP_CENTI {
            let bump: u32 = if elapsed_units > 10 {
                200
            } else {
                (elapsed_units * 20) as u32
            };
            let np = if self.current_centi + bump > FALLBACK_CAP_CENTI {
                FALLBACK_CAP_CENTI
            } else {
                self.current_centi + bump
            };
            self.current_centi = np;
            let msg = message_for(StepTag::Processing, None);
            Some(ProgressEvent { step: StepTag::Processing, progress_centi: np, message: msg })
        } else {
            None
        }
    }
}

/// One step of a session as the tracker sees it: a classified line, or a
/// fallback check with the elapsed time units.
pub enum TrackerStep {
    Sig(LineSignal),
    Tick(u64),
}

/// The tracker state after one step.
pub open spec fn run_next(cur: u32, term: bool, st: TrackerStep) -> (u32, bool) {
    match st {
        TrackerStep::Sig(sig) => (signal_next_progress(cur, sig), signal_next_terminal(term, sig)),
        TrackerStep::Tick(e) => (tick_next_progress(cur, term, e as nat), term),
    }
}

/// The progress value one step emits, if any.
pub open spec fn run_emission(cur: u32, term: bool, st: TrackerStep) -> Option<u32> {
    match st {
        TrackerStep::Sig(sig) => match signal_emission(cur, sig) {
            Some(t) => Some(t.1),
            None => None,
        },
        TrackerStep::Tick(e) => tick_emission(cur, term, e as nat),
    }
}

/// The tracker state after a whole session.
pub open spec fn run_state(cur: u32, term: bool, steps: Seq<TrackerStep>) -> (u32, bool)
    decreases steps.len(),
{
    if steps.len() == 0 {
        (cur, term)
    } else {
        let s1 = run_next(cur, term, steps[0]);
        run_state(s1.0, s1.1, steps.drop_first())
    }
}

/// The progress values of all events a whole session emits, in order.
pub open spec fn run_events(cur: u32, term: bool, steps: Seq<TrackerStep>) -> Seq<u32>
    decreases steps.len(),
{
    if steps.len() == 0 {
        Seq::empty()
    } else {
        let head = match run_emission(cur, term, steps[0]) {
            Some(p) => seq![p],
            None => Seq::<u32>::empty(),
        };
        let s1 = run_next(cur, term, steps[0]);
        head + run_events(s1.0, s1.1, steps.drop_first())
    }
}

/// Each step only raises the baseline, and what it emits is the new baseline.
pub proof fn lemma_step_monotonic(cur: u32, term: bool, st: TrackerStep)
    ensures
        run_next(cur, term, st).0 >= cur,
        run_emission(cur, term, st) matches Some(p) ==> p == run_next(cur, term, st).0,
{
}

/// Every event of a session reports at least the baseline the session
/// started from.
proof fn lemma_run_events_lower_bound(cur: u32, term: bool, steps: Seq<TrackerStep>)
    ensures
        forall|k: int|
            0 <= k < run_events(cur, term, steps).len() ==> run_events(cur, term, steps)[k]
                >= cur,
    decreases steps.len(),
{
    if steps.len() > 0 {
        let s1 = run_next(cur, term, steps[0]);
        lemma_step_monotonic(cur, term, steps[0]);
        lemma_run_events_lower_bound(s1.0, s1.1, steps.drop_first());
        let evs = run_events(cur, term, steps);
        let rest = run_events(s1.0, s1.1, steps.drop_first());
        match run_emission(cur, term, steps[0]) {
            Some(p) => {
                assert(evs =~= seq![p] + rest);
                assert(forall|k: int| 0 <= k < rest.len() ==> rest[k] >= s1.0);
                assert(forall|k: int| 1 <= k < evs.len() ==> evs[k] == rest[k - 1]);
            },
            None => {
                assert(evs =~= rest);
            },
        }
    }
}

/// The progress values of the events observed over one session never
/// decrease, whatever lines arrive and whenever the fallback fires.
pub proof fn lemma_session_monotonic(cur: u32, term: bool, steps: Seq<TrackerStep>)
    ensures
        forall|i: int, j: int|
            0 <= i <= j < run_events(cur, term, steps).len() ==> run_events(cur, term, steps)[i]
                <= run_events(cur, term, steps)[j],
    decreases steps.len(),
{
    if steps.len() > 0 {
        let s1 = run_next(cur, term, steps[0]);
        lemma_step_monotonic(cur, term, steps[0]);
        lemma_run_events_lower_bound(s1.0, s1.1, steps.drop_first());
        lemma_session_monotonic(s1.0, s1.1, steps.drop_first());
        let evs = run_events(cur, term, steps);
        let rest = run_events(s1.0, s1.1, steps.drop_first());
        match run_emission(cur, term, steps[0]) {
            Some(p) => {
                assert(evs =~= seq![p] + rest);
                assert(forall|j: int| 0 <= j < rest.len() ==> p <= rest[j]);
            },
            None => {
                assert(evs =~= rest);
            },
        }
    }
}

/// Once the terminal phase has been seen, it stays seen for the rest of the
/// session.
pub proof fn lemma_terminal_sticky(cur: u32, steps: Seq<TrackerStep>)
    ensures
        run_state(cur, true, steps).1,
    decreases steps.len(),
{
    if steps.len() > 0 {
        let s1 = run_next(cur, true, steps[0]);
        lemma_terminal_sticky(s1.0, steps.drop_first());
    }
}

/// The time-based fallback never emits once the terminal phase has been
/// seen, and never reports progress above the fallback cap.
pub proof fn lemma_fallback_bounds(cur: u32, term: bool, elapsed: nat)
    ensures
        term ==> tick_emission(cur, term, elapsed) is None,
        tick_emission(cur, term, elapsed) matches Some(p) ==> p <= FALLBACK_CAP_CENTI,
{
}

/// Whether any fallback check of the session emits an event.
pub open spec fn run_has_tick_emission(cur: u32, term: bool, steps: Seq<TrackerStep>) -> bool
    decreases steps.len(),
{
    if steps.len() == 0 {
        false
    } else {
        let fired = match steps[0] {
            TrackerStep::Tick(e) => tick_emission(cur, term, e as nat) is Some,
            TrackerStep::Sig(_) => false,
        };
        let s1 = run_next(cur, term, steps[0]);
        fired || run_has_tick_emission(s1.0, s1.1, steps.drop_first())
    }
}

/// Once the terminal phase has been observed, no fallback check of the rest
/// of the session emits anything.
pub proof fn lemma_no_fallback_after_terminal(cur: u32, steps: Seq<TrackerStep>)
    ensures
        !run_has_tick_emission(cur, true, steps),
    decreases steps.len(),
{
    if steps.len() > 0 {
        let s1 = run_next(cur, true, steps[0]);
        assert(s1.1);
        lemma_no_fallback_after_terminal(s1.0, steps.drop_first());
    }
}

} // verus!
