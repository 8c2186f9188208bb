//! One invocation, from staging to a terminal outcome.
//!
//! The caller (the process glue around this crate) stages the input, spawns
//! the child and pumps its two streams; every decision along the way is made
//! here: which event a line yields, when the fallback fires, what the
//! accumulated output means, and whether the final hundred-percent event is
//! owed.  A session is single-shot: `Completed` and `Failed` are terminal.

use crate::extract::{extract_result, extraction_post, TranscriptionError, TranscriptionResult};
use crate::json::json_doc_of;
use crate::progress::{
    classify_spec, message_for, message_view, signal_emission, signal_next_progress,
    signal_next_terminal, tick_emission, tick_next_progress, ProgressEvent, ProgressTracker,
    StepTag, COMPLETED_CENTI, FALLBACK_CAP_CENTI,
};
use vstd::prelude::*;
use vstd::string::*;

verus! {

/// Where one invocation stands.
#[derive(Clone, Copy, Debug, PartialEq, Eq, Structural)]
pub enum SessionPhase {
    Staging,
    Running,
    Extracting,
    Completed,
    Failed,
}

/// The primary-stream accumulator: every line of the child's structured
/// output, each followed by a newline.
pub struct OutputBuffer {
    pub text: String,
}

impl OutputBuffer {
    pub fn new() -> (b: Self)
        ensures
            b.text@ == Seq::<char>::empty(),
    {
        OutputBuffer { text: String::new() }
    }

    /// Appends one line and the newline that ended it.
    pub fn push_line(&mut self, line: &str)
        ensures
            final(self).text@ == old(self).text@ + line@ + "\n"@,
    {
        self.text.append(line);
        self.text.append("\n");
    }

    /// The accumulated text, surrendered.
    pub fn into_text(self) -> (r: String)
        ensures
            r@ == self.text@,
    {
        self.text
    }
}

/// The state machine of one invocation.
pub struct Orchestration {
    pub phase: SessionPhase,
    pub tracker: ProgressTracker,
}

impl Orchestration {
    pub open spec fn wf(self) -> bool {
        self.tracker.wf()
    }

    /// A fresh session, about to stage its input.
    pub fn new() -> (s: Self)
        ensures
            s.phase == SessionPhase::Staging,
            s.tracker.current_centi == 0,
            !s.tracker.terminal_seen,
            s.wf(),
    {
        Orchestration { phase: SessionPhase::Staging, tracker: ProgressTracker::new() }
    }

    /// The event announced as soon as a session starts.
    pub fn initial_event() -> (ev: ProgressEvent)
        ensures
            ev.step == StepTag::Initializing,
            ev.progress_centi == 0,
            ev.message@ == message_view(StepTag::Initializing, None),
    {
        let msg = message_for(StepTag::Initializing, None);
        ProgressEvent { step: StepTag::Initializing, progress_centi: 0, message: msg }
    }

    /// The input was staged; the child may now run.
    pub fn staged(&mut self)
        requires
            old(self).phase == SessionPhase::Staging,
            old(self).wf(),
        ensures
            final(self).phase == SessionPhase::Running,
            final(self).tracker == old(self).tracker,
            final(self).wf(),
    {
        self.phase = SessionPhase::Running;
    }

    /// The input could not be written: fatal.
    pub fn fail_staging(&mut self, msg: String) -> (e: TranscriptionError)
        requires
            old(self).phase == SessionPhase::Staging,
        ensures
            final(self).phase == SessionPhase::Failed,
            final(self).tracker == old(self).tracker,
            e matches TranscriptionError::Staging(m) && m == msg,
    {
        self.phase = SessionPhase::Failed;
        TranscriptionError::Staging(msg)
    }

    /// The child could not be started: fatal.
    pub fn fail_spawn(&mut self, msg: String) -> (e: TranscriptionError)
        requires
            old(self).phase == SessionPhase::Running,
        ensures
            final(self).phase == SessionPhase::Failed,
            final(self).tracker == old(self).tracker,
            e matches TranscriptionError::Spawn(m) && m == msg,
    {
        self.phase = SessionPhase::Failed;
        TranscriptionError::Spawn(msg)
    }

    /// The child's exit could not be observed: fatal.
    pub fn fail_wait(&mut self, msg: String) -> (e: TranscriptionError)
        requires
            old(self).phase == SessionPhase::Running,
        ensures
            final(self).phase == SessionPhase::Failed,
            final(self).tracker == old(self).tracker,
            e matches TranscriptionError::Wait(m) && m == msg,
    {
        self.phase = SessionPhase::Failed;
        TranscriptionError::Wait(msg)
    }

    /// One diagnostic line arrived while the child runs.
    pub fn diagnostic_line(&mut self, line: &str) -> (ev: Option<ProgressEvent>)
        requires
            old(self).phase == SessionPhase::Running,
            old(self).wf(),
        ensures
            final(self).phase == SessionPhase::Running,
            final(self).wf(),
            final(self).tracker.current_centi == signal_next_progress(
                old(self).tracker.current_centi,
                classify_spec(line@),
            ),
            final(self).tracker.terminal_seen == signal_next_terminal(
                old(self).tracker.terminal_seen,
                classify_spec(line@),
            ),
            final(self).tracker.current_centi >= old(self).tracker.current_centi,
            match signal_emission(old(self).tracker.current_centi, classify_spec(line@)) {
                None => ev is None,
                Some(t) => ev matches Some(e) && e.step == t.0 && e.progress_centi == t.1
                    && e.message@ == message_view(t.0, t.2),
            },
    {
        self.tracker.on_line(line)
    }

    /// A silence check while the child runs.
    pub fn fallback_tick(&mut self, elapsed_units: u64) -> (ev: Option<ProgressEvent>)
        requires
            old(self).phase == SessionPhase::Running,
            old(self).wf(),
        ensures
            final(self).phase == SessionPhase::Running,
            final(self).wf(),
            final(self).tracker.terminal_seen == old(self).tracker.terminal_seen,
            final(self).tracker.current_centi == tick_next_progress(
                old(self).tracker.current_centi,
                old(self).tracker.terminal_seen,
                elapsed_units as nat,
            ),
            final(self).tracker.current_centi >= old(self).tracker.current_centi,
            match tick_emission(
                old(self).tracker.current_centi,
                old(self).tracker.terminal_seen,
                elapsed_units as nat,
            ) {
                None => ev is None,
                Some(p) => ev matches Some(e) && e.step == StepTag::Processing
                    && e.progress_centi == p,
            },
            old(self).tracker.terminal_seen ==> ev is None,
            ev matches Some(e) ==> e.progress_centi <= FALLBACK_CAP_CENTI,
    {
        self.tracker.on_tick(elapsed_units)
    }

    /// The child exited and both pumps were joined: interpret the
    /// accumulated primary-stream text.  The hundred-percent event is owed
    /// exactly when the exit status was a success and extraction succeeded;
    /// a fatal or semantic failure never earns it.
    pub fn child_exited(&mut self, exit_ok: bool, raw: &str) -> (r: (
        Option<ProgressEvent>,
        Result<TranscriptionResult, TranscriptionError>,
    ))
        requires
            old(self).phase == SessionPhase::Running,
            old(self).wf(),
        ensures
            final(self).wf(),
            final(self).tracker == old(self).tracker,
            match json_doc_of(raw@) {
                None => r.1 matches Err(TranscriptionError::MalformedOutput(m)) && m@ == raw@,
                Some(t) => extraction_post(t, r.1),
            },
            final(self).phase == if r.1 is Ok {
                SessionPhase::Completed
            } else {
                SessionPhase::Failed
            },
            match r.0 {
                Some(e) => exit_ok && r.1 is Ok && e.step == StepTag::Completed
                    && e.progress_centi == COMPLETED_CENTI && e.message@ == message_view(
                    StepTag::Completed,
                    None,
                ),
                None => !(exit_ok && r.1 is Ok),
            },
    {
        self.phase = SessionPhase::Extracting;
        let res = extract_result(raw);
        let ok = res.is_ok();
        self.phase = if ok {
            SessionPhase::Completed
        } else {
            SessionPhase::Failed
        };
        let ev = if exit_ok && ok {
            let msg = message_for(StepTag::Completed, None);
            Some(
                ProgressEvent {
                    step: StepTag::Completed,
                    progress_centi: COMPLETED_CENTI,
                    message: msg,
                },
            )
        } else {
            None
        };
        (ev, res)
    }
}

/// The single-slot cache of the last transcription text, owned by the
/// caller; updated only on completed work.
pub struct TranscriptStore {
    pub last_text: String,
}

impl TranscriptStore {
    pub fn new() -> (s: Self)
        ensures
            s.last_text@ == Seq::<char>::empty(),
    {
        TranscriptStore { last_text: String::new() }
    }

    /// Overwrites the slot with the text of a completed run or save.
    pub fn record(&mut self, text: &str)
        ensures
            final(self).last_text@ == text@,
    {
        self.last_text = String::from_str(text);
    }

    /// The last recorded text.
    pub fn last(&self) -> (r: String)
        ensures
            r@ == self.last_text@,
    {
        self.last_text.clone()
    }
}

} // verus!
