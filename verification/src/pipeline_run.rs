//! One pipeline run as a sequence of decisions: each outcome of the outside
//! work (the audio check, the transcription call, reading the stored
//! transcript, the summary call) is turned into the changes to record and
//! the next piece of work, or the run's result.
use crate::command_core::{schedules_retry, should_schedule_retry, PipelineInvocation};
use crate::pipeline::{
    completion, explain_transcription_error, explained_error, needs_summary, needs_transcription,
    transcript_for_summary, PipelineMode,
};
use crate::session::{
    keeps_details, mark_pipeline_audio_missing, mark_pipeline_done, mark_pipeline_summary_failed,
    mark_pipeline_transcribed, mark_pipeline_transcription_failed, SessionMeta, SessionStatus,
};
use crate::text;
use vstd::prelude::*;

verus! {

broadcast use vstd::string::group_string_axioms;

/// What a run is: its steps, who started it, and the transcription secret
/// it was given (with the secret store's error when it had none).
pub struct PipelineRun {
    pub mode: PipelineMode,
    pub invocation: PipelineInvocation,
    pub provider: String,
    pub secret: String,
    pub lookup_error: Option<String>,
}

/// The outcome of a piece of outside work.
pub enum PipelineEvent {
    /// The audio file was looked for.
    AudioChecked { exists: bool },
    /// The transcription provider answered.
    Transcribed(Result<String, String>),
    /// The stored transcript was read (`None`: it could not be read).
    StoredTranscriptRead(Option<String>),
    /// The summary service answered.
    Summarized(Result<String, String>),
}

/// A change to record, in the order given.
#[derive(Debug, PartialEq, Eq)]
pub enum PipelineEffect {
    /// Write the transcript file.
    WriteTranscript(String),
    /// Write the summary file.
    WriteSummary(String),
    /// Save the session record and its catalog row.
    SaveRecord,
    /// Add an entry to the session's event log.
    LogEvent { event_type: String, detail: String },
    /// Schedule a retry of the run for this failure.
    ScheduleRetry(String),
    /// Drop a pending retry.
    ClearRetry,
}

/// What comes after the changes.
#[derive(Debug, PartialEq, Eq)]
pub enum PipelineNext {
    Transcribe,
    ReadStoredTranscript,
    Summarize(String),
    /// The run is over with this result.
    Return(Result<String, String>),
}

#[derive(Debug)]
pub struct PipelineStep {
    pub effects: Vec<PipelineEffect>,
    pub next: PipelineNext,
}

pub enum EffectView {
    WriteTranscript(Seq<char>),
    WriteSummary(Seq<char>),
    SaveRecord,
    LogEvent(Seq<char>, Seq<char>),
    ScheduleRetry(Seq<char>),
    ClearRetry,
}

pub enum NextView {
    Transcribe,
    ReadStoredTranscript,
    Summarize(Seq<char>),
    Return(Result<Seq<char>, Seq<char>>),
}

pub open spec fn effect_view(e: PipelineEffect) -> EffectView {
    match e {
        PipelineEffect::WriteTranscript(t) => EffectView::WriteTranscript(t@),
        PipelineEffect::WriteSummary(t) => EffectView::WriteSummary(t@),
        PipelineEffect::SaveRecord => EffectView::SaveRecord,
        PipelineEffect::LogEvent { event_type, detail } => EffectView::LogEvent(
            event_type@,
            detail@,
        ),
        PipelineEffect::ScheduleRetry(d) => EffectView::ScheduleRetry(d@),
        PipelineEffect::ClearRetry => EffectView::ClearRetry,
    }
}

pub open spec fn effect_views(v: Seq<PipelineEffect>) -> Seq<EffectView> {
    v.map_values(|e: PipelineEffect| effect_view(e))
}

pub open spec fn next_view(n: PipelineNext) -> NextView {
    match n {
        PipelineNext::Transcribe => NextView::Transcribe,
        PipelineNext::ReadStoredTranscript => NextView::ReadStoredTranscript,
        PipelineNext::Summarize(t) => NextView::Summarize(t@),
        PipelineNext::Return(Ok(o)) => NextView::Return(Ok(o@)),
        PipelineNext::Return(Err(e)) => NextView::Return(Err(e@)),
    }
}

/// A failed step: the record is saved, the failure logged, and a retry
/// scheduled when the run's starter asks for retries.
pub open spec fn failure_effects(detail: Seq<char>, invocation: PipelineInvocation) -> Seq<
    EffectView,
> {
    let base = seq![EffectView::SaveRecord, EffectView::LogEvent("pipeline_failed"@, detail)];
    if schedules_retry(invocation) {
        base.push(EffectView::ScheduleRetry(detail))
    } else {
        base
    }
}

/// A full run that succeeds drops its pending retry.
pub open spec fn finish_effects(mode: PipelineMode) -> Seq<EffectView> {
    if mode == PipelineMode::Full {
        seq![EffectView::ClearRetry]
    } else {
        seq![]
    }
}

/// What a successful run reports.
pub open spec fn outcome(mode: PipelineMode) -> Seq<char> {
    if mode == PipelineMode::TranscriptionOnly {
        "transcribed"@
    } else {
        "done"@
    }
}

/// The record failed with `detail` appended to its errors.
pub open spec fn failed_with(before: SessionMeta, after: SessionMeta, detail: Seq<char>) -> bool {
    &&& after.status == SessionStatus::Failed
    &&& after.errors@.len() == before.errors@.len() + 1
    &&& after.errors@.subrange(0, before.errors@.len() as int) == before.errors@
    &&& after.errors@.last()@ == detail
}

/// The record with only its status changed.
pub open spec fn moved_to(before: SessionMeta, after: SessionMeta, status: SessionStatus) -> bool {
    after.status == status && after.errors == before.errors
}

pub open spec fn opt_string(o: Option<String>) -> Option<Seq<char>> {
    match o {
        Some(s) => Some(s@),
        None => None,
    }
}

/// What each outcome leads to.
pub open spec fn step_spec(
    run: PipelineRun,
    before: SessionMeta,
    after: SessionMeta,
    event: PipelineEvent,
    effects: Seq<EffectView>,
    next: NextView,
) -> bool {
    match event {
        PipelineEvent::AudioChecked { exists } => if !exists {
            let d = "Audio file is missing"@;
            failed_with(before, after, d) && effects == failure_effects(d, run.invocation) && next
                == NextView::Return(Err(d))
        } else {
            after == before && effects == Seq::<EffectView>::empty() && next == (if needs_transcription_spec(run.mode) {
                NextView::Transcribe
            } else {
                NextView::ReadStoredTranscript
            })
        },
        PipelineEvent::Transcribed(Err(e)) => {
            let x = explained_error(e@, run.provider@, run.secret@, opt_string(run.lookup_error));
            let d = "Transcription error: "@ + x;
            failed_with(before, after, d) && effects == failure_effects(d, run.invocation) && next
                == NextView::Return(Err(x))
        },
        PipelineEvent::Transcribed(Ok(t)) => {
            let saved = seq![
                EffectView::WriteTranscript(t@),
                EffectView::SaveRecord,
                EffectView::LogEvent("transcribed"@, "Transcript created"@),
            ];
            moved_to(before, after, SessionStatus::Transcribed) && if needs_summary_spec(run.mode) {
                effects == saved && next == NextView::Summarize(t@)
            } else {
                effects == saved + finish_effects(run.mode) && next == NextView::Return(
                    Ok(outcome(run.mode)),
                )
            }
        },
        PipelineEvent::StoredTranscriptRead(None) => after == before && effects == Seq::<
            EffectView,
        >::empty() && next == NextView::Return(Err("Transcript file is missing"@)),
        PipelineEvent::StoredTranscriptRead(Some(c)) => after == before && effects == Seq::<
            EffectView,
        >::empty() && next == (if text::trim(c@).len() == 0 {
            NextView::Return(Err("Transcript file is empty"@))
        } else {
            NextView::Summarize(text::trim(c@))
        }),
        PipelineEvent::Summarized(Err(e)) => {
            let d = "Summary error: "@ + e@;
            failed_with(before, after, d) && effects == failure_effects(d, run.invocation) && next
                == NextView::Return(Err(e@))
        },
        PipelineEvent::Summarized(Ok(s)) => {
            moved_to(before, after, SessionStatus::Done) && effects == seq![
                EffectView::WriteSummary(s@),
                EffectView::SaveRecord,
                EffectView::LogEvent("pipeline_done"@, "Summary created"@),
            ] + finish_effects(run.mode) && next == NextView::Return(Ok(outcome(run.mode)))
        },
    }
}

pub open spec fn needs_transcription_spec(mode: PipelineMode) -> bool {
    mode == PipelineMode::Full || mode == PipelineMode::TranscriptionOnly
}

pub open spec fn needs_summary_spec(mode: PipelineMode) -> bool {
    mode == PipelineMode::Full || mode == PipelineMode::SummaryOnly
}

fn log_event(event_type: &str, detail: String) -> (e: PipelineEffect)
    ensures
        effect_view(e) == EffectView::LogEvent(event_type@, detail@),
{
    PipelineEffect::LogEvent { event_type: event_type.to_string(), detail }
}

/// The effects of a failure (the record has been marked already).
fn failure_step(detail: String, error: String, invocation: PipelineInvocation) -> (s: PipelineStep)
    ensures
        effect_views(s.effects@) == failure_effects(detail@, invocation),
        next_view(s.next) == NextView::Return(Err(error@)),
{
    let mut effects: Vec<PipelineEffect> = Vec::new();
    effects.push(PipelineEffect::SaveRecord);
    effects.push(log_event("pipeline_failed", detail.clone()));
    if should_schedule_retry(invocation) {
        effects.push(PipelineEffect::ScheduleRetry(detail));
    }
    assert(effect_views(effects@) =~= failure_effects(detail@, invocation));
    PipelineStep { effects, next: PipelineNext::Return(Err(error)) }
}

/// Ends a successful run: a full run drops its pending retry.
fn finish_step(effects: Vec<PipelineEffect>, mode: PipelineMode) -> (s: PipelineStep)
    ensures
        effect_views(s.effects@) == effect_views(effects@) + finish_effects(mode),
        next_view(s.next) == NextView::Return(Ok(outcome(mode))),
{
    let mut effects = effects;
    let ghost before = effect_views(effects@);
    let (result, clears_retry) = completion(mode);
    if clears_retry {
        effects.push(PipelineEffect::ClearRetry);
    }
    assert(effect_views(effects@) =~= before + finish_effects(mode));
    PipelineStep { effects, next: PipelineNext::Return(Ok(result.to_string())) }
}

/// Decides what an outcome leads to, marking the session record on the way.
pub fn pipeline_step(run: &PipelineRun, meta: &mut SessionMeta, event: PipelineEvent) -> (s:
    PipelineStep)
    ensures
        keeps_details(*old(meta), *final(meta)),
        step_spec(*run, *old(meta), *final(meta), event, effect_views(s.effects@), next_view(s.next)),
{
    match event {
        PipelineEvent::AudioChecked { exists } => {
            if !exists {
                let detail = mark_pipeline_audio_missing(meta);
                assert(meta.errors@.subrange(0, old(meta).errors@.len() as int) =~= old(meta).errors@);
                let error = detail.clone();
                failure_step(detail, error, run.invocation)
            } else {
                let next = if needs_transcription(run.mode) {
                    PipelineNext::Transcribe
                } else {
                    PipelineNext::ReadStoredTranscript
                };
                let s = PipelineStep { effects: Vec::new(), next };
                assert(effect_views(s.effects@) =~= Seq::<EffectView>::empty());
                s
            }
        },
        PipelineEvent::Transcribed(Err(e)) => {
            let lookup = match &run.lookup_error {
                Some(k) => Some(k.as_str()),
                None => None,
            };
            let error = explain_transcription_error(
                e.as_str(),
                run.provider.as_str(),
                run.secret.as_str(),
                lookup,
            );
            let detail = mark_pipeline_transcription_failed(meta, error.as_str());
            assert(meta.errors@.subrange(0, old(meta).errors@.len() as int) =~= old(meta).errors@);
            failure_step(detail, error, run.invocation)
        },
        PipelineEvent::Transcribed(Ok(t)) => {
            mark_pipeline_transcribed(meta);
            let mut effects: Vec<PipelineEffect> = Vec::new();
            effects.push(PipelineEffect::WriteTranscript(t.clone()));
            effects.push(PipelineEffect::SaveRecord);
            effects.push(log_event("transcribed", "Transcript created".to_string()));
            let ghost saved = seq![
                EffectView::WriteTranscript(t@),
                EffectView::SaveRecord,
                EffectView::LogEvent("transcribed"@, "Transcript created"@),
            ];
            assert(effect_views(effects@) =~= saved);
            if needs_summary(run.mode) {
                PipelineStep { effects, next: PipelineNext::Summarize(t) }
            } else {
                finish_step(effects, run.mode)
            }
        },
        PipelineEvent::StoredTranscriptRead(None) => {
            let s = PipelineStep {
                effects: Vec::new(),
                next: PipelineNext::Return(Err("Transcript file is missing".to_string())),
            };
            assert(effect_views(s.effects@) =~= Seq::<EffectView>::empty());
            s
        },
        PipelineEvent::StoredTranscriptRead(Some(c)) => {
            let next = match transcript_for_summary(c.as_str()) {
                Ok(text) => PipelineNext::Summarize(text),
                Err(e) => PipelineNext::Return(Err(e)),
            };
            let s = PipelineStep { effects: Vec::new(), next };
            assert(effect_views(s.effects@) =~= Seq::<EffectView>::empty());
            s
        },
        PipelineEvent::Summarized(Err(e)) => {
            let detail = mark_pipeline_summary_failed(meta, e.as_str());
            assert(meta.errors@.subrange(0, old(meta).errors@.len() as int) =~= old(meta).errors@);
            failure_step(detail, e, run.invocation)
        },
        PipelineEvent::Summarized(Ok(summary)) => {
            mark_pipeline_done(meta);
            let mut effects: Vec<PipelineEffect> = Vec::new();
            let ghost sv = summary@;
            effects.push(PipelineEffect::WriteSummary(summary));
            effects.push(PipelineEffect::SaveRecord);
            effects.push(log_event("pipeline_done", "Summary created".to_string()));
            assert(effect_views(effects@) =~= seq![
                EffectView::WriteSummary(sv),
                EffectView::SaveRecord,
                EffectView::LogEvent("pipeline_done"@, "Summary created"@),
            ]);
            finish_step(effects, run.mode)
        },
    }
}

} // verus!
