//! The compaction of the history of a session: the transcript is archived, and a summary,
//! which the session memory or the model gives, takes the place of all but its end.

use vstd::prelude::*;
use vstd::string::*;

use crate::compaction::{
    apply_compaction_plan, compacted, compaction_plan_from_snapshot, has_compactable_messages,
    law_compaction_keeps_the_live_tail, legacy_compaction_plan, memory_plan,
    split_history_for_compaction, summarizer_messages, summary_instructions, summary_request,
    tail_from, worth_compacting, CompactionPlan, CompactionPlanView, CompactionSnapshot,
    CompactionSnapshotView, CompactionSource, CompactionTrigger,
};
use crate::context::{
    turn_diagnostics, MemoryDiagnosticsView, MemoryReason, MemoryStatus, Session, SessionView,
};
use crate::error::{failure, failure_text, CoreError, CoreErrorView, FailedTask};
use crate::message::{text_message, Message, MessageView, Role};
use crate::model_call::{summarize_history, summary_of, ModelReply, ModelReplyView};

verus! {

broadcast use vstd::seq::group_seq_axioms;

/// What a compaction waits for.
#[derive(Clone, Copy, Debug, PartialEq, Eq, Structural)]
pub enum CompactionPhase {
    /// The archive of the transcript.
    Archiving,
    /// What the session memory holds.
    ReadingMemory,
    /// A summary of the model.
    Summarizing,
    /// Nothing: it is over.
    Over,
}

impl DeepView for CompactionPhase {
    type V = CompactionPhase;

    open spec fn deep_view(&self) -> CompactionPhase {
        *self
    }
}

/// How a compaction ended.
#[derive(Debug)]
pub enum CompactionOutcome {
    /// There was nothing to compact.
    Unneeded,
    Done,
    Failed(CoreError),
}

/// The model of [`CompactionOutcome`].
#[verifier::ext_equal]
pub enum CompactionOutcomeView {
    Unneeded,
    Done,
    Failed(CoreErrorView),
}

impl DeepView for CompactionOutcome {
    type V = CompactionOutcomeView;

    open spec fn deep_view(&self) -> CompactionOutcomeView {
        match *self {
            CompactionOutcome::Unneeded => CompactionOutcomeView::Unneeded,
            CompactionOutcome::Done => CompactionOutcomeView::Done,
            CompactionOutcome::Failed(value) => CompactionOutcomeView::Failed(value.deep_view()),
        }
    }
}

/// What the host of a compaction has to do next.
#[derive(Debug)]
pub enum CompactionAction {
    /// Archive the history under this number.
    Archive { generation: u64 },
    ReadMemory,
    /// Send these messages to the model.
    Summarize(Vec<Message>),
    Finished(CompactionOutcome),
}

/// The model of [`CompactionAction`].
#[verifier::ext_equal]
pub enum CompactionActionView {
    Archive { generation: u64 },
    ReadMemory,
    Summarize(Seq<MessageView>),
    Finished(CompactionOutcomeView),
}

impl DeepView for CompactionAction {
    type V = CompactionActionView;

    open spec fn deep_view(&self) -> CompactionActionView {
        match *self {
            CompactionAction::Archive { generation } => CompactionActionView::Archive {
                generation,
            },
            CompactionAction::ReadMemory => CompactionActionView::ReadMemory,
            CompactionAction::Summarize(value) => CompactionActionView::Summarize(
                value.deep_view(),
            ),
            CompactionAction::Finished(value) => CompactionActionView::Finished(value.deep_view()),
        }
    }
}

/// What came of an action.
#[derive(Debug)]
pub enum CompactionEvent {
    /// A reference to the archive.
    Archived(String),
    ArchivingFailed(String),
    Memory(Option<CompactionSnapshot>),
    Summary(ModelReply),
    SummaryFailed(CoreError),
}

/// The model of [`CompactionEvent`].
#[verifier::ext_equal]
pub enum CompactionEventView {
    Archived(Seq<char>),
    ArchivingFailed(Seq<char>),
    Memory(Option<CompactionSnapshotView>),
    Summary(ModelReplyView),
    SummaryFailed(CoreErrorView),
}

impl DeepView for CompactionEvent {
    type V = CompactionEventView;

    open spec fn deep_view(&self) -> CompactionEventView {
        match *self {
            CompactionEvent::Archived(value) => CompactionEventView::Archived(value.deep_view()),
            CompactionEvent::ArchivingFailed(value) => CompactionEventView::ArchivingFailed(
                value.deep_view(),
            ),
            CompactionEvent::Memory(value) => CompactionEventView::Memory(value.deep_view()),
            CompactionEvent::Summary(value) => CompactionEventView::Summary(value.deep_view()),
            CompactionEvent::SummaryFailed(value) => CompactionEventView::SummaryFailed(
                value.deep_view(),
            ),
        }
    }
}

/// A compaction.
#[derive(Debug)]
pub struct CompactionRun {
    pub trigger: CompactionTrigger,
    pub phase: CompactionPhase,
    pub generation: u64,
    pub archive_ref: String,
}

/// The model of [`CompactionRun`].
#[verifier::ext_equal]
pub struct CompactionRunView {
    pub trigger: CompactionTrigger,
    pub phase: CompactionPhase,
    pub generation: u64,
    pub archive_ref: Seq<char>,
}

impl DeepView for CompactionRun {
    type V = CompactionRunView;

    open spec fn deep_view(&self) -> CompactionRunView {
        CompactionRunView {
            trigger: self.trigger,
            phase: self.phase,
            generation: self.generation,
            archive_ref: self.archive_ref.deep_view(),
        }
    }
}

/// A compaction, its session and what comes next.
#[verifier::ext_equal]
pub struct CompactionMove {
    pub run: CompactionRunView,
    pub session: SessionView,
    pub action: CompactionActionView,
}

/// The start of a compaction. There is something to compact if a message stands in front of
/// the live end of the history that is no system message.
pub open spec fn compaction_begun(
    session: SessionView,
    trigger: CompactionTrigger,
) -> CompactionMove {
    let run = CompactionRunView {
        trigger,
        phase: CompactionPhase::Archiving,
        generation: (session.compaction_generation + 1) as u64,
        archive_ref: Seq::empty(),
    };
    if worth_compacting(session.history) {
        CompactionMove {
            run,
            session,
            action: CompactionActionView::Archive { generation: run.generation },
        }
    } else {
        CompactionMove {
            run: CompactionRunView { phase: CompactionPhase::Over, ..run },
            session,
            action: CompactionActionView::Finished(CompactionOutcomeView::Unneeded),
        }
    }
}

/// A compaction that failed. The session stays as it is.
pub open spec fn compaction_failed(
    run: CompactionRunView,
    session: SessionView,
    error: CoreErrorView,
) -> CompactionMove {
    CompactionMove {
        run: CompactionRunView { phase: CompactionPhase::Over, ..run },
        session,
        action: CompactionActionView::Finished(CompactionOutcomeView::Failed(error)),
    }
}

/// A compaction that is done according to a plan.
pub open spec fn compaction_done(
    run: CompactionRunView,
    session: SessionView,
    plan: CompactionPlanView,
) -> CompactionMove {
    let from_memory = plan.source == CompactionSource::SessionMemory;
    CompactionMove {
        run: CompactionRunView { phase: CompactionPhase::Over, ..run },
        session: SessionView {
            history: compacted(
                session.history,
                plan.summary,
                run.archive_ref,
                session.history.skip(plan.tail_start as int),
            ),
            last_input_tokens: None,
            compaction_generation: run.generation,
            diagnostics: Some(
                MemoryDiagnosticsView {
                    compaction_status: if from_memory {
                        MemoryStatus::Succeeded
                    } else {
                        MemoryStatus::Skipped
                    },
                    compaction_source: Some(plan.source),
                    compaction_reason: if from_memory {
                        None
                    } else {
                        Some(MemoryReason::Fallback)
                    },
                    compaction_tail_start: Some(plan.tail_start),
                    ..turn_diagnostics(session)
                },
            ),
            ..session
        },
        action: CompactionActionView::Finished(CompactionOutcomeView::Done),
    }
}

/// The model is asked for a summary.
pub open spec fn summary_asked(run: CompactionRunView, session: SessionView) -> CompactionMove {
    let prefix = session.history.take(tail_from(session.history));
    CompactionMove {
        run: CompactionRunView { phase: CompactionPhase::Summarizing, ..run },
        session,
        action: CompactionActionView::Summarize(
            seq![
                text_message(Role::System, summary_instructions()),
                text_message(Role::User, summary_request(run.archive_ref, run.trigger, prefix)),
            ],
        ),
    }
}

/// What an event does to a compaction and its session.
pub open spec fn compaction_move(
    run: CompactionRunView,
    session: SessionView,
    event: CompactionEventView,
) -> CompactionMove {
    match event {
        CompactionEventView::Archived(archive_ref) => CompactionMove {
            run: CompactionRunView { phase: CompactionPhase::ReadingMemory, archive_ref, ..run },
            session,
            action: CompactionActionView::ReadMemory,
        },
        CompactionEventView::ArchivingFailed(error) => compaction_failed(
            run,
            session,
            CoreErrorView::Internal {
                message: failure_text(FailedTask::ArchiveTranscript) + error,
            },
        ),
        CompactionEventView::Memory(snapshot) => match snapshot {
            Some(snapshot) => match memory_plan(
                session.history,
                session.memory.last_summarized_message_index,
                snapshot,
            ) {
                Some(plan) => compaction_done(run, session, plan),
                None => summary_asked(run, session),
            },
            None => summary_asked(run, session),
        },
        CompactionEventView::Summary(reply) => match summary_of(reply) {
            Some(summary) => compaction_done(
                run,
                session,
                CompactionPlanView {
                    source: CompactionSource::LegacySummarizer,
                    summary,
                    tail_start: tail_from(session.history) as usize,
                },
            ),
            None => compaction_failed(
                run,
                session,
                CoreErrorView::LlmError {
                    message: "summarizer unexpectedly requested tool calls"@,
                },
            ),
        },
        CompactionEventView::SummaryFailed(error) => compaction_failed(run, session, error),
    }
}

/// Whether an event is one that a compaction waits for.
pub open spec fn compaction_awaits(run: CompactionRunView, event: CompactionEventView) -> bool {
    match event {
        CompactionEventView::Archived(_) | CompactionEventView::ArchivingFailed(_) => run.phase
            == CompactionPhase::Archiving,
        CompactionEventView::Memory(_) => run.phase == CompactionPhase::ReadingMemory,
        CompactionEventView::Summary(_) | CompactionEventView::SummaryFailed(_) => run.phase
            == CompactionPhase::Summarizing,
    }
}

/// A compaction changes the history only when it is done, and then its live end is still the
/// end of the history. It counts one more archive then, and none otherwise.
pub proof fn law_compaction(
    run: CompactionRunView,
    session: SessionView,
    event: CompactionEventView,
)
    requires
        compaction_awaits(run, event),
        session.history.len() <= usize::MAX,
    ensures
        ({
            let after = compaction_move(run, session, event);
            let tail = session.history.skip(tail_from(session.history));
            if after.action == CompactionActionView::Finished(CompactionOutcomeView::Done) {
                &&& tail.is_suffix_of(after.session.history)
                &&& after.session.compaction_generation == run.generation
                &&& after.session.last_input_tokens is None
            } else {
                after.session == session
            }
        }),
{
    let history = session.history;
    let live = tail_from(history);
    crate::compaction::lemma_tail_from(history);
    match event {
        CompactionEventView::Memory(Some(snapshot)) => {
            if let Some(plan) = memory_plan(
                history,
                session.memory.last_summarized_message_index,
                snapshot,
            ) {
                lemma_tail_stays(run, session, plan);
            }
        },
        CompactionEventView::Summary(reply) => {
            if let Some(summary) = summary_of(reply) {
                lemma_tail_stays(
                    run,
                    session,
                    CompactionPlanView {
                        source: CompactionSource::LegacySummarizer,
                        summary,
                        tail_start: live as usize,
                    },
                );
            }
        },
        _ => {},
    }
}

proof fn lemma_tail_stays(run: CompactionRunView, session: SessionView, plan: CompactionPlanView)
    requires
        plan.tail_start <= tail_from(session.history) <= session.history.len(),
    ensures
        session.history.skip(tail_from(session.history)).is_suffix_of(
            compaction_done(run, session, plan).session.history,
        ),
{
    law_compaction_keeps_the_live_tail(
        session.history,
        plan.summary,
        run.archive_ref,
        plan.tail_start as int,
    );
}

/// Whether a compaction, its session and the action are those of a move.
pub open spec fn compaction_moved(
    expected: CompactionMove,
    run: CompactionRun,
    session: Session,
    action: CompactionAction,
) -> bool {
    &&& run.deep_view() == expected.run
    &&& session.deep_view() == expected.session
    &&& action.deep_view() == expected.action
}

impl CompactionRun {
    /// Starts a compaction.
    pub fn begin(session: &Session, trigger: CompactionTrigger) -> (r: (
        CompactionRun,
        CompactionAction,
    ))
        requires
            session.deep_view().compaction_generation < u64::MAX,
        ensures
            compaction_moved(
                compaction_begun(session.deep_view(), trigger),
                r.0,
                *session,
                r.1,
            ),
    {
        let mut run = CompactionRun {
            trigger,
            phase: CompactionPhase::Archiving,
            generation: session.compaction_generation + 1,
            archive_ref: String::new(),
        };
        assert(run.archive_ref@ =~= Seq::empty());
        let generation = run.generation;
        if has_compactable_messages(&session.history) {
            (run, CompactionAction::Archive { generation })
        } else {
            run.phase = CompactionPhase::Over;
            (run, CompactionAction::Finished(CompactionOutcome::Unneeded))
        }
    }

    /// Ends the compaction with an error.
    fn fail(&mut self, error: CoreError) -> (action: CompactionAction)
        ensures
            final(self).deep_view() == (CompactionRunView {
                phase: CompactionPhase::Over,
                ..old(self).deep_view()
            }),
            action.deep_view() == CompactionActionView::Finished(
                CompactionOutcomeView::Failed(error.deep_view()),
            ),
    {
        self.phase = CompactionPhase::Over;
        CompactionAction::Finished(CompactionOutcome::Failed(error))
    }

    /// Carries out a plan.
    fn carry_out(&mut self, session: &mut Session, plan: CompactionPlan) -> (action:
        CompactionAction)
        requires
            plan.tail_start <= old(session).history@.len(),
        ensures
            compaction_moved(
                compaction_done(
                    old(self).deep_view(),
                    old(session).deep_view(),
                    plan.deep_view(),
                ),
                *final(self),
                *final(session),
                action,
            ),
    {
        let mut diagnostics = session.diagnostics_of_turn();
        match plan.source {
            CompactionSource::SessionMemory => {
                diagnostics.compaction_status = MemoryStatus::Succeeded;
                diagnostics.compaction_reason = None;
            },
            CompactionSource::LegacySummarizer => {
                diagnostics.compaction_status = MemoryStatus::Skipped;
                diagnostics.compaction_reason = Some(MemoryReason::Fallback);
            },
        }
        diagnostics.compaction_source = Some(plan.source);
        diagnostics.compaction_tail_start = Some(plan.tail_start);
        session.diagnostics = Some(diagnostics);
        session.history = apply_compaction_plan(
            &session.history,
            self.archive_ref.as_str(),
            &plan,
        );
        session.last_input_tokens = None;
        session.compaction_generation = self.generation;
        self.phase = CompactionPhase::Over;
        CompactionAction::Finished(CompactionOutcome::Done)
    }

    /// Asks the model for a summary.
    fn ask_summary(&mut self, session: &Session) -> (action: CompactionAction)
        ensures
            compaction_moved(
                summary_asked(old(self).deep_view(), session.deep_view()),
                *final(self),
                *session,
                action,
            ),
    {
        let (prefix, _) = split_history_for_compaction(&session.history);
        let messages = summarizer_messages(self.archive_ref.as_str(), self.trigger, &prefix);
        self.phase = CompactionPhase::Summarizing;
        CompactionAction::Summarize(messages)
    }

    /// Takes an event, and says what comes next.
    pub fn step(&mut self, session: &mut Session, event: CompactionEvent) -> (action:
        CompactionAction)
        requires
            compaction_awaits(old(self).deep_view(), event.deep_view()),
        ensures
            compaction_moved(
                compaction_move(
                    old(self).deep_view(),
                    old(session).deep_view(),
                    event.deep_view(),
                ),
                *final(self),
                *final(session),
                action,
            ),
    {
        match event {
            CompactionEvent::Archived(archive_ref) => {
                self.archive_ref = archive_ref;
                self.phase = CompactionPhase::ReadingMemory;
                CompactionAction::ReadMemory
            },
            CompactionEvent::ArchivingFailed(error) => self.fail(
                failure(FailedTask::ArchiveTranscript, error.as_str()),
            ),
            CompactionEvent::Memory(snapshot) => {
                if let Some(snapshot) = snapshot {
                    if let Some(plan) = compaction_plan_from_snapshot(
                        session.memory.last_summarized_message_index,
                        &session.history,
                        &snapshot,
                    ) {
                        return self.carry_out(session, plan);
                    }
                }
                self.ask_summary(session)
            },
            CompactionEvent::Summary(reply) => {
                match summarize_history(Ok(reply)) {
                    Ok(summary) => {
                        let plan = legacy_compaction_plan(&session.history, summary);
                        self.carry_out(session, plan)
                    },
                    Err(error) => self.fail(error),
                }
            },
            CompactionEvent::SummaryFailed(error) => self.fail(error),
        }
    }
}

} // verus!
