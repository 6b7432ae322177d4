//! What the host of a session has to do.

use vstd::prelude::*;

use crate::channel::{
    CoreOutput, CoreOutputView, MailboxMessage, MailboxMessageView, ReplyId,
};
use crate::session::{ExitStatus, ExitStatusView, SessionId, SessionState};

verus! {

/// An answer to a request.
#[derive(Debug)]
pub enum Reply {
    /// It was done.
    Accepted,
    /// It was not done, for this reason.
    Refused(String),
    /// The message that was asked for, if there is one.
    Message(Option<MailboxMessage>),
    /// How a session ended, if it has.
    Exit(Option<ExitStatus>),
}

/// The model of [`Reply`].
#[verifier::ext_equal]
pub enum ReplyView {
    Accepted,
    Refused(Seq<char>),
    Message(Option<MailboxMessageView>),
    Exit(Option<ExitStatusView>),
}

impl DeepView for Reply {
    type V = ReplyView;

    open spec fn deep_view(&self) -> ReplyView {
        match *self {
            Reply::Accepted => ReplyView::Accepted,
            Reply::Refused(value) => ReplyView::Refused(value.deep_view()),
            Reply::Message(value) => ReplyView::Message(value.deep_view()),
            Reply::Exit(value) => ReplyView::Exit(value.deep_view()),
        }
    }
}

/// Something that the host has to do for a session.
#[derive(Debug)]
pub enum Effect {
    /// Send an event to the harness.
    Output(CoreOutput),
    /// Save the sessions.
    Checkpoint,
    /// Find out whether the summary of the session has to be refreshed.
    ConsiderMemoryRefresh,
    /// Tell the tool that runs to stop.
    CancelTool,
    /// Answer a request.
    Reply { to: ReplyId, reply: Reply },
    /// Answer a request with what has to be saved of the session.
    Snapshot { to: ReplyId },
    /// Tell the core that the session is over.
    ChildFinished { session_id: SessionId, parent_id: SessionId, status: ExitStatus },
}

/// The model of [`Effect`].
#[verifier::ext_equal]
pub enum EffectView {
    Output(CoreOutputView),
    Checkpoint,
    ConsiderMemoryRefresh,
    CancelTool,
    Reply { to: ReplyId, reply: ReplyView },
    Snapshot { to: ReplyId },
    ChildFinished { session_id: SessionId, parent_id: SessionId, status: ExitStatusView },
}

impl DeepView for Effect {
    type V = EffectView;

    open spec fn deep_view(&self) -> EffectView {
        match *self {
            Effect::Output(value) => EffectView::Output(value.deep_view()),
            Effect::Checkpoint => EffectView::Checkpoint,
            Effect::ConsiderMemoryRefresh => EffectView::ConsiderMemoryRefresh,
            Effect::CancelTool => EffectView::CancelTool,
            Effect::Reply { to, reply } => EffectView::Reply { to, reply: reply.deep_view() },
            Effect::Snapshot { to } => EffectView::Snapshot { to },
            Effect::ChildFinished { session_id, parent_id, status } => EffectView::ChildFinished {
                session_id,
                parent_id,
                status: status.deep_view(),
            },
        }
    }
}

/// The effects that send outputs.
pub open spec fn sent(outputs: Seq<CoreOutputView>) -> Seq<EffectView> {
    outputs.map_values(|o: CoreOutputView| EffectView::Output(o))
}

/// The effect that tells of a new state.
pub open spec fn state_effect(session_id: SessionId, state: SessionState) -> EffectView {
    EffectView::Output(CoreOutputView::SessionStateChanged { session_id, state })
}

/// Adds an effect.
pub fn add_effect(effects: &mut Vec<Effect>, effect: Effect)
    ensures
        final(effects).deep_view() == old(effects).deep_view().push(effect.deep_view()),
{
    let ghost before = effects.deep_view();
    effects.push(effect);
    assert(effects.deep_view() =~= before.push(effect.deep_view()));
}

/// Adds the sending of an output.
pub fn send(effects: &mut Vec<Effect>, output: CoreOutput)
    ensures
        final(effects).deep_view() == old(effects).deep_view().push(
            EffectView::Output(output.deep_view()),
        ),
{
    add_effect(effects, Effect::Output(output));
}

/// Adds the sending of outputs.
pub fn send_all(effects: &mut Vec<Effect>, outputs: Vec<CoreOutput>)
    ensures
        final(effects).deep_view() == old(effects).deep_view() + sent(outputs.deep_view()),
{
    let ghost start = effects.deep_view();
    let ghost all = outputs.deep_view();
    let ghost wanted = sent(all);
    let mut i: usize = 0;
    assert(start + wanted.take(0) =~= start);
    while i < outputs.len()
        invariant
            i <= outputs@.len(),
            all == outputs.deep_view(),
            wanted == sent(all),
            effects.deep_view() == start + wanted.take(i as int),
        decreases outputs@.len() - i,
    {
        let ghost before = effects.deep_view();
        send(effects, outputs[i].clone());
        assert(effects.deep_view() =~= before.push(wanted[i as int]));
        assert(effects.deep_view() =~= start + wanted.take(i + 1));
        i = i + 1;
    }
    assert(wanted.take(i as int) =~= wanted);
}

/// Adds the telling of a new state.
pub fn send_state(effects: &mut Vec<Effect>, session_id: SessionId, state: SessionState)
    ensures
        final(effects).deep_view() == old(effects).deep_view().push(
            state_effect(session_id, state),
        ),
{
    send(effects, CoreOutput::SessionStateChanged { session_id, state });
}

} // verus!
