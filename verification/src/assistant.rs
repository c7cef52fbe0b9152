//! The assistant: the conversation together with the tool loop.
//!
//! The loop owns the transcript. What the human says, what the model
//! answers and what the tools report all goes through here, so that the
//! transcript always tells the model what happened and what was refused.

use vstd::prelude::*;
use crate::chat::{is_plain, is_reply, ChatManager, Message, Role};
use crate::config::Config;
use crate::invocation::{all_calls, invoke_all, named_calls, ModelResponse};
use crate::orchestrator::{
    completed, decided, received, Confirmation, Outcome, Pending, Phase, Request, ToolLoop,
};

verus! {

/// The conversation and the loop that carries out what the model asks for.
pub struct Assistant {
    pub chat: ChatManager,
    pub tools: ToolLoop,
}

/// Whether a request closes a batch: the results of the batch are due in
/// the transcript.
pub open spec fn closes_batch(r: Request) -> bool {
    r is Submit || r is Fold
}

/// Whether `after` is `before` with the results of the batch added at the
/// end, if the request closes the batch, and `before` itself otherwise.
pub open spec fn folded(before: Seq<Message>, after: Seq<Message>, r: Request, results: Seq<char>) -> bool {
    if closes_batch(r) {
        &&& after.len() == before.len() + 1
        &&& after.drop_last() == before
        &&& is_plain(after.last(), Role::ToolResult, results)
    } else {
        after == before
    }
}

impl Assistant {
    /// The transcript and the loop are both in order.
    pub open spec fn wf(self) -> bool {
        self.chat.wf() && self.tools.wf()
    }

    /// An assistant at the start of a conversation.
    pub fn new(config: Config, system_instruction: String, unattended: bool) -> (a: Self)
        ensures
            a.wf(),
            a.chat.config == config,
            a.chat.system_instruction == system_instruction,
            a.chat.history@.len() == 0,
            a.tools.phase == Phase::AwaitingModel,
            a.tools.unattended == unattended,
            !a.tools.always,
    {
        Assistant {
            chat: ChatManager::new(config, system_instruction),
            tools: ToolLoop::new(unattended),
        }
    }

    /// Adds the results of the batch to the transcript, if the request
    /// closes the batch.
    fn fold(&mut self, r: Request)
        requires
            old(self).chat.wf(),
        ensures
            final(self).chat.wf(),
            final(self).tools == old(self).tools,
            final(self).chat.config == old(self).chat.config,
            final(self).chat.system_instruction == old(self).chat.system_instruction,
            folded(
                old(self).chat.history@,
                final(self).chat.history@,
                r,
                old(self).tools.follow_up_text(),
            ),
    {
        match r {
            Request::Submit | Request::Fold => {
                let results = self.tools.follow_up();
                self.chat.fold_results(results.as_str());
            },
            _ => {},
        }
    }

    /// Takes what the human says: it goes to the end of the transcript,
    /// and the loop waits for the model. What the human has approved for
    /// the session stays approved.
    pub fn say(&mut self, message: &str)
        requires
            old(self).wf(),
        ensures
            final(self).wf(),
            final(self).tools.phase == Phase::AwaitingModel,
            final(self).tools.always == old(self).tools.always,
            final(self).tools.unattended == old(self).tools.unattended,
            final(self).chat.history@.len() == old(self).chat.history@.len() + 1,
            final(self).chat.history@.drop_last() == old(self).chat.history@,
            is_plain(final(self).chat.history@.last(), Role::User, message@),
            final(self).chat.config == old(self).chat.config,
            final(self).chat.system_instruction == old(self).chat.system_instruction,
    {
        self.chat.send_message(message);
        self.tools.await_model();
    }

    /// Takes a response of the model. Its messages go to the end of the
    /// transcript, and its tool invocations are started on. If none of them
    /// needs anything done, their results follow in the transcript at once.
    pub fn hear(&mut self, response: &ModelResponse) -> (r: Request)
        requires
            old(self).wf(),
            old(self).tools.phase == Phase::AwaitingModel,
        ensures
            final(self).wf(),
            final(self).tools.left_by(r),
            invoke_all(final(self).tools.batch@, named_calls(all_calls(response.choices@))),
            final(self).tools.unattended == old(self).tools.unattended,
            (final(self).tools@, r) == received(
                final(self).tools.batch@,
                old(self).tools.unattended,
                old(self).tools@,
            ),
            final(self).chat.history@.len() >= old(self).chat.history@.len()
                + response.choices@.len(),
            final(self).chat.history@.take(old(self).chat.history@.len() as int) == old(
                self,
            ).chat.history@,
            forall|i: int|
                0 <= i < response.choices@.len() ==> is_reply(
                    #[trigger] final(self).chat.history@[old(self).chat.history@.len() + i],
                    response.choices@[i],
                ),
            folded(
                final(self).chat.history@.take(
                    (old(self).chat.history@.len() + response.choices@.len()) as int,
                ),
                final(self).chat.history@,
                r,
                final(self).tools.follow_up_text(),
            ),
            final(self).chat.config == old(self).chat.config,
            final(self).chat.system_instruction == old(self).chat.system_instruction,
    {
        self.chat.receive(response);
        let ghost heard = self.chat.history@;
        let r = self.tools.process_tool_calls(response);
        self.fold(r);
        proof {
            let n = old(self).chat.history@.len() as int;
            let m = response.choices@.len() as int;
            let after = self.chat.history@;
            if closes_batch(r) {
                assert(after.take(n + m) =~= heard);
                assert(after.take(n) =~= heard.take(n));
                assert forall|i: int| 0 <= i < m implies is_reply(
                    #[trigger] after[n + i],
                    response.choices@[i],
                ) by {
                    assert(after[n + i] == heard[n + i]);
                }
            } else {
                assert(after.take(n + m) =~= after);
            }
        }
        r
    }

    /// Takes the human's decision on the command that waits for it. A
    /// refusal closes the batch: the results so far, the refusal last, go
    /// to the transcript, and the model is not asked again.
    pub fn decide(&mut self, decision: Confirmation) -> (r: Request)
        requires
            old(self).wf(),
            old(self).tools.phase == Phase::Dispatching,
            old(self).tools.pending == Pending::Decision,
        ensures
            final(self).wf(),
            final(self).tools.left_by(r),
            final(self).tools.batch == old(self).tools.batch,
            final(self).tools.unattended == old(self).tools.unattended,
            (final(self).tools@, r) == decided(old(self).tools@, decision),
            folded(
                old(self).chat.history@,
                final(self).chat.history@,
                r,
                final(self).tools.follow_up_text(),
            ),
            final(self).chat.config == old(self).chat.config,
            final(self).chat.system_instruction == old(self).chat.system_instruction,
    {
        let r = self.tools.decide(decision);
        self.fold(r);
        r
    }

    /// Takes the outcome of the invocation that was to be carried out. If
    /// that closes the batch, by a refusal or because the batch is through,
    /// the results go to the transcript.
    pub fn complete(&mut self, outcome: Outcome) -> (r: Request)
        requires
            old(self).wf(),
            old(self).tools.phase == Phase::Dispatching,
            old(self).tools.pending == Pending::Outcome,
        ensures
            final(self).wf(),
            final(self).tools.left_by(r),
            final(self).tools.batch == old(self).tools.batch,
            final(self).tools.unattended == old(self).tools.unattended,
            final(self).tools.always == old(self).tools.always,
            (final(self).tools@, r) == completed(
                old(self).tools.batch@,
                old(self).tools.unattended,
                old(self).tools@,
                outcome.text@,
                outcome.failed,
                outcome.rejected,
            ),
            folded(
                old(self).chat.history@,
                final(self).chat.history@,
                r,
                final(self).tools.follow_up_text(),
            ),
            final(self).chat.config == old(self).chat.config,
            final(self).chat.system_instruction == old(self).chat.system_instruction,
    {
        let r = self.tools.complete(outcome);
        self.fold(r);
        r
    }

    /// Takes the failure of a completion request: the loop ends, the
    /// transcript stays as it is, and the failure is for the human to see.
    pub fn fail(&mut self)
        requires
            old(self).wf(),
        ensures
            final(self).wf(),
            final(self).tools.phase == Phase::Terminated,
            final(self).tools.always == old(self).tools.always,
            final(self).tools.unattended == old(self).tools.unattended,
            final(self).chat == old(self).chat,
    {
        self.tools.abort();
    }
}

/// When the human refuses a command, the transcript gets the results of
/// the batch so far with the refusal last, and the loop is left
/// terminated: the model is not asked again.
pub proof fn refusal_is_folded_and_ends(before: Assistant, after: Assistant, r: Request)
    requires
        (after.tools@, r) == decided(before.tools@, Confirmation::Reject),
        after.tools.left_by(r),
        folded(before.chat.history@, after.chat.history@, r, after.tools.follow_up_text()),
    ensures
        r == Request::Fold,
        after.tools.phase == Phase::Terminated,
        after.chat.history@.len() == before.chat.history@.len() + 1,
        is_plain(after.chat.history@.last(), Role::ToolResult, after.tools.follow_up_text()),
{
}

} // verus!
