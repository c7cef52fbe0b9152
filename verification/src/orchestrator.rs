//! The loop that carries out what the model asks for.
//!
//! The loop itself does nothing to the outside world. It is told what came
//! back from the model, from the human and from the tools, and answers each
//! time with what has to happen next. Whoever drives it does that and reports
//! back.

use vstd::prelude::*;
use crate::invocation::{
    all_calls, extract_tool_calls, invoke_all, named_calls, ModelResponse, ToolInvocation,
};
use crate::text::{join, join_strings, texts};
use crate::tools::{
    error_text, lookup_tool, normalize_output, normalized, registered, result_text, task_for,
    task_of, tool_error, tool_result, Task, TaskView, Tool,
};

verus! {

/// Where the loop stands.
#[derive(Clone, Copy, Debug, PartialEq, Eq, Structural)]
pub enum Phase {
    /// A completion has been asked of the model, or is about to be.
    AwaitingModel,
    /// The invocations of the last response are being carried out.
    Dispatching,
    /// Nothing more happens until the human speaks again.
    Terminated,
}

/// What the loop waits for while it is dispatching.
#[derive(Clone, Copy, Debug, PartialEq, Eq, Structural)]
pub enum Pending {
    /// The human's decision on the current invocation.
    Decision,
    /// The outcome of the current invocation.
    Outcome,
}

/// What the human says when asked whether a command may run.
#[derive(Clone, Copy, Debug, PartialEq, Eq, Structural)]
pub enum Confirmation {
    /// This one may run.
    Approve,
    /// This one may not run.
    Reject,
    /// This one and all commands after it may run.
    ApproveForSession,
}

/// What the driver of the loop has to do next.
#[derive(Clone, Copy, Debug, PartialEq, Eq, Structural)]
pub enum Request {
    /// Ask the human whether the command of this invocation may run, and
    /// report with `decide`.
    Confirm(usize),
    /// Carry out this invocation, and report with `complete`.
    Perform(usize),
    /// Hand the collected results to the model as a follow-up message, and
    /// report its response with `process_tool_calls`.
    Submit,
    /// Add the collected results to the transcript, and return to the human.
    Fold,
    /// Return to the human.
    Stop,
}

/// How a tool invocation ended.
pub struct Outcome {
    /// What the tool reports.
    pub text: String,
    /// Whether the tool failed.
    pub failed: bool,
    /// Whether the human refused what the tool was about to do.
    pub rejected: bool,
}

/// The result of a tool invocation: the token of the invocation, and the
/// text that goes to the model.
pub struct ToolResult {
    pub id: String,
    pub text: String,
}

/// The state of the loop.
pub struct ToolLoop {
    pub phase: Phase,
    pub pending: Pending,
    /// The invocations of the last response.
    pub batch: Vec<ToolInvocation>,
    /// The invocation that is being carried out, or comes next.
    pub next: usize,
    /// The results of the invocations before `next`, in their order.
    pub results: Vec<String>,
    /// Whether the human has approved all commands of the session.
    pub always: bool,
    /// Whether the assistant was started to run without a human.
    pub unattended: bool,
}

/// The part of the state that changes while a batch is carried out.
pub struct LoopView {
    pub phase: Phase,
    pub pending: Pending,
    pub next: nat,
    pub results: Seq<Seq<char>>,
    pub always: bool,
}

impl View for ToolLoop {
    type V = LoopView;

    open spec fn view(&self) -> LoopView {
        LoopView {
            phase: self.phase,
            pending: self.pending,
            next: self.next as nat,
            results: texts(self.results@),
            always: self.always,
        }
    }
}

/// The text with which a refused command is answered.
pub open spec fn command_refusal() -> Seq<char> {
    normalized("[Tool result] execute_command: User rejected the command execution."@)
}

/// The text in which the outcome of a tool goes to the model. The failure of
/// a command, of a search or of the file editor is reported like a result.
pub open spec fn outcome_text(tool: Tool, text: Seq<char>, failed: bool) -> Seq<char> {
    match tool {
        Tool::ExecuteCommand | Tool::SearchOnline | Tool::FileEditor => result_text(
            tool.name(),
            text,
        ),
        Tool::ScrapeUrl | Tool::SendEmail | Tool::StockQuery => if failed {
            error_text(tool.name(), text)
        } else {
            result_text(tool.name(), text)
        },
    }
}

/// Goes through the batch from the current invocation on, up to the first
/// one that needs something done. Invocations that are answered at once
/// leave their answer among the results. A command needs the human's
/// decision first, unless all commands are approved or nobody attends. When
/// the batch is through, the results go to the model.
pub open spec fn settle(batch: Seq<ToolInvocation>, unattended: bool, v: LoopView) -> (
    LoopView,
    Request,
)
    decreases batch.len() - v.next,
{
    if v.next >= batch.len() {
        (LoopView { phase: Phase::AwaitingModel, ..v }, Request::Submit)
    } else {
        match task_for(batch[v.next as int], unattended) {
            TaskView::Reply(text) => settle(
                batch,
                unattended,
                LoopView { next: v.next + 1, results: v.results.push(text), ..v },
            ),
            TaskView::Command { .. } => if v.always || unattended {
                (LoopView { pending: Pending::Outcome, ..v }, Request::Perform(v.next as usize))
            } else {
                (LoopView { pending: Pending::Decision, ..v }, Request::Confirm(v.next as usize))
            },
            _ => (LoopView { pending: Pending::Outcome, ..v }, Request::Perform(v.next as usize)),
        }
    }
}

/// The effect of a response with the invocations `batch`. A response
/// without invocations ends the loop; otherwise the batch is gone through
/// from its first invocation.
pub open spec fn received(batch: Seq<ToolInvocation>, unattended: bool, v: LoopView) -> (
    LoopView,
    Request,
) {
    if batch.len() == 0 {
        (
            LoopView { phase: Phase::Terminated, next: 0, results: Seq::empty(), ..v },
            Request::Stop,
        )
    } else {
        settle(
            batch,
            unattended,
            LoopView { phase: Phase::Dispatching, next: 0, results: Seq::empty(), ..v },
        )
    }
}

/// The effect of the human's decision on the command that waits for it.
pub open spec fn decided(v: LoopView, decision: Confirmation) -> (LoopView, Request) {
    match decision {
        Confirmation::Reject => (
            LoopView {
                phase: Phase::Terminated,
                results: v.results.push(command_refusal()),
                ..v
            },
            Request::Fold,
        ),
        Confirmation::Approve => (
            LoopView { pending: Pending::Outcome, ..v },
            Request::Perform(v.next as usize),
        ),
        Confirmation::ApproveForSession => (
            LoopView { pending: Pending::Outcome, always: true, ..v },
            Request::Perform(v.next as usize),
        ),
    }
}

/// The effect of the outcome of the invocation that was carried out.
pub open spec fn completed(
    batch: Seq<ToolInvocation>,
    unattended: bool,
    v: LoopView,
    text: Seq<char>,
    failed: bool,
    rejected: bool,
) -> (LoopView, Request) {
    let tool = registered(batch[v.next as int].name@)->0;
    let results = v.results.push(outcome_text(tool, text, failed));
    if rejected {
        (LoopView { phase: Phase::Terminated, results, ..v }, Request::Fold)
    } else {
        settle(batch, unattended, LoopView { next: v.next + 1, results, ..v })
    }
}

impl ToolLoop {
    /// What a request says of the state that the loop is left in: a
    /// question leaves it waiting for the decision on its current
    /// invocation, an invocation to carry out leaves it waiting for the
    /// outcome, a submission leaves it waiting for the model, and anything
    /// else leaves it terminated.
    pub open spec fn left_by(self, r: Request) -> bool {
        match r {
            Request::Confirm(i) => self.phase == Phase::Dispatching && self.pending
                == Pending::Decision && i == self.next,
            Request::Perform(i) => self.phase == Phase::Dispatching && self.pending
                == Pending::Outcome && i == self.next,
            Request::Submit => self.phase == Phase::AwaitingModel,
            Request::Fold => self.phase == Phase::Terminated,
            Request::Stop => self.phase == Phase::Terminated,
        }
    }

    /// The loop holds at most one result for each invocation of the batch.
    /// While dispatching, it stands at an invocation of the batch that needs
    /// something done, and holds one result for each invocation before it.
    /// Only a command waits for a decision.
    pub open spec fn wf(self) -> bool {
        &&& self.results@.len() <= self.batch@.len()
        &&& self.phase == Phase::Dispatching ==> {
            &&& self.next < self.batch@.len()
            &&& self.results@.len() == self.next
            &&& match task_for(self.batch@[self.next as int], self.unattended) {
                TaskView::Reply(_) => false,
                TaskView::Command { .. } => true,
                _ => self.pending == Pending::Outcome,
            }
        }
    }

    /// A loop that waits for the first response of the model.
    pub fn new(unattended: bool) -> (s: Self)
        ensures
            s.wf(),
            s.phase == Phase::AwaitingModel,
            s.unattended == unattended,
            !s.always,
            s.batch@.len() == 0,
            s.results@.len() == 0,
    {
        ToolLoop {
            phase: Phase::AwaitingModel,
            pending: Pending::Outcome,
            batch: Vec::new(),
            next: 0,
            results: Vec::new(),
            always: false,
            unattended,
        }
    }

    fn settle(&mut self) -> (r: Request)
        requires
            old(self).phase == Phase::Dispatching,
            old(self).next <= old(self).batch@.len(),
            old(self).results@.len() == old(self).next,
        ensures
            (final(self)@, r) == settle(old(self).batch@, old(self).unattended, old(self)@),
            final(self).batch == old(self).batch,
            final(self).unattended == old(self).unattended,
            final(self).always == old(self).always,
            final(self).wf(),
            final(self).left_by(r),
            final(self).results@.len() == final(self).next,
            r == Request::Submit ==> final(self).next == final(self).batch@.len(),
    {
        while self.next < self.batch.len()
            invariant
                self.phase == Phase::Dispatching,
                self.next <= self.batch@.len(),
                self.results@.len() == self.next,
                self.batch == old(self).batch,
                self.unattended == old(self).unattended,
                self.always == old(self).always,
                settle(self.batch@, self.unattended, self@) == settle(
                    old(self).batch@,
                    old(self).unattended,
                    old(self)@,
                ),
            decreases self.batch@.len() - self.next,
        {
            let task = task_of(&self.batch[self.next], self.unattended);
            match task {
                Task::Reply(text) => {
                    let ghost before = self.results@;
                    self.results.push(text);
                    assert(texts(self.results@) =~= texts(before).push(text@));
                    self.next = self.next + 1;
                },
                Task::Command { .. } => {
                    if self.always || self.unattended {
                        self.pending = Pending::Outcome;
                        return Request::Perform(self.next);
                    } else {
                        self.pending = Pending::Decision;
                        return Request::Confirm(self.next);
                    }
                },
                _ => {
                    self.pending = Pending::Outcome;
                    return Request::Perform(self.next);
                },
            }
        }
        self.phase = Phase::AwaitingModel;
        Request::Submit
    }

    /// Takes a response of the model and starts on its tool invocations.
    ///
    /// A response without invocations ends the loop. Otherwise the
    /// invocations are gone through in the order of the response.
    pub fn process_tool_calls(&mut self, response: &ModelResponse) -> (r: Request)
        requires
            old(self).phase == Phase::AwaitingModel,
        ensures
            invoke_all(final(self).batch@, named_calls(all_calls(response.choices@))),
            final(self).unattended == old(self).unattended,
            final(self).always == old(self).always,
            final(self).wf(),
            final(self).left_by(r),
            (final(self)@, r) == received(final(self).batch@, old(self).unattended, old(self)@),
    {
        self.batch = extract_tool_calls(response);
        self.results = Vec::new();
        self.next = 0;
        assert(texts(self.results@) =~= Seq::<Seq<char>>::empty());
        if self.batch.len() == 0 {
            self.phase = Phase::Terminated;
            return Request::Stop;
        }
        self.phase = Phase::Dispatching;
        assert(texts(self.results@) =~= Seq::<Seq<char>>::empty());
        self.settle()
    }

    /// Takes the human's decision on the command that waits for it.
    ///
    /// An approval lets the command run; an approval for the session also
    /// spares all later commands the question. A refusal is recorded as the
    /// result of the invocation and ends the loop: no invocation after it is
    /// carried out, and the model is not asked again.
    pub fn decide(&mut self, decision: Confirmation) -> (r: Request)
        requires
            old(self).wf(),
            old(self).phase == Phase::Dispatching,
            old(self).pending == Pending::Decision,
        ensures
            final(self).wf(),
            final(self).batch == old(self).batch,
            final(self).unattended == old(self).unattended,
            final(self).left_by(r),
            (final(self)@, r) == decided(old(self)@, decision),
    {
        match decision {
            Confirmation::Reject => {
                let ghost before = self.results@;
                let text = normalize_output(
                    "[Tool result] execute_command: User rejected the command execution.",
                );
                self.results.push(text);
                assert(texts(self.results@) =~= texts(before).push(text@));
                self.phase = Phase::Terminated;
                Request::Fold
            },
            Confirmation::Approve => {
                self.pending = Pending::Outcome;
                Request::Perform(self.next)
            },
            Confirmation::ApproveForSession => {
                self.always = true;
                self.pending = Pending::Outcome;
                Request::Perform(self.next)
            },
        }
    }

    /// Takes the outcome of the invocation that was to be carried out.
    ///
    /// The outcome is recorded as the result of the invocation. If the human
    /// refused what the tool was about to do, the loop ends there: no
    /// invocation after it is carried out, and the model is not asked again.
    /// Otherwise the loop goes on with the rest of the batch.
    pub fn complete(&mut self, outcome: Outcome) -> (r: Request)
        requires
            old(self).wf(),
            old(self).phase == Phase::Dispatching,
            old(self).pending == Pending::Outcome,
        ensures
            final(self).wf(),
            final(self).batch == old(self).batch,
            final(self).unattended == old(self).unattended,
            final(self).always == old(self).always,
            final(self).left_by(r),
            (final(self)@, r) == completed(
                old(self).batch@,
                old(self).unattended,
                old(self)@,
                outcome.text@,
                outcome.failed,
                outcome.rejected,
            ),
    {
        let ghost before = self.results@;
        // While dispatching, the loop stands at an invocation of a tool that
        // the registry has.
        assert(registered(self.batch@[self.next as int].name@) is Some);
        let tool = lookup_tool(self.batch[self.next].name.as_str()).unwrap();
        let as_error = outcome.failed && match tool {
            Tool::ScrapeUrl | Tool::SendEmail | Tool::StockQuery => true,
            _ => false,
        };
        let text = if as_error {
            tool_error(tool.label(), outcome.text.as_str())
        } else {
            tool_result(tool.label(), outcome.text.as_str())
        };
        self.results.push(text);
        assert(texts(self.results@) =~= texts(before).push(text@));
        if outcome.rejected {
            self.phase = Phase::Terminated;
            Request::Fold
        } else {
            assert(self.next < self.batch.len());
            self.next = self.next + 1;
            self.settle()
        }
    }

    /// Takes the failure of a completion request: the loop ends, and the
    /// failure is for the human to see.
    pub fn abort(&mut self)
        requires
            old(self).wf(),
        ensures
            final(self).wf(),
            final(self).phase == Phase::Terminated,
            final(self).always == old(self).always,
            final(self).unattended == old(self).unattended,
            final(self).pending == old(self).pending,
            final(self).batch == old(self).batch,
            final(self).next == old(self).next,
            final(self).results == old(self).results,
    {
        self.phase = Phase::Terminated;
    }

    /// The collected results, each with the token of its invocation, in the
    /// order of the invocations.
    pub fn tool_results(&self) -> (paired: Vec<ToolResult>)
        requires
            self.wf(),
        ensures
            paired@.len() == self.results@.len(),
            forall|i: int|
                0 <= i < paired@.len() ==> (#[trigger] paired@[i]).id@ == self.batch@[i].id@
                    && paired@[i].text@ == self.results@[i]@,
    {
        let mut paired: Vec<ToolResult> = Vec::new();
        let mut i: usize = 0;
        while i < self.results.len()
            invariant
                i <= self.results.len(),
                self.results@.len() <= self.batch@.len(),
                paired@.len() == i,
                forall|j: int|
                    0 <= j < i ==> (#[trigger] paired@[j]).id@ == self.batch@[j].id@
                        && paired@[j].text@ == self.results@[j]@,
            decreases self.results.len() - i,
        {
            paired.push(ToolResult { id: self.batch[i].id.clone(), text: self.results[i].clone() });
            i += 1;
        }
        paired
    }

    /// Makes the loop wait for the model again, for the next thing that the
    /// human says. What the human has approved for the session stays
    /// approved.
    pub fn await_model(&mut self)
        requires
            old(self).wf(),
        ensures
            final(self).wf(),
            final(self).phase == Phase::AwaitingModel,
            final(self).always == old(self).always,
            final(self).unattended == old(self).unattended,
            final(self).pending == old(self).pending,
            final(self).batch == old(self).batch,
            final(self).next == old(self).next,
            final(self).results == old(self).results,
    {
        self.phase = Phase::AwaitingModel;
    }

    /// The message in which the collected results go to the model: the
    /// results in the order of their invocations, one per line, in normal
    /// form.
    pub open spec fn follow_up_text(self) -> Seq<char> {
        normalized(join(texts(self.results@), "\n"@))
    }

    /// The message in which the collected results go to the model.
    pub fn follow_up(&self) -> (message: String)
        ensures
            message@ == self.follow_up_text(),
    {
        let combined = join_strings(&self.results, "\n");
        normalize_output(combined.as_str())
    }
}

} // verus!
