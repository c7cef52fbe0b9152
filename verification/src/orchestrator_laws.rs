//! What holds of the tool loop in every state.

use vstd::prelude::*;
use crate::invocation::{Argument, ToolInvocation};
use crate::orchestrator::{
    command_refusal, completed, decided, outcome_text, settle, Confirmation, LoopView, Phase,
    Request,
};
use crate::sandbox::stays_beneath;
use crate::tools::{
    destructive, edit_task, error_text, registered, task_for, TaskView,
};

verus! {

/// An invocation that names no tool of the registry is answered with one
/// error text, and the loop goes on with the invocation after it.
pub proof fn unknown_tool_gets_one_error(
    batch: Seq<ToolInvocation>,
    unattended: bool,
    v: LoopView,
)
    requires
        v.next < batch.len(),
        registered(batch[v.next as int].name@) is None,
    ensures
        task_for(batch[v.next as int], unattended) == TaskView::Reply(
            error_text("unknown"@, "Unknown function: "@ + batch[v.next as int].name@),
        ),
        settle(batch, unattended, v) == settle(
            batch,
            unattended,
            LoopView {
                next: v.next + 1,
                results: v.results.push(
                    error_text("unknown"@, "Unknown function: "@ + batch[v.next as int].name@),
                ),
                ..v
            },
        ),
{
}

/// Going through a batch keeps the results gathered so far, adds one result
/// for each invocation passed, and stops either at an invocation of the
/// batch, for which it asks, or at the end of the batch, where it hands the
/// results to the model.
pub proof fn settle_stands_at_work(batch: Seq<ToolInvocation>, unattended: bool, v: LoopView)
    requires
        batch.len() <= usize::MAX,
        v.next <= batch.len(),
        v.results.len() == v.next,
    ensures
        ({
            let (w, r) = settle(batch, unattended, v);
            &&& v.next <= w.next <= batch.len()
            &&& w.results.len() == w.next
            &&& w.results.take(v.next as int) == v.results
            &&& w.always == v.always
            &&& match r {
                Request::Submit => w.next == batch.len() && w.phase == Phase::AwaitingModel,
                Request::Perform(i) => i == w.next && w.next < batch.len() && w.phase == v.phase,
                Request::Confirm(i) => i == w.next && w.next < batch.len() && w.phase == v.phase
                    && !v.always && !unattended,
                _ => false,
            }
        }),
    decreases batch.len() - v.next,
{
    if v.next < batch.len() {
        match task_for(batch[v.next as int], unattended) {
            TaskView::Reply(text) => {
                let u = LoopView { next: v.next + 1, results: v.results.push(text), ..v };
                settle_stands_at_work(batch, unattended, u);
                let (w, r) = settle(batch, unattended, u);
                assert(w.results.take(v.next as int) =~= w.results.take(u.next as int).take(
                    v.next as int,
                ));
                assert(u.results.take(v.next as int) =~= v.results);
            },
            _ => {
                assert(v.results.take(v.next as int) =~= v.results);
            },
        }
    } else {
        assert(v.results.take(v.next as int) =~= v.results);
    }
}

/// When the human refuses a command, the refusal becomes the result of that
/// invocation, after the results of the invocations before it; the loop
/// ends, no later invocation is asked for, and nothing is handed to the
/// model.
pub proof fn rejected_command_ends_the_batch(v: LoopView)
    requires
        v.results.len() == v.next,
    ensures
        ({
            let (w, r) = decided(v, Confirmation::Reject);
            &&& r == Request::Fold
            &&& w.phase == Phase::Terminated
            &&& w.next == v.next
            &&& w.results.len() == v.next + 1
            &&& w.results.take(v.next as int) == v.results
            &&& w.results[v.next as int] == command_refusal()
        }),
{
    let (w, r) = decided(v, Confirmation::Reject);
    assert(w.results.take(v.next as int) =~= v.results);
}

/// When the human refuses what a tool was about to do, the tool's report
/// becomes the result of that invocation, after the results of the
/// invocations before it; the loop ends, no later invocation is asked for,
/// and nothing is handed to the model.
pub proof fn rejected_outcome_ends_the_batch(
    batch: Seq<ToolInvocation>,
    unattended: bool,
    v: LoopView,
    text: Seq<char>,
    failed: bool,
)
    requires
        v.next < batch.len(),
        v.results.len() == v.next,
    ensures
        ({
            let (w, r) = completed(batch, unattended, v, text, failed, true);
            &&& r == Request::Fold
            &&& w.phase == Phase::Terminated
            &&& w.next == v.next
            &&& w.results.len() == v.next + 1
            &&& w.results.take(v.next as int) == v.results
            &&& w.results[v.next as int] == outcome_text(
                registered(batch[v.next as int].name@)->0,
                text,
                failed,
            )
        }),
{
    let (w, r) = completed(batch, unattended, v, text, failed, true);
    assert(w.results.take(v.next as int) =~= v.results);
}

/// Once the human has approved the commands of the session, or when nobody
/// attends, the loop never asks for a decision.
pub proof fn approved_session_asks_no_more(
    batch: Seq<ToolInvocation>,
    unattended: bool,
    v: LoopView,
)
    requires
        v.always || unattended,
    ensures
        !(settle(batch, unattended, v).1 is Confirm),
    decreases batch.len() - v.next,
{
    if v.next < batch.len() {
        match task_for(batch[v.next as int], unattended) {
            TaskView::Reply(text) => {
                approved_session_asks_no_more(
                    batch,
                    unattended,
                    LoopView { next: v.next + 1, results: v.results.push(text), ..v },
                );
            },
            _ => {},
        }
    }
}

/// An approval for the session holds from the command it is given for.
pub proof fn session_approval_is_kept(v: LoopView)
    ensures
        decided(v, Confirmation::ApproveForSession).0.always,
        decided(v, Confirmation::Approve).0.always == v.always,
{
}

/// Which sub-commands of the file editor change a file.
pub proof fn destructive_subcommands()
    ensures
        destructive("write"@),
        destructive("search_and_replace"@),
        destructive("apply_diff"@),
        !destructive("read"@),
        !destructive("search"@),
{
    reveal_strlit("write");
    reveal_strlit("search_and_replace");
    reveal_strlit("apply_diff");
    reveal_strlit("read");
    reveal_strlit("search");
    assert("write"@.len() == 5 && "read"@.len() == 4 && "search"@.len() == 6);
    assert("write"@[0] != "search"@[0]);
    assert("search_and_replace"@.len() == 18);
    assert("apply_diff"@.len() == 10);
}

/// The file editor is asked to work on files beneath the confinement root
/// only: an invocation that names another file is answered with an error.
pub proof fn edits_stay_beneath_root(inv: ToolInvocation, unattended: bool)
    ensures
        task_for(inv, unattended) matches TaskView::Edit { filename, .. } ==> stays_beneath(
            filename,
        ),
{
}

/// Reading a file and searching it never need the human's consent; changing
/// a file needs it unless nobody attends.
pub proof fn only_changes_need_consent(args: Seq<Argument>, unattended: bool)
    ensures
        edit_task(args, unattended) matches TaskView::Edit { subcommand, skip_confirmation, .. }
            ==> skip_confirmation == (subcommand == "read"@ || subcommand == "search"@
            || unattended),
{
}

} // verus!
