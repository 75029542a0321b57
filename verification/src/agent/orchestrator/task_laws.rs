//! What holds of a subtask from its call to its result.

use vstd::prelude::*;

use crate::agent::error::OrchestratorErrorView;
use crate::agent::orchestrator::state::{PhaseView, RunOutcomeView};
use crate::agent::orchestrator::tasks::{task_begun, task_ended, TaskBeginView, TaskEndingView};
use crate::agent::tools::task::{
    subagent_context, task_args_of, task_ok_text, tool_err_text, tools_for_agent, TaskArgsView,
};
use crate::config::{GuardsConfig, SubagentsConfig};
use crate::protocol::{SseEventView, ToolCallView, ToolDefView};
use crate::store::guards_from;
use crate::text::trimmed;

verus! {

/// The call that an event on a subtask is about.
pub open spec fn task_of(event: SseEventView) -> Option<Seq<char>> {
    match event {
        SseEventView::TaskStarted { task_id, .. } => Some(task_id),
        SseEventView::TaskCompleted { task_id, .. } => Some(task_id),
        SseEventView::TaskFailed { task_id, .. } => Some(task_id),
        SseEventView::TaskTimedOut { task_id, .. } => Some(task_id),
        _ => None,
    }
}

/// The run that an event on a subtask is about.
pub open spec fn run_of(event: SseEventView) -> Option<Seq<char>> {
    match event {
        SseEventView::TaskStarted { run_id, .. } => Some(run_id),
        SseEventView::TaskCompleted { run_id, .. } => Some(run_id),
        SseEventView::TaskFailed { run_id, .. } => Some(run_id),
        SseEventView::TaskTimedOut { run_id, .. } => Some(run_id),
        _ => None,
    }
}

/// A call with a goal that is not blank starts a subtask, unless the rest of it cannot be read; one
/// without a goal never does. What is rejected is answered with the reason, under the id of the call,
/// and nothing is run.
pub proof fn law_task_starts_or_is_answered(
    run_id: Seq<char>,
    call: ToolCallView,
    client_tools: Seq<ToolDefView>,
    guards_cfg: GuardsConfig,
    subagents_cfg: SubagentsConfig,
    now: u64,
)
    ensures
        match task_begun(run_id, call, client_tools, guards_cfg, subagents_cfg, now) {
            TaskBeginView::Started(task) => {
                &&& task_args_of(call.arguments) is Ok
                &&& call.arguments.str_field("goal"@) matches Some(goal) && trimmed(goal).len() > 0
                    && task.event == (SseEventView::TaskStarted {
                    run_id,
                    task_id: call.id,
                    goal: trimmed(goal),
                    agent: task_args_of(call.arguments)->Ok_0.agent.label(),
                })
            },
            TaskBeginView::Rejected { event, reply } => {
                &&& task_args_of(call.arguments) is Err
                &&& event matches SseEventView::TaskFailed {
                    run_id: of_run,
                    task_id,
                    message,
                    code,
                } && of_run == run_id && task_id == call.id && code == Some("bad_arguments"@)
                    && reply.content == tool_err_text(message) && task_args_of(call.arguments)
                    == Err::<TaskArgsView, _>(message)
                &&& reply.id == call.id
                &&& reply.name == call.name
            },
        },
{
}

/// The run of a subtask is told its goal and offered the tools for its kind. It belongs to the call:
/// it has its id as the parent, and an id of its own made from it. It counts its rounds from nothing,
/// has the limits of the run that started it, sends its text to no one, starts no subtasks and no
/// plan of its own, and keeps no checkpoints.
pub proof fn law_subtask_runs_for_its_call(
    run_id: Seq<char>,
    call: ToolCallView,
    client_tools: Seq<ToolDefView>,
    guards_cfg: GuardsConfig,
    subagents_cfg: SubagentsConfig,
    now: u64,
)
    ensures
        task_begun(
            run_id,
            call,
            client_tools,
            guards_cfg,
            subagents_cfg,
            now,
        ) matches TaskBeginView::Started(task) ==> {
            let args = task_args_of(call.arguments)->Ok_0;
            let session = task.run.session;
            &&& task.run.run_id == run_id
            &&& task.run.context == subagent_context(args)
            &&& task.run.tools == tools_for_agent(client_tools, args.agent)
            &&& session.parent_task_id == Some(call.id)
            &&& session.agent_id matches Some(agent_id) && call.id.is_suffix_of(agent_id)
                && agent_id.len() == call.id.len() + 4
            &&& session.fold_stream
            &&& !session.enabled
            &&& !session.subagents
            &&& !session.plan_mode
            &&& session.todos.len() == 0
            &&& session.pending_tool is None
            &&& session.guards_cfg == guards_cfg
            &&& session.subagents_cfg == subagents_cfg
            &&& session.guards == guards_from(now)
            &&& task.run.follow_up_rounds == 0
            &&& task.run.phase == PhaseView::Start(false)
            &&& task.run.todo_calls.len() == 0
            &&& task.run.task_calls.len() == 0
            &&& task.run.client_calls.len() == 0
        },
{
    reveal_strlit("sub-");
    assert(("sub-"@ + call.id).skip(4) =~= call.id);
}

/// A subtask has the time that is set, but at least a second.
pub proof fn law_subtask_has_its_time(
    run_id: Seq<char>,
    call: ToolCallView,
    client_tools: Seq<ToolDefView>,
    guards_cfg: GuardsConfig,
    subagents_cfg: SubagentsConfig,
    now: u64,
)
    ensures
        task_begun(
            run_id,
            call,
            client_tools,
            guards_cfg,
            subagents_cfg,
            now,
        ) matches TaskBeginView::Started(task) ==> {
            &&& task.timeout_secs >= 1
            &&& task.timeout_secs >= subagents_cfg.subagent_timeout_secs
            &&& task.timeout_secs == 1 || task.timeout_secs == subagents_cfg.subagent_timeout_secs
        },
{
}

/// Whether the run of a subtask came to its end.
pub open spec fn has_finished(ending: TaskEndingView) -> bool {
    ending matches TaskEndingView::Ended(outcome) && outcome is Finished
}

/// However a subtask ends, its call gets one reply, under its id and name, and one event, on the same
/// call and run. The summary of a subtask that finished is handed back in both; of any other, both
/// say why it failed, and the reply does not say that it succeeded.
pub proof fn law_subtask_is_answered(
    run_id: Seq<char>,
    id: Seq<char>,
    name: Seq<char>,
    ending: TaskEndingView,
)
    ensures
        ({
            let (event, reply) = task_ended(run_id, id, name, ending);
            &&& reply.id == id
            &&& reply.name == name
            &&& task_of(event) == Some(id)
            &&& run_of(event) == Some(run_id)
            &&& event is TaskCompleted <==> has_finished(ending)
            &&& event is TaskTimedOut <==> ending is TimedOut
            &&& event matches SseEventView::TaskCompleted { summary, .. } ==> ending
                == TaskEndingView::Ended(RunOutcomeView::Finished(summary)) && reply.content
                == task_ok_text(summary)
            &&& event matches SseEventView::TaskFailed { message, code, .. } ==> reply.content
                == tool_err_text(message) && code is Some
        }),
{
}

/// The failure of a subtask is told by its code and its text; a cancelled one just says so.
pub proof fn law_failed_subtask_says_why(
    run_id: Seq<char>,
    id: Seq<char>,
    name: Seq<char>,
    err: OrchestratorErrorView,
)
    ensures
        task_ended(
            run_id,
            id,
            name,
            TaskEndingView::Ended(RunOutcomeView::Failed(err)),
        ).0 matches SseEventView::TaskFailed { message, code, .. } && code == Some(err.code()) && if (
        err is Cancelled) {
            message == "cancelled"@
        } else {
            message == err.message()
        },
{
}

/// What went wrong, where an error has a text of its own.
pub open spec fn cause(err: OrchestratorErrorView) -> Seq<char> {
    match err {
        OrchestratorErrorView::Llm(text) => text,
        OrchestratorErrorView::Store(text) => text,
        OrchestratorErrorView::Guard(text) => text,
        _ => Seq::empty(),
    }
}

/// The text of an error ends with what went wrong. A limit that was reached is its own code; of any
/// other error the code does not depend on what went wrong.
pub proof fn law_error_says_what_went_wrong(err: OrchestratorErrorView, other: Seq<char>)
    ensures
        cause(err).is_suffix_of(err.message()),
        err matches OrchestratorErrorView::Guard(reason) ==> err.code() == reason,
        err is Llm ==> err.code() == OrchestratorErrorView::Llm(other).code(),
        err is Store ==> err.code() == OrchestratorErrorView::Store(other).code(),
{
    let text = err.message();
    let n = text.len() - cause(err).len();
    assert(text.skip(n) =~= cause(err));
}

/// Errors of different kinds have different codes, but for a limit, which may be named like anything.
pub proof fn law_codes_tell_errors_apart(a: OrchestratorErrorView, b: OrchestratorErrorView)
    requires
        a.code() == b.code(),
        !(a is Guard),
        !(b is Guard),
    ensures
        a is Llm <==> b is Llm,
        a is ToolTimeout <==> b is ToolTimeout,
        a is Cancelled <==> b is Cancelled,
        a is FollowUpLimit <==> b is FollowUpLimit,
        a is OwnershipLost <==> b is OwnershipLost,
        a is Store <==> b is Store,
        a is ContextOverflow <==> b is ContextOverflow,
{
    reveal_strlit("llm");
    reveal_strlit("timeout");
    reveal_strlit("cancelled");
    reveal_strlit("follow_up_limit");
    reveal_strlit("not_owner");
    reveal_strlit("store");
    reveal_strlit("context_overflow");
    assert("llm"@.len() == 3);
    assert("timeout"@.len() == 7);
    assert("cancelled"@.len() == 9 && "cancelled"@[0] == 'c');
    assert("not_owner"@.len() == 9 && "not_owner"@[0] == 'n');
    assert("follow_up_limit"@.len() == 15);
    assert("store"@.len() == 5);
    assert("context_overflow"@.len() == 16);
}

} // verus!
