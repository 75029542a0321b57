//! Subtasks: a `task` call runs an agent of its own inside the run.

use vstd::prelude::*;

use crate::agent::error::{error_code, OrchestratorError, OrchestratorErrorView};
use crate::agent::orchestrator::state::{
    default_opts, AgentRun, AgentRunView, PhaseView, RunAgentOpts, RunAgentOptsView, RunOutcome,
    RunOutcomeView, RunPersistView, TaskReply, TaskReplyView,
};
use crate::agent::orchestrator::steps::{session_of, started};
use crate::agent::tools::task::{
    build_subagent_context, filter_tools_for_agent, parse_task_args, subagent_context, task_args_of,
    task_ok_text, task_result_err, task_result_ok, tool_err_text, tools_for_agent,
};
use crate::config::{GuardsConfig, SubagentsConfig};
use crate::dup::Dup;
use crate::llm::ToolCall;
use crate::protocol::{SseEvent, SseEventView, ToolCallView, ToolDef, ToolDefView};
use crate::text::concat;

verus! {

/// A subtask that is to be run.
#[derive(Debug, PartialEq)]
pub struct Subtask {
    /// To be sent first.
    pub event: SseEvent,
    /// The nested run.
    pub run: AgentRun,
    pub timeout_secs: u64,
}

/// What a `Subtask` is.
#[verifier::ext_equal]
pub struct SubtaskView {
    pub event: SseEventView,
    pub run: AgentRunView,
    pub timeout_secs: u64,
}

impl DeepView for Subtask {
    type V = SubtaskView;

    open spec fn deep_view(&self) -> SubtaskView {
        SubtaskView {
            event: self.event.deep_view(),
            run: self.run.deep_view(),
            timeout_secs: self.timeout_secs,
        }
    }
}

/// What a `task` call comes to.
#[derive(Debug, PartialEq)]
pub enum TaskBegin {
    Rejected {
        event: SseEvent,
        reply: TaskReply,
    },
    Started(Subtask),
}

/// What `TaskBegin` is.
#[verifier::ext_equal]
pub enum TaskBeginView {
    Rejected {
        event: SseEventView,
        reply: TaskReplyView,
    },
    Started(SubtaskView),
}

impl DeepView for TaskBegin {
    type V = TaskBeginView;

    open spec fn deep_view(&self) -> TaskBeginView {
        match self {
            TaskBegin::Rejected { event, reply } => TaskBeginView::Rejected {
                event: event.deep_view(),
                reply: reply.deep_view(),
            },
            TaskBegin::Started(x) => TaskBeginView::Started(x.deep_view()),
        }
    }
}

/// How the nested run of a subtask ended.
#[derive(Debug, PartialEq)]
pub enum TaskEnding {
    Ended(RunOutcome),
    TimedOut,
}

/// What `TaskEnding` is.
#[verifier::ext_equal]
pub enum TaskEndingView {
    Ended(RunOutcomeView),
    TimedOut,
}

impl DeepView for TaskEnding {
    type V = TaskEndingView;

    open spec fn deep_view(&self) -> TaskEndingView {
        match self {
            TaskEnding::Ended(x) => TaskEndingView::Ended(x.deep_view()),
            TaskEnding::TimedOut => TaskEndingView::TimedOut,
        }
    }
}

/// What a `task` call comes to: arguments that cannot be read are rejected; else an agent with a
/// context of its own and the tools for its kind is to be run. It keeps no checkpoints.
pub open spec fn task_begun(
    run_id: Seq<char>,
    call: ToolCallView,
    client_tools: Seq<ToolDefView>,
    guards_cfg: GuardsConfig,
    subagents_cfg: SubagentsConfig,
    now: u64,
) -> TaskBeginView {
    match task_args_of(call.arguments) {
        Err(err) => TaskBeginView::Rejected {
            event: SseEventView::TaskFailed {
                run_id,
                task_id: call.id,
                message: err,
                code: Some("bad_arguments"@),
            },
            reply: TaskReplyView { id: call.id, name: call.name, content: tool_err_text(err) },
        },
        Ok(args) => TaskBeginView::Started(
            SubtaskView {
                event: SseEventView::TaskStarted {
                    run_id,
                    task_id: call.id,
                    goal: args.goal,
                    agent: args.agent.label(),
                },
                run: started(
                    run_id,
                    subagent_context(args),
                    tools_for_agent(client_tools, args.agent),
                    session_of(
                        None::<RunPersistView>,
                        false,
                        RunAgentOptsView {
                            guards_cfg,
                            subagents_cfg,
                            emit_started: false,
                            fold_stream: true,
                            agent_id: Some("sub-"@ + call.id),
                            parent_task_id: Some(call.id),
                            ..default_opts()
                        },
                        now,
                    ),
                    PhaseView::Start(false),
                ),
                timeout_secs: if subagents_cfg.subagent_timeout_secs < 1 {
                    1
                } else {
                    subagents_cfg.subagent_timeout_secs
                },
            },
        ),
    }
}

/// Begins a subtask.
pub fn begin_task(
    run_id: &str,
    call: &ToolCall,
    client_tools: &[ToolDef],
    guards_cfg: GuardsConfig,
    subagents_cfg: SubagentsConfig,
    now: u64,
) -> (r: TaskBegin)
    ensures
        r.deep_view() == task_begun(
            run_id@,
            call.deep_view(),
            client_tools.deep_view(),
            guards_cfg,
            subagents_cfg,
            now,
        ),
{
    let args = match parse_task_args(&call.arguments) {
        Ok(args) => args,
        Err(err) => {
            let content = task_result_err(err.as_str());
            return TaskBegin::Rejected {
                event: SseEvent::TaskFailed {
                    run_id: run_id.to_owned(),
                    task_id: call.id.dup(),
                    message: err,
                    code: Some("bad_arguments".to_owned()),
                },
                reply: TaskReply { id: call.id.dup(), name: call.name.dup(), content },
            };
        },
    };
    let event = SseEvent::TaskStarted {
        run_id: run_id.to_owned(),
        task_id: call.id.dup(),
        goal: args.goal.dup(),
        agent: args.agent.as_str().to_owned(),
    };
    let opts = RunAgentOpts::for_subagent(
        call.id.dup(),
        concat("sub-", call.id.as_str()),
        guards_cfg,
        subagents_cfg,
    );
    let run = AgentRun::run_agent(
        run_id.to_owned(),
        build_subagent_context(&args),
        filter_tools_for_agent(client_tools, &args.agent),
        None,
        false,
        opts,
        now,
    );
    let timeout_secs: u64 = if subagents_cfg.subagent_timeout_secs < 1 {
        1
    } else {
        subagents_cfg.subagent_timeout_secs
    };
    TaskBegin::Started(Subtask { event, run, timeout_secs })
}

/// The event and the result of a subtask that is over.
pub open spec fn task_ended(
    run_id: Seq<char>,
    id: Seq<char>,
    name: Seq<char>,
    ending: TaskEndingView,
) -> (SseEventView, TaskReplyView) {
    match ending {
        TaskEndingView::Ended(RunOutcomeView::Finished(summary)) => (
            SseEventView::TaskCompleted { run_id, task_id: id, summary },
            TaskReplyView { id, name, content: task_ok_text(summary) },
        ),
        TaskEndingView::Ended(RunOutcomeView::Failed(OrchestratorErrorView::Cancelled)) => (
            SseEventView::TaskFailed {
                run_id,
                task_id: id,
                message: "cancelled"@,
                code: Some("cancelled"@),
            },
            TaskReplyView { id, name, content: tool_err_text("cancelled"@) },
        ),
        TaskEndingView::Ended(RunOutcomeView::Failed(err)) => (
            SseEventView::TaskFailed {
                run_id,
                task_id: id,
                message: err.message(),
                code: Some(err.code()),
            },
            TaskReplyView { id, name, content: tool_err_text(err.message()) },
        ),
        TaskEndingView::TimedOut => (
            SseEventView::TaskTimedOut { run_id, task_id: id },
            TaskReplyView { id, name, content: tool_err_text("subagent timed out"@) },
        ),
    }
}

/// Ends a subtask.
pub fn end_task(run_id: &str, id: String, name: String, ending: TaskEnding) -> (r: (
    SseEvent,
    TaskReply,
))
    ensures
        (r.0.deep_view(), r.1.deep_view()) == task_ended(run_id@, id@, name@, ending.deep_view()),
{
    let run_id = run_id.to_owned();
    let task_id = id.dup();
    match ending {
        TaskEnding::Ended(RunOutcome::Finished(summary)) => {
            let content = task_result_ok(summary.as_str());
            (SseEvent::TaskCompleted { run_id, task_id, summary }, TaskReply { id, name, content })
        },
        TaskEnding::Ended(RunOutcome::Failed(OrchestratorError::Cancelled)) => (
            SseEvent::TaskFailed {
                run_id,
                task_id,
                message: "cancelled".to_owned(),
                code: Some("cancelled".to_owned()),
            },
            TaskReply { id, name, content: task_result_err("cancelled") },
        ),
        TaskEnding::Ended(RunOutcome::Failed(err)) => {
            let message = err.message();
            let content = task_result_err(message.as_str());
            let code = Some(error_code(&err).to_owned());
            (
                SseEvent::TaskFailed { run_id, task_id, message, code },
                TaskReply { id, name, content },
            )
        },
        TaskEnding::TimedOut => (
            SseEvent::TaskTimedOut { run_id, task_id },
            TaskReply { id, name, content: task_result_err("subagent timed out") },
        ),
    }
}

} // verus!
