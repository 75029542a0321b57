//! What holds of the answers of the server, of new runs and of those that are taken up again, and of
//! what a reader finds in an event.

use vstd::prelude::*;

use crate::agent::orchestrator::state::PhaseView;
use crate::agent::tools::plan::nudged;
use crate::api::http::{
    cold_run_of, cold_start_of, conflict, is_sent_first, messages_queued, new_run_of, not_owner,
    refusal, request_for, result_handed, resumed, run_cancelled, started_run, ApiErrorView,
    ColdRunView, ColdStartView, HotEventsView,
};
use crate::api::sse::{call_json, todo_json, todo_list};
use crate::config::{GuardsConfig, SubagentsConfig};
use crate::json::{Json, JsonNum};
use crate::protocol::{
    CreateRunRequestView, SseEventView, TodoItemView, ToolCallView, WireMessageView,
};
use crate::runtime::{fresh_run, RunHandleView};
use crate::store::{
    cas, guards_from, stored_revision, CheckpointView, GuardsSnapshotView, PendingToolView,
    RunStatus,
};

verus! {

/// What a request on a run that is not under way here is answered: that there is no such run, just
/// where none is stored; that another instance has it, just where one is stored that is not over and
/// that this instance does not own; and else just that it cannot be.
pub proof fn law_why_a_request_is_refused(
    stored: Option<CheckpointView>,
    instance_id: Seq<char>,
)
    ensures
        refusal(stored, instance_id) is NotFound <==> stored is None,
        refusal(stored, instance_id) == not_owner() <==> is_with_another(stored, instance_id),
        refusal(stored, instance_id) == conflict() <==> stored is Some && !is_with_another(
            stored,
            instance_id,
        ),
{
}

/// Whether a run is stored that is not over, and that this instance does not own.
pub open spec fn is_with_another(stored: Option<CheckpointView>, instance_id: Seq<char>) -> bool {
    stored matches Some(cp) && goes_on(cp.status) && cp.owner_id != Some(instance_id)
}

/// Whether a run with this status is not over.
pub open spec fn goes_on(status: RunStatus) -> bool {
    status == RunStatus::Running || status == RunStatus::WaitingTool
}

/// Whether an object has a text under a key.
pub open spec fn has_text(tree: Json, key: Seq<char>, text: Seq<char>) -> bool {
    holds(tree, key, Json::Str(text))
}

/// Whether an object has a value under a key.
pub open spec fn holds(tree: Json, key: Seq<char>, value: Json) -> bool {
    tree matches Json::Obj(entries) && exists|i: int|
        0 <= i < entries.len() && #[trigger] entries[i] == (key, value)
}

/// Whether an object has a key.
pub open spec fn has_key(tree: Json, key: Seq<char>) -> bool {
    tree matches Json::Obj(entries) && exists|i: int|
        0 <= i < entries.len() && (#[trigger] entries[i]).0 == key
}

/// A run that is not found is answered by 404, anything else by 409; the body says what is wrong, and
/// has a code exactly where the error has one.
pub proof fn law_answer_to_a_refusal(err: ApiErrorView)
    ensures
        err.status() == 404 <==> err is NotFound,
        err.status() == 409 <==> err is Conflict,
        err is NotFound ==> has_text(err.body(), "error"@, "run not found"@),
        err is Conflict ==> has_text(err.body(), "error"@, "conflict"@),
        err matches ApiErrorView::Conflict { code: Some(code) } ==> has_text(
            err.body(),
            "code"@,
            code,
        ),
        err is NotFound || err == conflict() ==> !has_key(err.body(), "code"@),
{
    reveal_strlit("code");
    reveal_strlit("error");
    assert("code"@.len() != "error"@.len());
    match err {
        ApiErrorView::NotFound => {
            assert(err.body()->Obj_0[0] == ("error"@, Json::Str("run not found"@)));
        },
        ApiErrorView::Conflict { code: Some(code) } => {
            assert(err.body()->Obj_0[0] == ("code"@, Json::Str(code)));
            assert(err.body()->Obj_0[1] == ("error"@, Json::Str("conflict"@)));
        },
        ApiErrorView::Conflict { code: None } => {
            assert(err.body()->Obj_0[0] == ("error"@, Json::Str("conflict"@)));
        },
    }
}

/// Checkpoints of a new run are kept exactly where the server keeps them, the request wants them and
/// there is a store. The first one has everything that the request brought, belongs to this instance,
/// and can be written exactly where nothing is stored yet; a second write over nothing is refused.
pub proof fn law_new_run_is_kept_as_requested(
    req: CreateRunRequestView,
    run_id: Seq<char>,
    instance_id: Seq<char>,
    persist_enabled: bool,
    has_store: bool,
    now: u64,
    slot: Option<CheckpointView>,
)
    requires
        slot matches Some(cp) ==> cp.revision > 0,
    ensures
        ({
            let new = new_run_of(req, run_id, instance_id, persist_enabled, has_store, now);
            &&& new.persist <==> persist_enabled && has_store && req.options.persist
            &&& new.first is Some <==> new.persist
            &&& new.first matches Some(first) ==> {
                let cp = first.checkpoint;
                &&& cp.run_id == run_id
                &&& cp.context == req.messages
                &&& cp.tools == req.tools
                &&& cp.plan_mode == req.options.plan_mode
                &&& cp.subagents == req.options.subagents
                &&& cp.owner_id == Some(instance_id)
                &&& cp.status == RunStatus::Running
                &&& cp.todos.len() == 0
                &&& cp.pending_tool is None
                &&& cp.parent_run_id is None
                &&& cp.finish_reason is None
                &&& is_untouched(cp.guards)
                &&& cp.guards == guards_from(now)
                &&& cas(slot, cp, first.expected) is Ok <==> slot is None
                &&& cas(Some(cp), cp, first.expected) is Err
            }
        }),
{
}

/// Whether nothing has been counted yet.
pub open spec fn is_untouched(guards: GuardsSnapshotView) -> bool {
    &&& guards.llm_rounds == 0
    &&& guards.follow_up_rounds == 0
    &&& guards.noop_streak == 0
    &&& guards.last_assistant_norm.len() == 0
    &&& guards.started_at == guards.updated_at
}

/// The first checkpoint of a new run is enough to take the run up: it has the messages of the request,
/// behind the nudge in plan mode, its tools and its modes, and starts anew.
pub proof fn law_new_run_can_be_taken_up(
    req: CreateRunRequestView,
    run_id: Seq<char>,
    instance_id: Seq<char>,
    other: Seq<char>,
    guards_cfg: GuardsConfig,
    subagents_cfg: SubagentsConfig,
    now: u64,
    later: u64,
)
    requires
        req.options.persist,
    ensures
        new_run_of(req, run_id, instance_id, true, true, now).first matches Some(first) && (
        cold_start_of(Some(first.checkpoint), run_id, other) matches Ok(ColdStartView::Claim(claim))
            && (cold_run_of(
            run_id,
            claim.checkpoint,
            other,
            guards_cfg,
            subagents_cfg,
            later,
        ) matches Ok(ColdRunView::Go(run)) && {
            &&& run.run_id == run_id
            &&& run.context == (if req.options.plan_mode {
                nudged(req.messages)
            } else {
                req.messages
            })
            &&& run.tools == req.tools
            &&& run.session.plan_mode == req.options.plan_mode
            &&& run.session.subagents == req.options.subagents
            &&& run.session.guards == guards_from(now)
            &&& run.session.guards_cfg == guards_cfg
            &&& run.session.subagents_cfg == subagents_cfg
            &&& run.session.instance_id == other
            &&& run.session.enabled
            &&& run.phase == PhaseView::Start(false)
        })),
{
}

/// A claim changes who owns a run and counts the revision up by one, and nothing else of what is
/// stored; it is written over the revision that was read.
pub proof fn law_claim_changes_the_owner_only(
    cp: CheckpointView,
    run_id: Seq<char>,
    instance_id: Seq<char>,
)
    requires
        goes_on(cp.status),
        cp.revision < u64::MAX,
    ensures
        cold_start_of(Some(cp), run_id, instance_id) matches Ok(ColdStartView::Claim(claim)) && {
            let next = claim.checkpoint;
            &&& claim.expected == cp.revision
            &&& next.revision == cp.revision + 1
            &&& next.owner_id == Some(instance_id)
            &&& next.run_id == cp.run_id
            &&& next.status == cp.status
            &&& next.context == cp.context
            &&& next.tools == cp.tools
            &&& next.todos == cp.todos
            &&& next.plan_mode == cp.plan_mode
            &&& next.subagents == cp.subagents
            &&& next.pending_tool == cp.pending_tool
            &&& next.guards == cp.guards
            &&& next.parent_run_id == cp.parent_run_id
            &&& next.finish_reason == cp.finish_reason
        },
{
}

/// A run that is over is answered by the event of its end, which tells a cancelled run, a failed one
/// and one that completed apart; a run that is not stored is not found.
pub proof fn law_run_that_is_over_is_told(
    cp: CheckpointView,
    run_id: Seq<char>,
    instance_id: Seq<char>,
)
    ensures
        cold_start_of(None, run_id, instance_id) == Err::<ColdStartView, _>(ApiErrorView::NotFound),
        !goes_on(cp.status) ==> (cold_start_of(Some(cp), run_id, instance_id) matches Ok(
            ColdStartView::Over(event),
        ) && (event matches SseEventView::RunFinished { run_id: told, reason } && told == run_id && {
            &&& reason == "cancelled"@ <==> cp.status == RunStatus::Cancelled
            &&& reason == "error"@ <==> cp.status == RunStatus::Failed
            &&& reason == "stop"@ <==> cp.status == RunStatus::Completed
        })),
{
    reveal_strlit("cancelled");
    reveal_strlit("error");
    reveal_strlit("stop");
    assert("cancelled"@.len() == 9 && "error"@.len() == 5 && "stop"@.len() == 4);
}

/// A run that waited for a client tool is asked for just that tool again; a run that did not just
/// goes on. Nothing else can be taken up.
pub proof fn law_where_a_run_is_taken_up(
    run_id: Seq<char>,
    cp: CheckpointView,
    instance_id: Seq<char>,
    guards_cfg: GuardsConfig,
    subagents_cfg: SubagentsConfig,
    now: u64,
)
    ensures
        match cold_run_of(run_id, cp, instance_id, guards_cfg, subagents_cfg, now) {
            Ok(ColdRunView::Wait { pending, event, run }) => {
                &&& cp.status == RunStatus::WaitingTool
                &&& cp.pending_tool == Some(pending)
                &&& asks_for(event, run_id, pending)
                &&& run.session.pending_tool == Some(pending)
                &&& run.phase == PhaseView::Resume(pending)
            },
            Ok(ColdRunView::Go(run)) => {
                &&& cp.status == RunStatus::Running
                &&& run.session.pending_tool is None
                &&& run.phase == PhaseView::Start(false)
            },
            Err(_) => !goes_on(cp.status) || (cp.status == RunStatus::WaitingTool
                && cp.pending_tool is None),
        },
{
}

/// Whether an event asks the client for this tool.
pub open spec fn asks_for(event: SseEventView, id: Seq<char>, pending: PendingToolView) -> bool {
    event matches SseEventView::ToolRequest {
        run_id,
        tool_call_id,
        name,
        arguments,
        agent_id,
        parent_task_id,
    } && run_id == id && tool_call_id == pending.tool_call_id && name == pending.name && arguments
        == pending.arguments && agent_id == pending.agent_id && parent_task_id
        == pending.parent_task_id
}

/// A client is asked for the tool whose result is awaited; that a run is taken up again is told with
/// its revision and its status.
pub proof fn law_requests_ask_for_the_tool(
    id: Seq<char>,
    pending: PendingToolView,
    at: u64,
    of: RunStatus,
)
    ensures
        asks_for(request_for(id, pending), id, pending),
        resumed(id, at, of) matches SseEventView::RunResumed { run_id, revision, status } && run_id
            == id && revision == at && status == of.label(),
{
}

/// Whether an object has a number under a key.
pub open spec fn has_number(tree: Json, key: Seq<char>, n: u64) -> bool {
    holds(tree, key, Json::Num(JsonNum::PosInt(n)))
}

/// The run that an event is about.
pub open spec fn run_of(event: SseEventView) -> Seq<char> {
    match event {
        SseEventView::RunStarted { run_id } => run_id,
        SseEventView::RunResumed { run_id, .. } => run_id,
        SseEventView::ContextSummarized { run_id, .. } => run_id,
        SseEventView::MessageDelta { run_id, .. } => run_id,
        SseEventView::ReasoningDelta { run_id, .. } => run_id,
        SseEventView::MessageCompleted { run_id, .. } => run_id,
        SseEventView::ToolRequest { run_id, .. } => run_id,
        SseEventView::TodosUpdated { run_id, .. } => run_id,
        SseEventView::TaskStarted { run_id, .. } => run_id,
        SseEventView::TaskCompleted { run_id, .. } => run_id,
        SseEventView::TaskFailed { run_id, .. } => run_id,
        SseEventView::TaskTimedOut { run_id, .. } => run_id,
        SseEventView::RunFinished { run_id, .. } => run_id,
        SseEventView::Error { run_id, .. } => run_id,
    }
}

/// Whether a reader finds each part of an event under its key.
pub open spec fn is_told(event: SseEventView, tree: Json) -> bool {
    match event {
        SseEventView::RunStarted { .. } => true,
        SseEventView::RunResumed { revision, status, .. } => has_number(tree, "revision"@, revision)
            && has_text(tree, "status"@, status),
        SseEventView::ContextSummarized {
            before_tokens,
            after_tokens,
            kept_prefix,
            kept_suffix,
            ..
        } => {
            &&& has_number(tree, "before_tokens"@, before_tokens)
            &&& has_number(tree, "after_tokens"@, after_tokens)
            &&& has_number(tree, "kept_prefix"@, kept_prefix as u64)
            &&& has_number(tree, "kept_suffix"@, kept_suffix as u64)
        },
        SseEventView::MessageDelta { message_id, delta, .. } => has_text(
            tree,
            "message_id"@,
            message_id,
        ) && has_text(tree, "delta"@, delta),
        SseEventView::ReasoningDelta { message_id, delta, .. } => has_text(
            tree,
            "message_id"@,
            message_id,
        ) && has_text(tree, "delta"@, delta),
        SseEventView::MessageCompleted {
            message_id,
            role,
            content,
            tool_calls,
            source,
            reasoning_content,
            ..
        } => {
            &&& has_text(tree, "message_id"@, message_id)
            &&& has_text(tree, "role"@, role.label())
            &&& has_text(tree, "content"@, content)
            &&& tool_calls matches Some(calls) ==> has_calls(tree, calls)
            &&& source matches Some(from) ==> has_text(tree, "source"@, from.label())
            &&& reasoning_content matches Some(text) ==> has_text(
                tree,
                "reasoning_content"@,
                text,
            )
        },
        SseEventView::ToolRequest {
            tool_call_id,
            name,
            arguments,
            agent_id,
            parent_task_id,
            ..
        } => {
            &&& has_text(tree, "tool_call_id"@, tool_call_id)
            &&& has_text(tree, "name"@, name)
            &&& holds(tree, "arguments"@, arguments)
            &&& agent_id matches Some(text) ==> has_text(tree, "agent_id"@, text)
            &&& parent_task_id matches Some(text) ==> has_text(tree, "parent_task_id"@, text)
        },
        SseEventView::TodosUpdated { todos, .. } => has_todos(tree, todos),
        SseEventView::TaskStarted { task_id, goal, agent, .. } => has_text(
            tree,
            "task_id"@,
            task_id,
        ) && has_text(tree, "goal"@, goal) && has_text(tree, "agent"@, agent),
        SseEventView::TaskCompleted { task_id, summary, .. } => has_text(tree, "task_id"@, task_id)
            && has_text(tree, "summary"@, summary),
        SseEventView::TaskFailed { task_id, message, code, .. } => has_text(
            tree,
            "task_id"@,
            task_id,
        ) && has_text(tree, "message"@, message) && (code matches Some(text) ==> has_text(
            tree,
            "code"@,
            text,
        )),
        SseEventView::TaskTimedOut { task_id, .. } => has_text(tree, "task_id"@, task_id),
        SseEventView::RunFinished { reason, .. } => has_text(tree, "reason"@, reason),
        SseEventView::Error { message, code, .. } => has_text(tree, "message"@, message) && (
        code matches Some(text) ==> has_text(tree, "code"@, text)),
    }
}

/// Whether an object has the calls of a message, each with its id, its name and its arguments.
pub open spec fn has_calls(tree: Json, calls: Seq<ToolCallView>) -> bool {
    exists|items: Seq<Json>| #[trigger]
        holds(tree, "tool_calls"@, Json::Arr(items)) && items.len() == calls.len() && forall|i: int|
            0 <= i < calls.len() ==> {
                &&& has_text(#[trigger] items[i], "id"@, calls[i].id)
                &&& has_text(items[i], "name"@, calls[i].name)
                &&& holds(items[i], "arguments"@, calls[i].arguments)
            }
}

/// Whether an object has the todos of a list, each with its id, its content and its status.
pub open spec fn has_todos(tree: Json, todos: Seq<TodoItemView>) -> bool {
    exists|items: Seq<Json>| #[trigger]
        holds(tree, "todos"@, Json::Arr(items)) && items.len() == todos.len() && forall|i: int|
            0 <= i < todos.len() ==> {
                &&& has_text(#[trigger] items[i], "id"@, todos[i].id)
                &&& has_text(items[i], "content"@, todos[i].content)
                &&& has_text(items[i], "status"@, todos[i].status.label())
            }
}

proof fn lemma_has_calls(tree: Json, calls: Seq<ToolCallView>)
    requires
        holds(
            tree,
            "tool_calls"@,
            Json::Arr(Seq::new(calls.len(), |i: int| call_json(calls[i]))),
        ),
    ensures
        has_calls(tree, calls),
{
    let items = Seq::new(calls.len(), |i: int| call_json(calls[i]));
    assert forall|i: int| 0 <= i < calls.len() implies {
        &&& has_text(#[trigger] items[i], "id"@, calls[i].id)
        &&& has_text(items[i], "name"@, calls[i].name)
        &&& holds(items[i], "arguments"@, calls[i].arguments)
    } by {
        let entries = items[i]->Obj_0;
        assert(entries[0] == ("id"@, Json::Str(calls[i].id)));
        assert(entries[1] == ("name"@, Json::Str(calls[i].name)));
        assert(entries[2] == ("arguments"@, calls[i].arguments));
    }
}

proof fn lemma_has_todos(tree: Json, todos: Seq<TodoItemView>)
    requires
        holds(tree, "todos"@, todo_list(todos)),
    ensures
        has_todos(tree, todos),
{
    let items = Seq::new(todos.len(), |i: int| todo_json(todos[i]));
    assert forall|i: int| 0 <= i < todos.len() implies {
        &&& has_text(#[trigger] items[i], "id"@, todos[i].id)
        &&& has_text(items[i], "content"@, todos[i].content)
        &&& has_text(items[i], "status"@, todos[i].status.label())
    } by {
        let entries = items[i]->Obj_0;
        assert(entries[0] == ("id"@, Json::Str(todos[i].id)));
        assert(entries[1] == ("content"@, Json::Str(todos[i].content)));
        assert(entries[2] == ("status"@, Json::Str(todos[i].status.label())));
    }
}

/// A reader finds the name of an event, the run that it is about, and each of its parts under its own
/// key.
#[verifier::rlimit(50)]
#[verifier::spinoff_prover]
pub proof fn law_event_tells_its_parts(event: SseEventView)
    ensures
        has_text(event.json(), "type"@, event.event_name()),
        has_text(event.json(), "run_id"@, run_of(event)),
        is_told(event, event.json()),
{
    let tree = event.json();
    let all = tree->Obj_0;
    let n = all.len();
    assert(all[0] == ("type"@, Json::Str(event.event_name())));
    assert(all[1] == event.entries()[0]);
    assert(all[1] == ("run_id"@, Json::Str(run_of(event))));
    match event {
        SseEventView::MessageCompleted { tool_calls, source, reasoning_content, .. } => {
            assert(all[2].0 == "message_id"@ && all[3].0 == "role"@ && all[4].0 == "content"@);
            let c: int = if tool_calls is Some {
                1
            } else {
                0
            };
            let s: int = if source is Some {
                1
            } else {
                0
            };
            if let Some(calls) = tool_calls {
                assert(all[5].0 == "tool_calls"@);
                lemma_has_calls(tree, calls);
            }
            if let Some(from) = source {
                assert(all[5 + c] == ("source"@, Json::Str(from.label())));
            }
            if let Some(text) = reasoning_content {
                assert(all[5 + c + s] == ("reasoning_content"@, Json::Str(text)));
            }
        },
        SseEventView::ToolRequest { agent_id, parent_task_id, .. } => {
            assert(all[2].0 == "tool_call_id"@ && all[3].0 == "name"@ && all[4].0 == "arguments"@);
            let a: int = if agent_id is Some {
                1
            } else {
                0
            };
            if let Some(text) = agent_id {
                assert(all[5] == ("agent_id"@, Json::Str(text)));
            }
            if let Some(text) = parent_task_id {
                assert(all[5 + a] == ("parent_task_id"@, Json::Str(text)));
            }
        },
        SseEventView::TodosUpdated { todos, .. } => {
            assert(all[2] == ("todos"@, todo_list(todos)));
            lemma_has_todos(tree, todos);
        },
        SseEventView::ContextSummarized { .. } => {
            assert(all[2].0 == "before_tokens"@ && all[3].0 == "after_tokens"@ && all[4].0
                == "kept_prefix"@ && all[5].0 == "kept_suffix"@);
        },
        SseEventView::TaskStarted { .. } => {
            assert(all[2].0 == "task_id"@ && all[3].0 == "goal"@ && all[4].0 == "agent"@);
        },
        SseEventView::TaskFailed { code, .. } => {
            assert(all[2].0 == "task_id"@ && all[3].0 == "message"@);
            if let Some(text) = code {
                assert(all[4] == ("code"@, Json::Str(text)));
            }
        },
        SseEventView::Error { code, .. } => {
            assert(all[2].0 == "message"@);
            if let Some(text) = code {
                assert(all[3] == ("code"@, Json::Str(text)));
            }
        },
        SseEventView::RunStarted { .. } => {},
        SseEventView::TaskTimedOut { .. } | SseEventView::RunFinished { .. } => {
            assert(n == 3);
            assert(all[2].0 == "task_id"@ || all[2].0 == "reason"@);
        },
        _ => {
            assert(n == 4);
            assert(all[2] == event.entries()[1]);
            assert(all[3] == event.entries()[2]);
        },
    }
}

/// A compare-and-set succeeds exactly where the revision that is stored is the expected one, and then
/// what it writes is stored; nothing stored counts as revision zero.
pub proof fn law_when_a_write_succeeds(
    slot: Option<CheckpointView>,
    cp: CheckpointView,
    expected: u64,
)
    ensures
        cas(slot, cp, expected) is Ok ==> cas(slot, cp, expected)->Ok_0 == Some(cp),
        slot is None ==> (cas(slot, cp, expected) is Ok <==> expected == 0),
        slot matches Some(old) ==> (cas(slot, cp, expected) is Ok <==> expected == old.revision),
        cas(slot, cp, expected) is Err ==> cas(slot, cp, expected)->Err_0 is Conflict,
        cas(slot, cp, stored_revision(slot)) is Ok,
{
}

/// A run of which nothing has happened waits for nothing and has told no one.
pub proof fn law_fresh_run_is_idle<W, S>(id: Seq<char>)
    ensures
        ({
            let run: RunHandleView<W, S> = fresh_run(id);
            &&& run.id == id
            &&& run.steer.len() == 0
            &&& forall|call: Seq<char>| !run.waiters.dom().contains(call)
            &&& forall|call: Seq<char>| !run.pending.dom().contains(call)
            &&& run.subscriber is None
            &&& !run.persist && !run.cancelled && !run.finished
        }),
{
}

/// A run that is cancelled or over waits for nothing, and nothing is queued for it. Cancelling keeps
/// who gets the events, since the end is still to be told, and does not end the run; the end lets go
/// of it, and does not cancel the run.
pub proof fn law_cancelled_run_waits_for_nothing<W, S>(run: RunHandleView<W, S>)
    ensures
        ({
            let cancelled = run.after_cancel();
            &&& cancelled.cancelled
            &&& cancelled.finished == run.finished
            &&& cancelled.subscriber == run.subscriber
            &&& cancelled.id == run.id
            &&& cancelled.persist == run.persist
            &&& cancelled.steer.len() == 0
            &&& forall|call: Seq<char>| !cancelled.waiters.dom().contains(call)
            &&& forall|call: Seq<char>| !cancelled.pending.dom().contains(call)
        }),
        ({
            let over = run.after_finish();
            &&& over.finished
            &&& over.cancelled == run.cancelled
            &&& over.id == run.id
            &&& over.persist == run.persist
            &&& !run.finished ==> over.steer.len() == 0 && over.subscriber is None
            &&& !run.finished ==> forall|call: Seq<char>| !over.waiters.dom().contains(call)
            &&& !run.finished ==> forall|call: Seq<char>| !over.pending.dom().contains(call)
            &&& over.after_finish() == over
        }),
{
}

/// What is kept of a call goes, and of no other call; nor does anything else of the run.
pub proof fn law_one_call_is_forgotten<W, S>(
    run: RunHandleView<W, S>,
    gone: Seq<char>,
    other: Seq<char>,
)
    ensures
        ({
            let after = run.forgotten(gone);
            &&& !after.waiters.dom().contains(gone)
            &&& !after.pending.dom().contains(gone)
            &&& other != gone ==> (after.waiters.dom().contains(other)
                <==> run.waiters.dom().contains(other))
            &&& other != gone ==> (after.pending.dom().contains(other)
                <==> run.pending.dom().contains(other))
            &&& after.waiters.dom().contains(other) ==> after.waiters[other] == run.waiters[other]
            &&& after.pending.dom().contains(other) ==> after.pending[other] == run.pending[other]
            &&& after.steer == run.steer
            &&& after.subscriber == run.subscriber
            &&& after.cancelled == run.cancelled
            &&& after.finished == run.finished
        }),
{
}

/// The calls of a subtask are those that were made for it.
pub proof fn law_calls_of_a_subtask<W, S>(
    run: RunHandleView<W, S>,
    task_id: Seq<char>,
    call: Seq<char>,
)
    ensures
        run.calls_of_task(task_id).contains(call) <==> run.pending.dom().contains(call)
            && run.pending[call].parent_task_id == Some(task_id),
{
}

/// A new run starts with what the request brought, under its id: its messages, behind the nudge in plan
/// mode, its tools and its modes, and the limits of the server. It counts from nothing, announces its
/// start, and is saved exactly where it is to be.
pub proof fn law_new_run_starts_as_requested(
    req: CreateRunRequestView,
    run_id: Seq<char>,
    instance_id: Seq<char>,
    persist: bool,
    revision: u64,
    guards_cfg: GuardsConfig,
    subagents_cfg: SubagentsConfig,
    now: u64,
)
    ensures
        ({
            let run = started_run(
                req,
                run_id,
                instance_id,
                persist,
                revision,
                guards_cfg,
                subagents_cfg,
                now,
            );
            &&& run.run_id == run_id
            &&& run.context == (if req.options.plan_mode {
                nudged(req.messages)
            } else {
                req.messages
            })
            &&& run.tools == req.tools
            &&& run.session.plan_mode == req.options.plan_mode
            &&& run.session.subagents == req.options.subagents
            &&& run.session.guards_cfg == guards_cfg
            &&& run.session.subagents_cfg == subagents_cfg
            &&& is_untouched(run.session.guards)
            &&& run.session.guards == guards_from(now)
            &&& run.session.enabled == persist
            &&& persist ==> run.session.revision == revision && run.session.instance_id
                == instance_id
            &&& run.session.todos.len() == 0
            &&& run.session.pending_tool is None
            &&& !run.session.fold_stream
            &&& run.session.agent_id is None && run.session.parent_task_id is None
            &&& run.phase == PhaseView::Start(true)
        }),
{
}

/// A request on a run that is not known here is refused with the reason, and changes nothing.
pub proof fn law_unknown_run_is_refused<W, S>(
    runs: Map<Seq<char>, RunHandleView<W, S>>,
    id: Seq<char>,
    stored: Option<CheckpointView>,
    instance_id: Seq<char>,
    call_id: Seq<char>,
    messages: Seq<WireMessageView>,
)
    requires
        !runs.dom().contains(id),
    ensures
        result_handed(runs, id, stored, instance_id, call_id) == (
            runs,
            Err::<W, ApiErrorView>(refusal(stored, instance_id)),
        ),
        messages_queued(runs, id, stored, instance_id, messages) == (
            runs,
            Err::<nat, ApiErrorView>(refusal(stored, instance_id)),
        ),
        run_cancelled(runs, id) == (runs, Err::<(), ApiErrorView>(ApiErrorView::NotFound)),
{
}

/// A request on one run changes no other.
pub proof fn law_other_runs_stay<W, S>(
    runs: Map<Seq<char>, RunHandleView<W, S>>,
    id: Seq<char>,
    other: Seq<char>,
    stored: Option<CheckpointView>,
    instance_id: Seq<char>,
    call_id: Seq<char>,
    messages: Seq<WireMessageView>,
)
    requires
        other != id,
    ensures
        ({
            let a = result_handed(runs, id, stored, instance_id, call_id).0;
            let b = messages_queued(runs, id, stored, instance_id, messages).0;
            let c = run_cancelled(runs, id).0;
            &&& a.dom().contains(other) <==> runs.dom().contains(other)
            &&& b.dom().contains(other) <==> runs.dom().contains(other)
            &&& c.dom().contains(other) <==> runs.dom().contains(other)
            &&& runs.dom().contains(other) ==> a[other] == runs[other] && b[other] == runs[other]
                && c[other] == runs[other]
        }),
{
}

/// Messages for a run that goes on are queued behind those that are there, and counted; a run that was
/// cancelled here takes no more of them, and no results.
pub proof fn law_requests_on_a_run<W, S>(
    runs: Map<Seq<char>, RunHandleView<W, S>>,
    id: Seq<char>,
    stored: Option<CheckpointView>,
    instance_id: Seq<char>,
    call_id: Seq<char>,
    messages: Seq<WireMessageView>,
)
    requires
        runs.dom().contains(id),
    ensures
        !runs[id].cancelled && !runs[id].finished ==> {
            let (after, queued) = messages_queued(runs, id, stored, instance_id, messages);
            &&& queued == Ok::<nat, ApiErrorView>(messages.len())
            &&& after[id].steer == runs[id].steer + messages
        },
        !runs[id].finished && runs[id].waiters.dom().contains(call_id) ==> {
            let (after, waiter) = result_handed(runs, id, stored, instance_id, call_id);
            &&& waiter == Ok::<W, ApiErrorView>(runs[id].waiters[call_id])
            &&& !after[id].waiters.dom().contains(call_id)
            &&& !after[id].pending.dom().contains(call_id)
            &&& result_handed(after, id, stored, instance_id, call_id).1 == Err::<W, ApiErrorView>(
                conflict(),
            )
        },
        ({
            let (after, answer) = run_cancelled(runs, id);
            &&& answer is Ok
            &&& after[id].cancelled
            &&& messages_queued(after, id, stored, instance_id, messages) == (
                after,
                Err::<nat, ApiErrorView>(conflict()),
            )
            &&& result_handed(after, id, stored, instance_id, call_id) == (
                after,
                Err::<W, ApiErrorView>(conflict()),
            )
        }),
{
}

/// A new subscriber hears at once where a run is: that it is over, exactly where it is; else its revision
/// and whether it waits for a tool, and then of every tool that is open, each as it was first asked for.
pub proof fn law_subscriber_is_caught_up<W, S>(
    run: RunHandleView<W, S>,
    at: u64,
    hot: HotEventsView,
)
    requires
        is_sent_first(run, at, hot),
    ensures
        hot is Over <==> run.finished,
        hot matches HotEventsView::Over(event) ==> (event matches SseEventView::RunFinished {
            run_id,
            ..
        } && run_id == run.id),
        hot matches HotEventsView::Live(events) ==> {
            &&& events.len() > 0
            &&& events[0] matches SseEventView::RunResumed { run_id, revision, status } && run_id
                == run.id && revision == at && (status == "waiting_tool"@ <==> exists|call: Seq<char>|
                run.waiters.dom().contains(call)) && (status == "running"@ <==> forall|
                call: Seq<char>,
            |
                !run.waiters.dom().contains(call))
            &&& forall|call: Seq<char>| #[trigger]
                run.pending.dom().contains(call) ==> is_asked_for(events, run.id, run.pending[call])
        },
{
    reveal_strlit("waiting_tool");
    reveal_strlit("running");
    assert("waiting_tool"@.len() == 12 && "running"@.len() == 7);
    if let HotEventsView::Live(events) = hot {
        let empty = Map::<Seq<char>, W>::empty();
        if run.waiters != empty {
            assert(exists|call: Seq<char>| run.waiters.dom().contains(call)) by {
                if forall|call: Seq<char>| !run.waiters.dom().contains(call) {
                    assert(run.waiters =~= empty);
                }
            }
        }
        assert forall|call: Seq<char>| #[trigger] run.pending.dom().contains(call) implies is_asked_for(
            events,
            run.id,
            run.pending[call],
        ) by {
            let request = request_for(run.id, run.pending[call]);
            assert(events.contains(request));
            let i = choose|i: int| 0 <= i < events.len() && events[i] == request;
            assert(asks_for(events[i], run.id, run.pending[call]));
        }
    }
}

/// Whether one of the events asks for this tool.
pub open spec fn is_asked_for(
    events: Seq<SseEventView>,
    id: Seq<char>,
    pending: PendingToolView,
) -> bool {
    exists|i: int| 0 <= i < events.len() && asks_for(#[trigger] events[i], id, pending)
}

} // verus!
