//! What a reader of the wire can tell of an event.

use vstd::prelude::*;

use crate::api::sse::{call_json, some_calls, some_source, some_text, todo_json, todo_list};
use crate::json::Json;
use crate::protocol::{MessageSource, Role, SseEventView, TodoItemView, TodoStatus, ToolCallView};

verus! {

/// Whether two events are of the same kind.
pub open spec fn same_kind(a: SseEventView, b: SseEventView) -> bool {
    &&& (a is RunStarted) == (b is RunStarted)
    &&& (a is RunResumed) == (b is RunResumed)
    &&& (a is ContextSummarized) == (b is ContextSummarized)
    &&& (a is MessageDelta) == (b is MessageDelta)
    &&& (a is ReasoningDelta) == (b is ReasoningDelta)
    &&& (a is MessageCompleted) == (b is MessageCompleted)
    &&& (a is ToolRequest) == (b is ToolRequest)
    &&& (a is TodosUpdated) == (b is TodosUpdated)
    &&& (a is TaskStarted) == (b is TaskStarted)
    &&& (a is TaskCompleted) == (b is TaskCompleted)
    &&& (a is TaskFailed) == (b is TaskFailed)
    &&& (a is TaskTimedOut) == (b is TaskTimedOut)
    &&& (a is RunFinished) == (b is RunFinished)
    &&& (a is Error) == (b is Error)
}

proof fn lemma_name_tells_kind(a: SseEventView, b: SseEventView)
    requires
        a.event_name() == b.event_name(),
    ensures
        same_kind(a, b),
{
    reveal_strlit("run.started");
    reveal_strlit("run.resumed");
    reveal_strlit("context.summarized");
    reveal_strlit("message.delta");
    reveal_strlit("reasoning.delta");
    reveal_strlit("message.completed");
    reveal_strlit("tool.request");
    reveal_strlit("todos.updated");
    reveal_strlit("task.started");
    reveal_strlit("task.completed");
    reveal_strlit("task.failed");
    reveal_strlit("task.timed_out");
    reveal_strlit("run.finished");
    reveal_strlit("error");
    assert("run.started"@[4] == 's' && "run.resumed"@[4] == 'r');
    assert("run.started"@[0] == 'r' && "task.failed"@[0] == 't');
    assert("run.resumed"@[0] == 'r' && "task.failed"@[0] == 't');
    assert("message.delta"@[0] == 'm' && "todos.updated"@[0] == 't');
    assert("tool.request"@[1] == 'o' && "task.started"@[1] == 'a');
    assert("tool.request"@[0] == 't' && "run.finished"@[0] == 'r');
    assert("task.started"@[0] == 't' && "run.finished"@[0] == 'r');
    assert("task.completed"@[5] == 'c' && "task.timed_out"@[5] == 't');
    assert("run.started"@.len() == 11);
    assert("run.resumed"@.len() == 11);
    assert("context.summarized"@.len() == 18);
    assert("message.delta"@.len() == 13);
    assert("reasoning.delta"@.len() == 15);
    assert("message.completed"@.len() == 17);
    assert("tool.request"@.len() == 12);
    assert("todos.updated"@.len() == 13);
    assert("task.started"@.len() == 12);
    assert("task.completed"@.len() == 14);
    assert("task.failed"@.len() == 11);
    assert("task.timed_out"@.len() == 14);
    assert("run.finished"@.len() == 12);
    assert("error"@.len() == 5);
}

proof fn lemma_roles_tell_apart(a: Role, b: Role)
    requires
        a.label() == b.label(),
    ensures
        a == b,
{
    reveal_strlit("user");
    reveal_strlit("assistant");
    reveal_strlit("system");
    reveal_strlit("tool");
    assert("user"@[0] == 'u' && "tool"@[0] == 't');
    assert("user"@.len() == 4 && "assistant"@.len() == 9 && "system"@.len() == 6);
}

proof fn lemma_sources_tell_apart(a: MessageSource, b: MessageSource)
    requires
        a.label() == b.label(),
    ensures
        a == b,
{
    reveal_strlit("assistant");
    reveal_strlit("steer");
    reveal_strlit("follow_up");
    assert("assistant"@[0] == 'a' && "follow_up"@[0] == 'f' && "steer"@[0] == 's');
}

proof fn lemma_statuses_tell_apart(a: TodoStatus, b: TodoStatus)
    requires
        a.label() == b.label(),
    ensures
        a == b,
{
    reveal_strlit("pending");
    reveal_strlit("in_progress");
    reveal_strlit("completed");
    reveal_strlit("cancelled");
    assert("pending"@[0] == 'p' && "in_progress"@[0] == 'i');
    assert("completed"@[0] == 'c' && "cancelled"@[0] == 'c');
    assert("completed"@[1] == 'o' && "cancelled"@[1] == 'a');
}

proof fn lemma_calls_tell_apart(a: Seq<ToolCallView>, b: Seq<ToolCallView>)
    requires
        some_calls(Some(a)) == some_calls(Some(b)),
    ensures
        a == b,
{
    let left = some_calls(Some(a))[0].1->Arr_0;
    let right = some_calls(Some(b))[0].1->Arr_0;
    assert(left.len() == a.len() && right.len() == b.len());
    assert(left == right);
    assert forall|i: int| 0 <= i < a.len() implies a[i] == b[i] by {
        assert(left[i] == call_json(a[i]) && right[i] == call_json(b[i]));
        let x = call_json(a[i])->Obj_0;
        let y = call_json(b[i])->Obj_0;
        assert(x[0] == y[0] && x[1] == y[1] && x[2] == y[2]);
    }
    assert(a =~= b);
}

proof fn lemma_todos_tell_apart(a: Seq<TodoItemView>, b: Seq<TodoItemView>)
    requires
        todo_list(a) == todo_list(b),
    ensures
        a == b,
{
    let left = todo_list(a)->Arr_0;
    let right = todo_list(b)->Arr_0;
    assert(left.len() == a.len() && right.len() == b.len());
    assert(left == right);
    assert forall|i: int| 0 <= i < a.len() implies a[i] == b[i] by {
        assert(left[i] == todo_json(a[i]) && right[i] == todo_json(b[i]));
        let x = todo_json(a[i])->Obj_0;
        let y = todo_json(b[i])->Obj_0;
        assert(x[0] == y[0] && x[1] == y[1] && x[2] == y[2]);
        lemma_statuses_tell_apart(a[i].status, b[i].status);
    }
    assert(a =~= b);
}

proof fn lemma_text_tells_apart(key: Seq<char>, a: Option<Seq<char>>, b: Option<Seq<char>>)
    requires
        some_text(key, a) == some_text(key, b),
    ensures
        a == b,
{
    let left = some_text(key, a);
    let right = some_text(key, b);
    match (a, b) {
        (Some(x), Some(y)) => {
            assert(left[0] == right[0]);
            assert(left[0].1 == Json::Str(x));
            assert(right[0].1 == Json::Str(y));
        },
        (Some(_), None) => {
            assert(left.len() == 1 && right.len() == 0);
        },
        (None, Some(_)) => {
            assert(left.len() == 0 && right.len() == 1);
        },
        (None, None) => {},
    }
}

/// An entry that may be left out can be told from those that follow it by its key.
proof fn lemma_parts_tell_apart(
    key: Seq<char>,
    a: Seq<(Seq<char>, Json)>,
    b: Seq<(Seq<char>, Json)>,
    rest_a: Seq<(Seq<char>, Json)>,
    rest_b: Seq<(Seq<char>, Json)>,
)
    requires
        a + rest_a == b + rest_b,
        a.len() <= 1,
        b.len() <= 1,
        a.len() == 1 ==> a[0].0 == key,
        b.len() == 1 ==> b[0].0 == key,
        forall|i: int| 0 <= i < rest_a.len() ==> (#[trigger] rest_a[i]).0 != key,
        forall|i: int| 0 <= i < rest_b.len() ==> (#[trigger] rest_b[i]).0 != key,
    ensures
        a == b,
        rest_a == rest_b,
{
    let left = a + rest_a;
    let right = b + rest_b;
    assert(left.len() == right.len());
    if left.len() > 0 {
        assert(left[0] == right[0]);
        if a.len() == 1 {
            assert(left[0] == a[0]);
            assert(b.len() == 0 ==> right[0] == rest_b[0]);
        } else {
            assert(left[0] == rest_a[0]);
            assert(b.len() == 1 ==> right[0] == b[0]);
        }
    }
    assert(a.len() == b.len());
    assert(left.take(a.len() as int) =~= a);
    assert(right.take(b.len() as int) =~= b);
    assert(left.skip(a.len() as int) =~= rest_a);
    assert(right.skip(b.len() as int) =~= rest_b);
}

proof fn lemma_tails_tell_apart(
    calls1: Option<Seq<ToolCallView>>,
    source1: Option<MessageSource>,
    text1: Option<Seq<char>>,
    calls2: Option<Seq<ToolCallView>>,
    source2: Option<MessageSource>,
    text2: Option<Seq<char>>,
)
    requires
        some_calls(calls1) + (some_source(source1) + some_text("reasoning_content"@, text1))
            == some_calls(calls2) + (some_source(source2) + some_text("reasoning_content"@, text2)),
    ensures
        calls1 == calls2,
        source1 == source2,
        text1 == text2,
{
    reveal_strlit("tool_calls");
    reveal_strlit("source");
    reveal_strlit("reasoning_content");
    assert("tool_calls"@.len() == 10 && "source"@.len() == 6 && "reasoning_content"@.len() == 17);
    let rest1 = some_source(source1) + some_text("reasoning_content"@, text1);
    let rest2 = some_source(source2) + some_text("reasoning_content"@, text2);
    lemma_parts_tell_apart("tool_calls"@, some_calls(calls1), some_calls(calls2), rest1, rest2);
    lemma_parts_tell_apart(
        "source"@,
        some_source(source1),
        some_source(source2),
        some_text("reasoning_content"@, text1),
        some_text("reasoning_content"@, text2),
    );
    lemma_text_tells_apart("reasoning_content"@, text1, text2);
    assert(some_calls(calls1).len() == some_calls(calls2).len());
    assert(some_source(source1).len() == some_source(source2).len());
    if let (Some(a), Some(b)) = (source1, source2) {
        assert(some_source(source1)[0] == some_source(source2)[0]);
        lemma_sources_tell_apart(a, b);
    }
    if let (Some(a), Some(b)) = (calls1, calls2) {
        lemma_calls_tell_apart(a, b);
    }
}

#[verifier::rlimit(50)]
proof fn lemma_messages_tell_apart(a: SseEventView, b: SseEventView)
    requires
        a.entries() == b.entries(),
        a is MessageCompleted,
        b is MessageCompleted,
    ensures
        a == b,
{
    let x = a.entries();
    let y = b.entries();
    let role = a->role;
    let tool_calls = a->tool_calls;
    let source = a->source;
    let reasoning_content = a->reasoning_content;
    assert(x[0] == y[0]);
    assert(x[1] == y[1]);
    assert(x[2] == y[2]);
    assert(x[3] == y[3]);
    lemma_roles_tell_apart(role, b->role);
    let key = "reasoning_content"@;
    let calls = b->tool_calls;
    let from = b->source;
    let thought = b->reasoning_content;
    assert(x.skip(4) =~= some_calls(tool_calls) + (some_source(source) + some_text(
        key,
        reasoning_content,
    )));
    assert(y.skip(4) =~= some_calls(calls) + (some_source(from) + some_text(key, thought)));
    lemma_tails_tell_apart(tool_calls, source, reasoning_content, calls, from, thought);
}

proof fn lemma_requests_tell_apart(a: SseEventView, b: SseEventView)
    requires
        a.entries() == b.entries(),
        a is ToolRequest,
        b is ToolRequest,
    ensures
        a == b,
{
    let x = a.entries();
    let y = b.entries();
    let agent_id = a->agent_id;
    let parent_task_id = a->parent_task_id;
    assert(x[0] == y[0]);
    assert(x[1] == y[1]);
    assert(x[2] == y[2]);
    assert(x[3] == y[3]);
    reveal_strlit("agent_id");
    reveal_strlit("parent_task_id");
    assert("agent_id"@.len() == 8 && "parent_task_id"@.len() == 14);
    let rest1 = some_text("parent_task_id"@, parent_task_id);
    let rest2 = some_text("parent_task_id"@, b->parent_task_id);
    assert(x.skip(4) =~= some_text("agent_id"@, agent_id) + rest1);
    assert(y.skip(4) =~= some_text("agent_id"@, b->agent_id) + rest2);
    lemma_parts_tell_apart(
        "agent_id"@,
        some_text("agent_id"@, agent_id),
        some_text("agent_id"@, b->agent_id),
        rest1,
        rest2,
    );
    lemma_text_tells_apart("agent_id"@, agent_id, b->agent_id);
    lemma_text_tells_apart("parent_task_id"@, parent_task_id, b->parent_task_id);
}

#[verifier::rlimit(50)]
proof fn lemma_entries_tell_apart(a: SseEventView, b: SseEventView)
    requires
        a.entries() == b.entries(),
        same_kind(a, b),
    ensures
        a == b,
{
    let x = a.entries();
    let y = b.entries();
    match a {
        SseEventView::RunStarted { .. } => {
            assert(x[0] == y[0]);
        },
        SseEventView::RunResumed { .. } => {
            assert(x[0] == y[0]);
            assert(x[1] == y[1]);
            assert(x[2] == y[2]);
        },
        SseEventView::ContextSummarized { .. } => {
            assert(x[0] == y[0]);
            assert(x[1] == y[1]);
            assert(x[2] == y[2]);
            assert(x[3] == y[3]);
            assert(x[4] == y[4]);
        },
        SseEventView::MessageDelta { .. } => {
            assert(x[0] == y[0]);
            assert(x[1] == y[1]);
            assert(x[2] == y[2]);
        },
        SseEventView::ReasoningDelta { .. } => {
            assert(x[0] == y[0]);
            assert(x[1] == y[1]);
            assert(x[2] == y[2]);
        },
        SseEventView::TaskStarted { .. } => {
            assert(x[0] == y[0]);
            assert(x[1] == y[1]);
            assert(x[2] == y[2]);
            assert(x[3] == y[3]);
        },
        SseEventView::TaskCompleted { .. } => {
            assert(x[0] == y[0]);
            assert(x[1] == y[1]);
            assert(x[2] == y[2]);
        },
        SseEventView::TaskTimedOut { .. } => {
            assert(x[0] == y[0]);
            assert(x[1] == y[1]);
        },
        SseEventView::RunFinished { .. } => {
            assert(x[0] == y[0]);
            assert(x[1] == y[1]);
        },
        SseEventView::MessageCompleted { .. } => lemma_messages_tell_apart(a, b),
        SseEventView::ToolRequest { .. } => lemma_requests_tell_apart(a, b),
        SseEventView::TodosUpdated { todos, .. } => {
            assert(x[0] == y[0]);
            assert(x[1] == y[1]);
            lemma_todos_tell_apart(todos, b->todos);
        },
        SseEventView::TaskFailed { code, .. } => {
            assert(x[0] == y[0]);
            assert(x[1] == y[1]);
            assert(x[2] == y[2]);
            assert(x.skip(3) =~= some_text("code"@, code));
            assert(y.skip(3) =~= some_text("code"@, b->TaskFailed_code));
            lemma_text_tells_apart("code"@, code, b->TaskFailed_code);
        },
        SseEventView::Error { code, .. } => {
            assert(x[0] == y[0]);
            assert(x[1] == y[1]);
            assert(x.skip(2) =~= some_text("code"@, code));
            assert(y.skip(2) =~= some_text("code"@, b->Error_code));
            lemma_text_tells_apart("code"@, code, b->Error_code);
        },
    }
}

/// Nothing of an event is lost on the wire: two events with the same JSON are the same.
pub proof fn law_events_are_told_apart(a: SseEventView, b: SseEventView)
    requires
        a.json() == b.json(),
    ensures
        a == b,
{
    let left = a.json()->Obj_0;
    let right = b.json()->Obj_0;
    assert(left == right);
    assert(left[0].1 == Json::Str(a.event_name()));
    assert(right[0].1 == Json::Str(b.event_name()));
    assert(left.skip(1) =~= a.entries());
    assert(right.skip(1) =~= b.entries());
    lemma_name_tells_kind(a, b);
    lemma_entries_tell_apart(a, b);
}

} // verus!
