//! Events on the wire.

use vstd::prelude::*;

use crate::dup::Dup;
use crate::json::{
    entry_trees, item_trees, json_text, law_text_is_on_one_line, one_line, tidy, Json, JsonNum,
    JsonValue, Number,
};
use crate::protocol::{
    MessageSource, Role, SseEvent, SseEventView, TodoItem, TodoItemView, ToolCallView, ToolCallWire,
};
use crate::text::concat5;

verus! {

impl Role {
    pub open spec fn label(self) -> Seq<char> {
        match self {
            Role::User => "user"@,
            Role::Assistant => "assistant"@,
            Role::System => "system"@,
            Role::Tool => "tool"@,
        }
    }

    /// The role on the wire.
    pub fn as_str(self) -> (r: &'static str)
        ensures
            r@ == self.label(),
    {
        match self {
            Role::User => "user",
            Role::Assistant => "assistant",
            Role::System => "system",
            Role::Tool => "tool",
        }
    }
}

impl MessageSource {
    pub open spec fn label(self) -> Seq<char> {
        match self {
            MessageSource::Assistant => "assistant"@,
            MessageSource::Steer => "steer"@,
            MessageSource::FollowUp => "follow_up"@,
        }
    }

    /// The source on the wire.
    pub fn as_str(self) -> (r: &'static str)
        ensures
            r@ == self.label(),
    {
        match self {
            MessageSource::Assistant => "assistant",
            MessageSource::Steer => "steer",
            MessageSource::FollowUp => "follow_up",
        }
    }
}

/// One entry of an object.
pub open spec fn one(key: Seq<char>, value: Json) -> Seq<(Seq<char>, Json)> {
    seq![(key, value)]
}

/// An entry that is left out where there is no text.
pub open spec fn some_text(key: Seq<char>, text: Option<Seq<char>>) -> Seq<(Seq<char>, Json)> {
    match text {
        Some(text) => one(key, Json::Str(text)),
        None => Seq::empty(),
    }
}

pub open spec fn some_source(source: Option<MessageSource>) -> Seq<(Seq<char>, Json)> {
    match source {
        Some(source) => one("source"@, Json::Str(source.label())),
        None => Seq::empty(),
    }
}

pub open spec fn call_json(call: ToolCallView) -> Json {
    Json::Obj(
        seq![
            ("id"@, Json::Str(call.id)),
            ("name"@, Json::Str(call.name)),
            ("arguments"@, call.arguments),
        ],
    )
}

pub open spec fn some_calls(calls: Option<Seq<ToolCallView>>) -> Seq<(Seq<char>, Json)> {
    match calls {
        Some(calls) => one(
            "tool_calls"@,
            Json::Arr(Seq::new(calls.len(), |i: int| call_json(calls[i]))),
        ),
        None => Seq::empty(),
    }
}

pub open spec fn todo_json(todo: TodoItemView) -> Json {
    Json::Obj(
        seq![
            ("id"@, Json::Str(todo.id)),
            ("content"@, Json::Str(todo.content)),
            ("status"@, Json::Str(todo.status.label())),
        ],
    )
}

pub open spec fn todo_list(todos: Seq<TodoItemView>) -> Json {
    Json::Arr(Seq::new(todos.len(), |i: int| todo_json(todos[i])))
}

impl SseEventView {
    /// The entries of the event besides its type, in order. What is not there is left out.
    pub open spec fn entries(self) -> Seq<(Seq<char>, Json)> {
        match self {
            SseEventView::RunStarted { run_id } => {
                one("run_id"@, Json::Str(run_id))
            },
            SseEventView::RunResumed { run_id, revision, status } => {
                one("run_id"@, Json::Str(run_id))
                    + one("revision"@, Json::Num(JsonNum::PosInt(revision)))
                    + one("status"@, Json::Str(status))
            },
            SseEventView::ContextSummarized {
                run_id,
                before_tokens,
                after_tokens,
                kept_prefix,
                kept_suffix,
            } => {
                one("run_id"@, Json::Str(run_id))
                    + one("before_tokens"@, Json::Num(JsonNum::PosInt(before_tokens)))
                    + one("after_tokens"@, Json::Num(JsonNum::PosInt(after_tokens)))
                    + one("kept_prefix"@, Json::Num(JsonNum::PosInt(kept_prefix as u64)))
                    + one("kept_suffix"@, Json::Num(JsonNum::PosInt(kept_suffix as u64)))
            },
            SseEventView::MessageDelta { run_id, message_id, delta } => {
                one("run_id"@, Json::Str(run_id))
                    + one("message_id"@, Json::Str(message_id))
                    + one("delta"@, Json::Str(delta))
            },
            SseEventView::ReasoningDelta { run_id, message_id, delta } => {
                one("run_id"@, Json::Str(run_id))
                    + one("message_id"@, Json::Str(message_id))
                    + one("delta"@, Json::Str(delta))
            },
            SseEventView::MessageCompleted {
                run_id,
                message_id,
                role,
                content,
                tool_calls,
                source,
                reasoning_content,
            } => {
                one("run_id"@, Json::Str(run_id))
                    + one("message_id"@, Json::Str(message_id))
                    + one("role"@, Json::Str(role.label()))
                    + one("content"@, Json::Str(content))
                    + some_calls(tool_calls)
                    + some_source(source)
                    + some_text("reasoning_content"@, reasoning_content)
            },
            SseEventView::ToolRequest {
                run_id,
                tool_call_id,
                name,
                arguments,
                agent_id,
                parent_task_id,
            } => {
                one("run_id"@, Json::Str(run_id))
                    + one("tool_call_id"@, Json::Str(tool_call_id))
                    + one("name"@, Json::Str(name))
                    + one("arguments"@, arguments)
                    + some_text("agent_id"@, agent_id)
                    + some_text("parent_task_id"@, parent_task_id)
            },
            SseEventView::TodosUpdated { run_id, todos } => {
                one("run_id"@, Json::Str(run_id))
                    + one("todos"@, todo_list(todos))
            },
            SseEventView::TaskStarted { run_id, task_id, goal, agent } => {
                one("run_id"@, Json::Str(run_id))
                    + one("task_id"@, Json::Str(task_id))
                    + one("goal"@, Json::Str(goal))
                    + one("agent"@, Json::Str(agent))
            },
            SseEventView::TaskCompleted { run_id, task_id, summary } => {
                one("run_id"@, Json::Str(run_id))
                    + one("task_id"@, Json::Str(task_id))
                    + one("summary"@, Json::Str(summary))
            },
            SseEventView::TaskFailed { run_id, task_id, message, code } => {
                one("run_id"@, Json::Str(run_id))
                    + one("task_id"@, Json::Str(task_id))
                    + one("message"@, Json::Str(message))
                    + some_text("code"@, code)
            },
            SseEventView::TaskTimedOut { run_id, task_id } => {
                one("run_id"@, Json::Str(run_id))
                    + one("task_id"@, Json::Str(task_id))
            },
            SseEventView::RunFinished { run_id, reason } => {
                one("run_id"@, Json::Str(run_id))
                    + one("reason"@, Json::Str(reason))
            },
            SseEventView::Error { run_id, message, code } => {
                one("run_id"@, Json::Str(run_id))
                    + one("message"@, Json::Str(message))
                    + some_text("code"@, code)
            },
        }
    }

    /// The event on the wire: its type, and then its entries.
    pub open spec fn json(self) -> Json {
        Json::Obj(one("type"@, Json::Str(self.event_name())) + self.entries())
    }
}

fn put(entries: &mut Vec<(String, JsonValue)>, key: &str, value: JsonValue)
    ensures
        entry_trees(final(entries)@) == entry_trees(old(entries)@) + one(key@, value.tree()),
{
    entries.push((key.to_owned(), value));
    assert(entry_trees(entries@) =~= entry_trees(old(entries)@) + one(key@, value.tree()));
}

fn put_text(entries: &mut Vec<(String, JsonValue)>, key: &str, text: &Option<String>)
    ensures
        entry_trees(final(entries)@) == entry_trees(old(entries)@) + some_text(
            key@,
            text.deep_view(),
        ),
{
    match text {
        Some(text) => put(entries, key, JsonValue::string(text.as_str())),
        None => {
            assert(entry_trees(entries@) + Seq::<(Seq<char>, Json)>::empty() =~= entry_trees(
                entries@,
            ));
        },
    }
}

fn put_source(entries: &mut Vec<(String, JsonValue)>, source: &Option<MessageSource>)
    ensures
        entry_trees(final(entries)@) == entry_trees(old(entries)@) + some_source(*source),
{
    match source {
        Some(source) => put(entries, "source", JsonValue::string(source.as_str())),
        None => {
            assert(entry_trees(entries@) + Seq::<(Seq<char>, Json)>::empty() =~= entry_trees(
                entries@,
            ));
        },
    }
}

fn put_calls(entries: &mut Vec<(String, JsonValue)>, calls: &Option<Vec<ToolCallWire>>)
    ensures
        entry_trees(final(entries)@) == entry_trees(old(entries)@) + some_calls(
            calls.deep_view(),
        ),
{
    let calls = match calls {
        Some(calls) => calls,
        None => {
            assert(entry_trees(entries@) + Seq::<(Seq<char>, Json)>::empty() =~= entry_trees(
                entries@,
            ));
            return ;
        },
    };
    let mut items: Vec<JsonValue> = Vec::new();
    let mut i: usize = 0;
    while i < calls.len()
        invariant
            i <= calls@.len(),
            items@.len() == i,
            forall|k: int|
                0 <= k < i ==> (#[trigger] items@[k]).tree() == call_json(calls@[k].deep_view()),
        decreases calls@.len() - i,
    {
        let call = &calls[i];
        items.push(
            JsonValue::object3(
                "id",
                JsonValue::string(call.id.as_str()),
                "name",
                JsonValue::string(call.name.as_str()),
                "arguments",
                call.arguments.dup(),
            ),
        );
        i = i + 1;
    }
    let ghost views = calls.deep_view();
    assert(item_trees(items@) =~= Seq::new(views.len(), |k: int| call_json(views[k])));
    put(entries, "tool_calls", JsonValue::array(items));
}

fn todos_json(todos: &Vec<TodoItem>) -> (r: JsonValue)
    ensures
        r.tree() == todo_list(todos.deep_view()),
{
    let mut items: Vec<JsonValue> = Vec::new();
    let mut i: usize = 0;
    while i < todos.len()
        invariant
            i <= todos@.len(),
            items@.len() == i,
            forall|k: int|
                0 <= k < i ==> (#[trigger] items@[k]).tree() == todo_json(todos@[k].deep_view()),
        decreases todos@.len() - i,
    {
        let todo = &todos[i];
        items.push(
            JsonValue::object3(
                "id",
                JsonValue::string(todo.id.as_str()),
                "content",
                JsonValue::string(todo.content.as_str()),
                "status",
                JsonValue::string(todo.status.as_str()),
            ),
        );
        i = i + 1;
    }
    assert(item_trees(items@) =~= todo_list(todos.deep_view())->Arr_0);
    JsonValue::array(items)
}

impl SseEvent {
    /// The event on the wire.
    pub fn to_json(&self) -> (r: JsonValue)
        ensures
            r.tree() == self.deep_view().json(),
    {
        let mut entries: Vec<(String, JsonValue)> = Vec::new();
        put(&mut entries, "type", JsonValue::string(self.event_name()));
        assert(entry_trees(entries@) =~= one("type"@, Json::Str(self.deep_view().event_name())));
        match self {
            SseEvent::RunStarted { run_id } => {
                put(&mut entries, "run_id", JsonValue::string(run_id.as_str()));
            },
            SseEvent::RunResumed { run_id, revision, status } => {
                put(&mut entries, "run_id", JsonValue::string(run_id.as_str()));
                put(&mut entries, "revision", JsonValue::Number(Number::PosInt(*revision)));
                put(&mut entries, "status", JsonValue::string(status.as_str()));
            },
            SseEvent::ContextSummarized {
                run_id,
                before_tokens,
                after_tokens,
                kept_prefix,
                kept_suffix,
            } => {
                put(&mut entries, "run_id", JsonValue::string(run_id.as_str()));
                put(&mut entries, "before_tokens", JsonValue::Number(Number::PosInt(*before_tokens)));
                put(&mut entries, "after_tokens", JsonValue::Number(Number::PosInt(*after_tokens)));
                put(&mut entries, "kept_prefix", JsonValue::Number(Number::PosInt(*kept_prefix as u64)));
                put(&mut entries, "kept_suffix", JsonValue::Number(Number::PosInt(*kept_suffix as u64)));
            },
            SseEvent::MessageDelta { run_id, message_id, delta } => {
                put(&mut entries, "run_id", JsonValue::string(run_id.as_str()));
                put(&mut entries, "message_id", JsonValue::string(message_id.as_str()));
                put(&mut entries, "delta", JsonValue::string(delta.as_str()));
            },
            SseEvent::ReasoningDelta { run_id, message_id, delta } => {
                put(&mut entries, "run_id", JsonValue::string(run_id.as_str()));
                put(&mut entries, "message_id", JsonValue::string(message_id.as_str()));
                put(&mut entries, "delta", JsonValue::string(delta.as_str()));
            },
            SseEvent::MessageCompleted {
                run_id,
                message_id,
                role,
                content,
                tool_calls,
                source,
                reasoning_content,
            } => {
                put(&mut entries, "run_id", JsonValue::string(run_id.as_str()));
                put(&mut entries, "message_id", JsonValue::string(message_id.as_str()));
                put(&mut entries, "role", JsonValue::string(role.as_str()));
                put(&mut entries, "content", JsonValue::string(content.as_str()));
                put_calls(&mut entries, tool_calls);
                put_source(&mut entries, source);
                put_text(&mut entries, "reasoning_content", reasoning_content);
            },
            SseEvent::ToolRequest {
                run_id,
                tool_call_id,
                name,
                arguments,
                agent_id,
                parent_task_id,
            } => {
                put(&mut entries, "run_id", JsonValue::string(run_id.as_str()));
                put(&mut entries, "tool_call_id", JsonValue::string(tool_call_id.as_str()));
                put(&mut entries, "name", JsonValue::string(name.as_str()));
                put(&mut entries, "arguments", arguments.dup());
                put_text(&mut entries, "agent_id", agent_id);
                put_text(&mut entries, "parent_task_id", parent_task_id);
            },
            SseEvent::TodosUpdated { run_id, todos } => {
                put(&mut entries, "run_id", JsonValue::string(run_id.as_str()));
                put(&mut entries, "todos", todos_json(todos));
            },
            SseEvent::TaskStarted { run_id, task_id, goal, agent } => {
                put(&mut entries, "run_id", JsonValue::string(run_id.as_str()));
                put(&mut entries, "task_id", JsonValue::string(task_id.as_str()));
                put(&mut entries, "goal", JsonValue::string(goal.as_str()));
                put(&mut entries, "agent", JsonValue::string(agent.as_str()));
            },
            SseEvent::TaskCompleted { run_id, task_id, summary } => {
                put(&mut entries, "run_id", JsonValue::string(run_id.as_str()));
                put(&mut entries, "task_id", JsonValue::string(task_id.as_str()));
                put(&mut entries, "summary", JsonValue::string(summary.as_str()));
            },
            SseEvent::TaskFailed { run_id, task_id, message, code } => {
                put(&mut entries, "run_id", JsonValue::string(run_id.as_str()));
                put(&mut entries, "task_id", JsonValue::string(task_id.as_str()));
                put(&mut entries, "message", JsonValue::string(message.as_str()));
                put_text(&mut entries, "code", code);
            },
            SseEvent::TaskTimedOut { run_id, task_id } => {
                put(&mut entries, "run_id", JsonValue::string(run_id.as_str()));
                put(&mut entries, "task_id", JsonValue::string(task_id.as_str()));
            },
            SseEvent::RunFinished { run_id, reason } => {
                put(&mut entries, "run_id", JsonValue::string(run_id.as_str()));
                put(&mut entries, "reason", JsonValue::string(reason.as_str()));
            },
            SseEvent::Error { run_id, message, code } => {
                put(&mut entries, "run_id", JsonValue::string(run_id.as_str()));
                put(&mut entries, "message", JsonValue::string(message.as_str()));
                put_text(&mut entries, "code", code);
            },
        }
        assert(entry_trees(entries@) =~= one("type"@, Json::Str(self.deep_view().event_name()))
            + self.deep_view().entries());
        JsonValue::object(entries)
    }
}

/// The frame of an event: its name and its compact JSON, each on a line.
pub open spec fn frame(event: SseEventView) -> Seq<char> {
    "event: "@ + event.event_name() + "\ndata: "@ + json_text(event.json()) + "\n\n"@
}

impl SseEventView {
    /// Whether the arguments that the event carries are tidy.
    pub open spec fn is_tidy(self) -> bool {
        match self {
            SseEventView::ToolRequest { arguments, .. } => tidy(arguments),
            SseEventView::MessageCompleted { tool_calls: Some(calls), .. } => forall|i: int|
                0 <= i < calls.len() ==> tidy((#[trigger] calls[i]).arguments),
            _ => true,
        }
    }
}

proof fn lemma_call_is_tidy(call: ToolCallView)
    requires
        tidy(call.arguments),
    ensures
        tidy(call_json(call)),
{
    let entries = call_json(call)->Obj_0;
    assert forall|i: int| 0 <= i < entries.len() implies tidy((#[trigger] entries[i]).1) by {
        assert(i == 0 || i == 1 || i == 2);
        assert(tidy(Json::Str(call.id)));
        assert(tidy(Json::Str(call.name)));
    }
}

proof fn lemma_event_is_tidy(event: SseEventView)
    requires
        event.is_tidy(),
    ensures
        tidy(event.json()),
{
    let entries = event.json()->Obj_0;
    match event {
        SseEventView::MessageCompleted { tool_calls: Some(calls), .. } => {
            let items = Seq::new(calls.len(), |i: int| call_json(calls[i]));
            assert forall|i: int| 0 <= i < items.len() implies tidy(#[trigger] items[i]) by {
                lemma_call_is_tidy(calls[i]);
            }
            assert(tidy(Json::Arr(items)));
        },
        SseEventView::TodosUpdated { todos, .. } => {
            let items = todo_list(todos)->Arr_0;
            assert forall|i: int| 0 <= i < items.len() implies tidy(#[trigger] items[i]) by {
                let parts = items[i]->Obj_0;
                assert forall|k: int| 0 <= k < parts.len() implies tidy(
                    (#[trigger] parts[k]).1,
                ) by {
                    assert(parts[k].1 is Str);
                }
            }
            assert(tidy(todo_list(todos)));
        },
        _ => {},
    }
    assert forall|i: int| 0 <= i < entries.len() implies tidy((#[trigger] entries[i]).1) by {
        assert(tidy(entries[i].1));
    }
}

/// A frame is one event: neither its name nor its data has a line break, whatever the texts of the
/// event hold.
pub proof fn law_frame_is_one_event(event: SseEventView)
    requires
        event.is_tidy(),
    ensures
        ({
            let name = event.event_name();
            let data = json_text(event.json());
            &&& frame(event) == "event: "@ + name + "\ndata: "@ + data + "\n\n"@
            &&& one_line(name)
            &&& one_line(data)
        }),
{
    reveal_strlit("run.started");
    reveal_strlit("run.resumed");
    reveal_strlit("context.summarized");
    reveal_strlit("message.delta");
    reveal_strlit("reasoning.delta");
    reveal_strlit("message.completed");
    reveal_strlit("tool.request");
    reveal_strlit("todos.updated");
    reveal_strlit("task.started");
    reveal_strlit("task.completed");
    reveal_strlit("task.failed");
    reveal_strlit("task.timed_out");
    reveal_strlit("run.finished");
    reveal_strlit("error");
    lemma_event_is_tidy(event);
    law_text_is_on_one_line(event.json());
}

/// The frame of an event.
pub fn sse_frame(event: &SseEvent) -> (r: String)
    ensures
        r@ == frame(event.deep_view()),
{
    let data = event.to_json().to_text();
    concat5("event: ", event.event_name(), "\ndata: ", data.as_str(), "\n\n")
}

} // verus!
