//! Plan mode: the server tool `write_todos` and the nudge to use it.

use vstd::prelude::*;

use crate::agent::tools::task::{inject_lead_tools, lead_tools, task_result_err, tool_err_text};
use crate::dup::push_last;
use crate::json::{item_trees, json_text, Json, JsonValue};
use crate::protocol::{
    plain, plain_message, Role, TodoItem, TodoItemView, TodoStatus, ToolDef, ToolDefView,
    WireMessage, WireMessageView,
};
use crate::text::{concat, concat3, concat5, dec, decimal, has_prefix, same, starts_with};

verus! {

pub const WRITE_TODOS_NAME: &'static str = "write_todos";

pub const PLAN_NUDGE_PREFIX: &'static str = "[plan mode]";

pub open spec fn string_schema() -> Json {
    Json::Obj(seq![("type"@, Json::Str("string"@))])
}

/// The schema of the arguments of `write_todos`.
pub open spec fn write_todos_parameters() -> Json {
    let status = Json::Obj(
        seq![
            (
                "enum"@,
                Json::Arr(
                    seq![
                        Json::Str("pending"@),
                        Json::Str("in_progress"@),
                        Json::Str("completed"@),
                        Json::Str("cancelled"@),
                    ],
                ),
            ),
            ("type"@, Json::Str("string"@)),
        ],
    );
    let item = Json::Obj(
        seq![
            (
                "properties"@,
                Json::Obj(
                    seq![
                        ("content"@, string_schema()),
                        ("id"@, string_schema()),
                        ("status"@, status),
                    ],
                ),
            ),
            (
                "required"@,
                Json::Arr(seq![Json::Str("id"@), Json::Str("content"@), Json::Str("status"@)]),
            ),
            ("type"@, Json::Str("object"@)),
        ],
    );
    let todos = Json::Obj(seq![("items"@, item), ("type"@, Json::Str("array"@))]);
    Json::Obj(
        seq![
            ("properties"@, Json::Obj(seq![("todos"@, todos)])),
            ("required"@, Json::Arr(seq![Json::Str("todos"@)])),
            ("type"@, Json::Str("object"@)),
        ],
    )
}

/// The tool `write_todos`.
pub open spec fn write_todos_def() -> ToolDefView {
    ToolDefView {
        name: WRITE_TODOS_NAME@,
        description: "Replace the task list for this run. Keep items small and actionable."@,
        parameters: write_todos_parameters(),
        readonly: None,
    }
}

/// The tool `write_todos`.
pub fn write_todos_tool_def() -> (r: ToolDef)
    ensures
        r.deep_view() == write_todos_def(),
{
    let states = vec![
        JsonValue::string("pending"),
        JsonValue::string("in_progress"),
        JsonValue::string("completed"),
        JsonValue::string("cancelled"),
    ];
    assert(item_trees(states@) =~= seq![
        Json::Str("pending"@),
        Json::Str("in_progress"@),
        Json::Str("completed"@),
        Json::Str("cancelled"@),
    ]);
    let status = JsonValue::object2(
        "enum",
        JsonValue::array(states),
        "type",
        JsonValue::string("string"),
    );
    let properties = JsonValue::object3(
        "content",
        JsonValue::object1("type", JsonValue::string("string")),
        "id",
        JsonValue::object1("type", JsonValue::string("string")),
        "status",
        status,
    );
    let item_required = vec![
        JsonValue::string("id"),
        JsonValue::string("content"),
        JsonValue::string("status"),
    ];
    assert(item_trees(item_required@) =~= seq![
        Json::Str("id"@),
        Json::Str("content"@),
        Json::Str("status"@),
    ]);
    let item = JsonValue::object3(
        "properties",
        properties,
        "required",
        JsonValue::array(item_required),
        "type",
        JsonValue::string("object"),
    );
    let todos = JsonValue::object2("items", item, "type", JsonValue::string("array"));
    let required = vec![JsonValue::string("todos")];
    assert(item_trees(required@) =~= seq![Json::Str("todos"@)]);
    let parameters = JsonValue::object3(
        "properties",
        JsonValue::object1("todos", todos),
        "required",
        JsonValue::array(required),
        "type",
        JsonValue::string("object"),
    );
    ToolDef {
        name: WRITE_TODOS_NAME.to_owned(),
        description: "Replace the task list for this run. Keep items small and actionable."
            .to_owned(),
        parameters,
        readonly: None,
    }
}

/// The system message of plan mode.
pub open spec fn plan_nudge() -> WireMessageView {
    plain(
        Role::System,
        PLAN_NUDGE_PREFIX@ + " For multi-step work, call `"@ + WRITE_TODOS_NAME@
            + "` to maintain a structured todo list before and while executing. Keep at most one item `in_progress`. Mark finished steps `completed` and dropped steps `cancelled`. Do not narrate the todo list in chat; the client already receives structured updates."@,
    )
}

/// The system message of plan mode.
pub fn plan_mode_system_nudge() -> (r: WireMessage)
    ensures
        r.deep_view() == plan_nudge(),
{
    let head = concat3(PLAN_NUDGE_PREFIX, " For multi-step work, call `", WRITE_TODOS_NAME);
    plain_message(
        Role::System,
        concat(
            head.as_str(),
            "` to maintain a structured todo list before and while executing. Keep at most one item `in_progress`. Mark finished steps `completed` and dropped steps `cancelled`. Do not narrate the todo list in chat; the client already receives structured updates.",
        ),
    )
}

/// Whether a message is the nudge of plan mode.
pub open spec fn is_nudge(m: WireMessageView) -> bool {
    m.role == Role::System && has_prefix(m.content, PLAN_NUDGE_PREFIX@)
}

pub open spec fn has_nudge(context: Seq<WireMessageView>) -> bool {
    exists|i: int| 0 <= i < context.len() && is_nudge(#[trigger] context[i])
}

/// The context with the nudge of plan mode.
pub open spec fn nudged(context: Seq<WireMessageView>) -> Seq<WireMessageView> {
    if has_nudge(context) {
        context
    } else {
        seq![plan_nudge()] + context
    }
}

/// Puts the nudge of plan mode in front of the context, unless it is there.
pub fn ensure_plan_nudge(context: &mut Vec<WireMessage>)
    ensures
        final(context).deep_view() == nudged(old(context).deep_view()),
{
    let ghost all = context.deep_view();
    let mut i: usize = 0;
    while i < context.len()
        invariant
            i <= context@.len(),
            *context == *old(context),
            all == context.deep_view(),
            forall|k: int| 0 <= k < i ==> !is_nudge(#[trigger] all[k]),
        decreases context@.len() - i,
    {
        assert(all[i as int] == context@[i as int].deep_view());
        if context[i].role == Role::System && starts_with(
            context[i].content.as_str(),
            PLAN_NUDGE_PREFIX,
        ) {
            return ;
        }
        i = i + 1;
    }
    context.insert(0, plan_mode_system_nudge());
    assert(context.deep_view() =~= seq![plan_nudge()] + all);
}

/// The nudge of plan mode is put in once.
pub proof fn law_nudge_idempotent(context: Seq<WireMessageView>)
    ensures
        has_nudge(nudged(context)),
        nudged(nudged(context)) == nudged(context),
        nudged(context).len() <= context.len() + 1,
{
    if !has_nudge(context) {
        let out = nudged(context);
        assert(out[0] == plan_nudge());
        assert(plan_nudge().content.take(PLAN_NUDGE_PREFIX@.len() as int) =~= PLAN_NUDGE_PREFIX@);
        assert(is_nudge(out[0]));
    }
}

/// Puts `write_todos` first and drops any client tool of the same name.
pub fn inject_plan_tools(client_tools: &[ToolDef]) -> (r: Vec<ToolDef>)
    ensures
        r.deep_view() == lead_tools(client_tools.deep_view(), true, false),
{
    inject_lead_tools(client_tools, true, false)
}

pub fn is_server_tool(name: &str) -> (r: bool)
    ensures
        r == (name@ == WRITE_TODOS_NAME@),
{
    same(name, WRITE_TODOS_NAME)
}

impl TodoStatus {
    pub open spec fn label(self) -> Seq<char> {
        match self {
            TodoStatus::Pending => "pending"@,
            TodoStatus::InProgress => "in_progress"@,
            TodoStatus::Completed => "completed"@,
            TodoStatus::Cancelled => "cancelled"@,
        }
    }

    pub open spec fn of(s: Seq<char>) -> Option<Self> {
        if s == "pending"@ {
            Some(TodoStatus::Pending)
        } else if s == "in_progress"@ {
            Some(TodoStatus::InProgress)
        } else if s == "completed"@ {
            Some(TodoStatus::Completed)
        } else if s == "cancelled"@ {
            Some(TodoStatus::Cancelled)
        } else {
            None
        }
    }

    /// The name of the status on the wire.
    pub fn as_str(self) -> (r: &'static str)
        ensures
            r@ == self.label(),
    {
        match self {
            TodoStatus::Pending => "pending",
            TodoStatus::InProgress => "in_progress",
            TodoStatus::Completed => "completed",
            TodoStatus::Cancelled => "cancelled",
        }
    }
}

/// The status of that name.
pub fn parse_status(s: &str) -> (r: Option<TodoStatus>)
    ensures
        r == TodoStatus::of(s@),
{
    if same(s, "pending") {
        Some(TodoStatus::Pending)
    } else if same(s, "in_progress") {
        Some(TodoStatus::InProgress)
    } else if same(s, "completed") {
        Some(TodoStatus::Completed)
    } else if same(s, "cancelled") {
        Some(TodoStatus::Cancelled)
    } else {
        None
    }
}

/// The name of a status is read back as that status.
pub proof fn law_todo_status_round_trip(status: TodoStatus)
    ensures
        TodoStatus::of(status.label()) == Some(status),
{
    reveal_strlit("pending");
    reveal_strlit("in_progress");
    reveal_strlit("completed");
    reveal_strlit("cancelled");
    assert("pending"@.len() == 7);
    assert("in_progress"@.len() == 11);
    assert("completed"@.len() == 9);
    assert("cancelled"@.len() == 9);
    assert("completed"@[1] != "cancelled"@[1]);
}

/// What is wrong with the field of an item.
pub open spec fn missing_field(i: nat, field: Seq<char>) -> Seq<char> {
    "todos["@ + dec(i) + "]: missing string `"@ + field + "`"@
}

/// The item at `i`, or what is wrong with it.
pub open spec fn todo_of(i: nat, item: Json) -> Result<TodoItemView, Seq<char>> {
    match item.str_field("id"@) {
        None => Err(missing_field(i, "id"@)),
        Some(id) => match item.str_field("content"@) {
            None => Err(missing_field(i, "content"@)),
            Some(content) => match item.str_field("status"@) {
                None => Err(missing_field(i, "status"@)),
                Some(s) => match TodoStatus::of(s) {
                    None => Err("todos["@ + dec(i) + "]: invalid status `"@ + s + "`"@),
                    Some(status) => Ok(TodoItemView { id, content, status }),
                },
            },
        },
    }
}

/// The items of a list, or what is wrong with the first bad one.
pub open spec fn todos_in(items: Seq<Json>) -> Result<Seq<TodoItemView>, Seq<char>>
    decreases items.len(),
{
    if items.len() == 0 {
        Ok(Seq::empty())
    } else {
        match todos_in(items.drop_last()) {
            Err(err) => Err(err),
            Ok(todos) => match todo_of((items.len() - 1) as nat, items.last()) {
                Err(err) => Err(err),
                Ok(todo) => Ok(todos.push(todo)),
            },
        }
    }
}

/// The task list that the arguments of `write_todos` give, or what is wrong with them.
pub open spec fn todos_of(args: Json) -> Result<Seq<TodoItemView>, Seq<char>> {
    match args.get("todos"@) {
        None => Err("missing field `todos`"@),
        Some(v) => match v.as_array() {
            None => Err("`todos` must be an array"@),
            Some(items) => todos_in(items),
        },
    }
}

proof fn lemma_todos_error_stays(items: Seq<Json>, k: int)
    requires
        0 <= k <= items.len(),
        todos_in(items.take(k)) is Err,
    ensures
        todos_in(items) == todos_in(items.take(k)),
    decreases items.len() - k,
{
    if k == items.len() {
        assert(items.take(k) =~= items);
    } else {
        assert(items.take(k + 1).drop_last() =~= items.take(k));
        lemma_todos_error_stays(items, k + 1);
    }
}

fn missing(i: usize, field: &str) -> (r: String)
    ensures
        r@ == missing_field(i as nat, field@),
{
    let number = decimal(i as u64);
    concat5("todos[", number.as_str(), "]: missing string `", field, "`")
}

fn parse_todo(i: usize, item: &JsonValue) -> (r: Result<TodoItem, String>)
    ensures
        match r {
            Ok(todo) => todo_of(i as nat, item.deep_view()) == Ok::<_, Seq<char>>(
                todo.deep_view(),
            ),
            Err(err) => todo_of(i as nat, item.deep_view()) == Err::<TodoItemView, _>(err@),
        },
{
    let id = match item.str_field("id") {
        None => {
            return Err(missing(i, "id"));
        },
        Some(s) => s.to_owned(),
    };
    let content = match item.str_field("content") {
        None => {
            return Err(missing(i, "content"));
        },
        Some(s) => s.to_owned(),
    };
    match item.str_field("status") {
        None => Err(missing(i, "status")),
        Some(s) => match parse_status(s) {
            None => {
                let number = decimal(i as u64);
                Err(concat5("todos[", number.as_str(), "]: invalid status `", s, "`"))
            },
            Some(status) => Ok(TodoItem { id, content, status }),
        },
    }
}

/// Reads a task list that replaces the old one as a whole. The caller keeps the old one on an
/// error.
pub fn apply_write_todos(args: &JsonValue) -> (r: Result<Vec<TodoItem>, String>)
    ensures
        match r {
            Ok(todos) => todos_of(args.deep_view()) == Ok::<_, Seq<char>>(todos.deep_view()),
            Err(err) => todos_of(args.deep_view()) == Err::<Seq<TodoItemView>, _>(err@),
        },
{
    let items = match args.get("todos") {
        None => {
            return Err("missing field `todos`".to_owned());
        },
        Some(v) => match v.as_array() {
            None => {
                return Err("`todos` must be an array".to_owned());
            },
            Some(items) => items,
        },
    };
    let ghost all = item_trees(items@);
    let mut out: Vec<TodoItem> = Vec::new();
    let mut i: usize = 0;
    assert(all.take(0) =~= Seq::<Json>::empty());
    assert(out.deep_view() =~= Seq::<TodoItemView>::empty());
    while i < items.len()
        invariant
            i <= items@.len(),
            all == item_trees(items@),
            todos_of(args.deep_view()) == todos_in(all),
            todos_in(all.take(i as int)) == Ok::<_, Seq<char>>(out.deep_view()),
        decreases items@.len() - i,
    {
        proof {
            assert(all.take(i + 1).drop_last() =~= all.take(i as int));
            assert(all.take(i + 1).last() == items@[i as int].tree());
        }
        match parse_todo(i, &items[i]) {
            Err(err) => {
                proof {
                    lemma_todos_error_stays(all, i + 1);
                }
                return Err(err);
            },
            Ok(todo) => {
                push_last(&mut out, todo);
            },
        }
        i = i + 1;
    }
    assert(all.take(all.len() as int) =~= all);
    Ok(out)
}

/// A list that is read has one item for each that was given.
pub proof fn law_todos_replace_whole_list(items: Seq<Json>)
    ensures
        todos_in(items) matches Ok(todos) ==> todos.len() == items.len() && forall|i: int|
            0 <= i < items.len() ==> todo_of(i as nat, items[i]) == Ok::<_, Seq<char>>(
                #[trigger] todos[i],
            ),
    decreases items.len(),
{
    if items.len() > 0 {
        law_todos_replace_whole_list(items.drop_last());
    }
}

/// A todo as JSON.
pub open spec fn todo_json(todo: TodoItemView) -> Json {
    Json::Obj(
        seq![
            ("content"@, Json::Str(todo.content)),
            ("id"@, Json::Str(todo.id)),
            ("status"@, Json::Str(todo.status.label())),
        ],
    )
}

pub open spec fn todos_json(todos: Seq<TodoItemView>) -> Json {
    Json::Arr(Seq::new(todos.len(), |i: int| todo_json(todos[i])))
}

/// The result of a `write_todos` call that replaced the list.
pub open spec fn todos_ok_text(todos: Seq<TodoItemView>) -> Seq<char> {
    json_text(Json::Obj(seq![("ok"@, Json::Bool(true)), ("todos"@, todos_json(todos))]))
}

pub fn tool_result_ok(todos: &[TodoItem]) -> (r: String)
    ensures
        r@ == todos_ok_text(todos.deep_view()),
{
    let mut items: Vec<JsonValue> = Vec::new();
    let mut i: usize = 0;
    while i < todos.len()
        invariant
            i <= todos@.len(),
            items@.len() == i,
            forall|j: int|
                0 <= j < i ==> (#[trigger] items@[j]).tree() == todo_json(todos@[j].deep_view()),
        decreases todos@.len() - i,
    {
        let todo = &todos[i];
        items.push(
            JsonValue::object3(
                "content",
                JsonValue::string(todo.content.as_str()),
                "id",
                JsonValue::string(todo.id.as_str()),
                "status",
                JsonValue::string(todo.status.as_str()),
            ),
        );
        i = i + 1;
    }
    assert(item_trees(items@) =~= todos_json(todos.deep_view())->Arr_0);
    JsonValue::object2("ok", JsonValue::Bool(true), "todos", JsonValue::array(items)).to_text()
}

pub fn tool_result_err(error: &str) -> (r: String)
    ensures
        r@ == tool_err_text(error@),
{
    task_result_err(error)
}

} // verus!
