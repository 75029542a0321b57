//! What holds of the tools that an agent is given, and of what the server's own tools read.

use vstd::prelude::*;

use crate::agent::tools::plan::{
    has_nudge, law_todo_status_round_trip, nudged, plan_nudge, todo_json, todo_of, todos_in,
    todos_json, todos_of, todos_ok_text, PLAN_NUDGE_PREFIX, WRITE_TODOS_NAME,
};
use crate::agent::tools::task::{
    agent_of, client_only, hint_lines, hints_in, law_kind_round_trip, lead_tools, readonly_only,
    server_tool, subagent_context, task_args_of, task_ok_text, tool_err_text, tools_for_agent,
    EXPLORE_NUDGE_PREFIX, TASK_NAME, TaskAgentKind, TaskArgsView,
};
use crate::json::{entry, json_text, Json};
use crate::protocol::{Role, TodoItemView, ToolDefView, WireMessageView};
use crate::text::{has_part, has_prefix, joined, trimmed};

verus! {

/// Whether a tool of the client can be offered: its name is that of no server tool.
pub open spec fn can_be_offered(tool: ToolDefView) -> bool {
    tool.name != WRITE_TODOS_NAME@ && tool.name != TASK_NAME@
}

/// Whether a tool is marked read-only.
pub open spec fn is_marked_readonly(tool: ToolDefView) -> bool {
    tool.readonly == Some(true)
}

proof fn lemma_client_only(tools: Seq<ToolDefView>)
    ensures
        client_only(tools) == tools.filter(|t: ToolDefView| can_be_offered(t)),
    decreases tools.len(),
{
    reveal(Seq::filter);
    if tools.len() > 0 {
        lemma_client_only(tools.drop_last());
    }
}

proof fn lemma_readonly_only(tools: Seq<ToolDefView>)
    ensures
        readonly_only(tools) == tools.filter(|t: ToolDefView| is_marked_readonly(t)),
    decreases tools.len(),
{
    reveal(Seq::filter);
    if tools.len() > 0 {
        lemma_readonly_only(tools.drop_last());
    }
}

proof fn lemma_filter_keeps(tools: Seq<ToolDefView>, keep: spec_fn(ToolDefView) -> bool, i: int)
    requires
        0 <= i < tools.len(),
        keep(tools[i]),
    ensures
        tools.filter(keep).contains(tools[i]),
        tools.filter(keep).len() > 0,
    decreases tools.len(),
{
    reveal(Seq::filter);
    let less = tools.drop_last();
    if i < tools.len() - 1 {
        lemma_filter_keeps(less, keep, i);
        let k = choose|k: int| 0 <= k < less.filter(keep).len() && less.filter(keep)[k] == less[i];
        assert(tools.filter(keep)[k] == tools[i]);
    } else {
        assert(tools.filter(keep).last() == tools[i]);
    }
}

proof fn lemma_filter_only(tools: Seq<ToolDefView>, keep: spec_fn(ToolDefView) -> bool)
    ensures
        forall|k: int|
            0 <= k < tools.filter(keep).len() ==> keep(#[trigger] tools.filter(keep)[k])
                && tools.contains(tools.filter(keep)[k]),
    decreases tools.len(),
{
    reveal(Seq::filter);
    if tools.len() > 0 {
        let less = tools.drop_last();
        lemma_filter_only(less, keep);
        assert forall|k: int| 0 <= k < tools.filter(keep).len() implies keep(
            #[trigger] tools.filter(keep)[k],
        ) && tools.contains(tools.filter(keep)[k]) by {
            if k < less.filter(keep).len() {
                assert(tools.filter(keep)[k] == less.filter(keep)[k]);
                let j = choose|j: int| 0 <= j < less.len() && less[j] == less.filter(keep)[k];
                assert(tools[j] == tools.filter(keep)[k]);
            } else {
                assert(tools[tools.len() - 1] == tools.filter(keep)[k]);
            }
        }
    }
}

/// A general subagent is given every client tool whose name is not that of a server tool, in the
/// client's order, whichever of them are marked read-only.
pub proof fn law_general_agent_has_all_tools(tools: Seq<ToolDefView>)
    ensures
        tools_for_agent(tools, TaskAgentKind::General) == tools.filter(
            |t: ToolDefView| can_be_offered(t),
        ),
        forall|i: int|
            0 <= i < tools.len() && can_be_offered(#[trigger] tools[i]) ==> tools_for_agent(
                tools,
                TaskAgentKind::General,
            ).contains(tools[i]),
{
    lemma_client_only(tools);
    assert forall|i: int| 0 <= i < tools.len() && can_be_offered(#[trigger] tools[i]) implies tools_for_agent(
        tools,
        TaskAgentKind::General,
    ).contains(tools[i]) by {
        lemma_filter_keeps(tools, |t: ToolDefView| can_be_offered(t), i);
    }
}

/// An exploring subagent is given exactly the client tools that are marked read-only, in the
/// client's order; where none is, it is given what a general one is given.
pub proof fn law_explore_agent_has_marked_tools(tools: Seq<ToolDefView>)
    ensures
        (exists|i: int| 0 <= i < tools.len() && is_marked_readonly(#[trigger] tools[i]))
            ==> tools_for_agent(tools, TaskAgentKind::Explore) == tools.filter(
            |t: ToolDefView| is_marked_readonly(t),
        ),
        !(exists|i: int| 0 <= i < tools.len() && is_marked_readonly(#[trigger] tools[i]))
            ==> tools_for_agent(tools, TaskAgentKind::Explore) == tools_for_agent(
            tools,
            TaskAgentKind::General,
        ),
{
    let keep = |t: ToolDefView| is_marked_readonly(t);
    lemma_readonly_only(tools);
    if exists|i: int| 0 <= i < tools.len() && is_marked_readonly(#[trigger] tools[i]) {
        let i = choose|i: int| 0 <= i < tools.len() && is_marked_readonly(#[trigger] tools[i]);
        lemma_filter_keeps(tools, keep, i);
    } else {
        lemma_filter_only(tools, keep);
        if tools.filter(keep).len() > 0 {
            let t = tools.filter(keep)[0];
            assert(keep(t) && tools.contains(t));
            let i = choose|i: int| 0 <= i < tools.len() && tools[i] == t;
            assert(is_marked_readonly(tools[i]));
        }
    }
}

/// The model is offered `write_todos` in plan mode, `task` with subagents, and behind them every
/// client tool whose name is not that of a server tool, in the client's order, and nothing else.
pub proof fn law_offered_tools(tools: Seq<ToolDefView>, plan_mode: bool, subagents: bool)
    ensures
        ({
            let offered = lead_tools(tools, plan_mode, subagents);
            let first: int = (if plan_mode {
                1int
            } else {
                0
            }) + (if subagents {
                1int
            } else {
                0
            });
            &&& offered.len() >= first
            &&& offered.skip(first) == tools.filter(|t: ToolDefView| can_be_offered(t))
            &&& plan_mode ==> offered[0].name == WRITE_TODOS_NAME@
            &&& subagents ==> offered[first - 1].name == TASK_NAME@
        }),
{
    lemma_client_only(tools);
    let offered = lead_tools(tools, plan_mode, subagents);
    let first: int = (if plan_mode {
        1int
    } else {
        0
    }) + (if subagents {
        1int
    } else {
        0
    });
    assert(offered.skip(first) =~= client_only(tools));
}

/// The server runs `write_todos` in plan mode and `task` with subagents, and no other tool.
pub proof fn law_server_runs_its_tools(name: Seq<char>, plan_mode: bool, subagents: bool)
    ensures
        server_tool(WRITE_TODOS_NAME@, plan_mode, false) == plan_mode,
        server_tool(TASK_NAME@, false, subagents) == subagents,
        name != WRITE_TODOS_NAME@ && name != TASK_NAME@ ==> !server_tool(name, plan_mode, subagents),
        !server_tool(name, false, false),
        server_tool(name, true, true) == (name == WRITE_TODOS_NAME@ || name == TASK_NAME@),
{
}

/// A subagent starts with what it is, then the hints where there are any, and last its goal as the
/// message of a user. Every hint is told, each as a point of a list, in order.
pub proof fn law_subagent_is_told_its_goal(args: TaskArgsView)
    ensures
        ({
            let context = subagent_context(args);
            &&& context.len() == if args.context_hints.len() == 0 {
                2int
            } else {
                3
            }
            &&& context.last().role == Role::User
            &&& context.last().content == args.goal
            &&& context[0].role == Role::System
            &&& args.agent is Explore ==> has_prefix(context[0].content, EXPLORE_NUDGE_PREFIX@)
            &&& args.context_hints.len() > 0 ==> {
                &&& context[1].role == Role::System
                &&& has_prefix(context[1].content, "Context hints:\n"@)
                &&& forall|i: int|
                    0 <= i < args.context_hints.len() ==> has_part(
                        context[1].content,
                        "- "@ + #[trigger] args.context_hints[i],
                    )
            }
        }),
{
    let context = subagent_context(args);
    if args.agent is Explore {
        let n = EXPLORE_NUDGE_PREFIX@.len() as int;
        assert(context[0].content.take(n) =~= EXPLORE_NUDGE_PREFIX@);
    }
    if args.context_hints.len() > 0 {
        let head = "Context hints:\n"@;
        let lines = hint_lines(args.context_hints);
        let list = joined(lines, "\n"@);
        assert(context[1].content == head + list);
        assert((head + list).take(head.len() as int) =~= head);
        assert forall|i: int| 0 <= i < args.context_hints.len() implies has_part(
            context[1].content,
            "- "@ + #[trigger] args.context_hints[i],
        ) by {
            lemma_part_of_joined(lines, "\n"@, i);
            assert(lines[i] == "- "@ + args.context_hints[i]);
            lemma_part_of_end(head, list, lines[i]);
        }
    }
}

proof fn lemma_part_of_end(head: Seq<char>, tail: Seq<char>, part: Seq<char>)
    requires
        has_part(tail, part),
    ensures
        has_part(head + tail, part),
{
    let i = choose|i: int|
        0 <= i <= tail.len() - part.len() && #[trigger] tail.subrange(i, i + part.len()) == part;
    let at = head.len() + i;
    assert((head + tail).subrange(at, at + part.len()) =~= part);
}

proof fn lemma_part_of_start(head: Seq<char>, tail: Seq<char>, part: Seq<char>)
    requires
        has_part(head, part),
    ensures
        has_part(head + tail, part),
{
    let i = choose|i: int|
        0 <= i <= head.len() - part.len() && #[trigger] head.subrange(i, i + part.len()) == part;
    assert((head + tail).subrange(i, i + part.len()) =~= part);
}

proof fn lemma_part_of_joined(parts: Seq<Seq<char>>, sep: Seq<char>, i: int)
    requires
        0 <= i < parts.len(),
    ensures
        has_part(joined(parts, sep), parts[i]),
    decreases parts.len(),
{
    let whole = joined(parts, sep);
    if parts.len() == 1 {
        assert(whole.subrange(0, 0int + parts[i].len()) =~= parts[i]);
    } else {
        let before = joined(parts.drop_last(), sep);
        if i < parts.len() - 1 {
            lemma_part_of_joined(parts.drop_last(), sep, i);
            assert(parts.drop_last()[i] == parts[i]);
            assert(whole =~= before + (sep + parts.last()));
            lemma_part_of_start(before, sep + parts.last(), parts[i]);
        } else {
            let last = parts.last();
            assert(last.subrange(0, 0int + last.len()) =~= last);
            lemma_part_of_end(before + sep, last, last);
        }
    }
}

/// A `task` call can be read exactly where it has a goal that is not blank, an agent of a kind that
/// there is or none, and hints that are all texts or none. What is read is the goal without the
/// white space around it, that kind or a general one, and those hints in order.
pub proof fn law_task_call_is_read(args: Json)
    ensures
        match task_args_of(args) {
            Ok(read) => {
                &&& args.str_field("goal"@) matches Some(goal)
                &&& read.goal == trimmed(goal)
                &&& read.goal.len() > 0
                &&& args.get("agent"@) is None ==> read.agent == TaskAgentKind::General
                &&& args.get("agent"@) matches Some(kind) ==> kind == Json::Str(read.agent.label())
                &&& args.get("context_hints"@) is None ==> read.context_hints.len() == 0
                &&& args.get("context_hints"@) matches Some(hints) ==> hints == Json::Arr(
                    Seq::new(
                        read.context_hints.len(),
                        |i: int| Json::Str(read.context_hints[i]),
                    ),
                )
            },
            Err(_) => {
                ||| args.str_field("goal"@) is None
                ||| trimmed(args.str_field("goal"@)->0).len() == 0
                ||| args.get("agent"@) matches Some(kind) && !(exists|k: TaskAgentKind|
                    kind == Json::Str(#[trigger] k.label()))
                ||| args.get("context_hints"@) matches Some(hints) && !is_list_of_texts(hints)
            },
        },
{
    if let Some(hints) = args.get("context_hints"@) {
        if let Json::Arr(items) = hints {
            lemma_hints(items);
            if let Ok(read) = hints_in(items) {
                assert(items =~= Seq::new(read.len(), |i: int| Json::Str(read[i])));
            }
        }
    }
    if let Some(kind) = args.get("agent"@) {
        if agent_of(args) is Err {
            if exists|k: TaskAgentKind| kind == Json::Str(#[trigger] k.label()) {
                let k = choose|k: TaskAgentKind| kind == Json::Str(#[trigger] k.label());
                law_kind_round_trip(k);
            }
        }
    }
}

/// Whether a value is a list of texts.
pub open spec fn is_list_of_texts(value: Json) -> bool {
    value matches Json::Arr(items) && forall|i: int|
        0 <= i < items.len() ==> #[trigger] items[i] is Str
}

proof fn lemma_hints(items: Seq<Json>)
    ensures
        hints_in(items) is Ok <==> forall|i: int| 0 <= i < items.len() ==> #[trigger] items[i] is Str,
        hints_in(items) matches Ok(hints) ==> hints.len() == items.len() && forall|i: int|
            0 <= i < items.len() ==> #[trigger] items[i] == Json::Str(hints[i]),
    decreases items.len(),
{
    if items.len() > 0 {
        let less = items.drop_last();
        lemma_hints(less);
        assert(items.last() == items[items.len() - 1]);
        if forall|i: int| 0 <= i < items.len() ==> #[trigger] items[i] is Str {
            assert forall|i: int| 0 <= i < less.len() implies #[trigger] less[i] is Str by {
                assert(items[i] is Str);
            }
        }
        if let Ok(hints) = hints_in(items) {
            assert forall|i: int| 0 <= i < items.len() implies #[trigger] items[i] == Json::Str(
                hints[i],
            ) by {
                if i < less.len() {
                    assert(less[i] == items[i]);
                }
            }
        }
    }
}

/// The results of the server's own tools say whether all went well, and tell the summary, the list
/// or what went wrong.
pub proof fn law_results_of_server_tools(text: Seq<char>, todos: Seq<TodoItemView>)
    ensures
        task_ok_text(text) == json_text(
            Json::Obj(seq![("ok"@, Json::Bool(true)), ("summary"@, Json::Str(text))]),
        ),
        tool_err_text(text) == json_text(
            Json::Obj(seq![("error"@, Json::Str(text)), ("ok"@, Json::Bool(false))]),
        ),
        todos_ok_text(todos) == json_text(
            Json::Obj(seq![("ok"@, Json::Bool(true)), ("todos"@, todos_json(todos))]),
        ),
{
}

proof fn lemma_todo_reads_back(i: nat, todo: TodoItemView)
    ensures
        todo_of(i, todo_json(todo)) == Ok::<_, Seq<char>>(todo),
{
    reveal_strlit("content");
    reveal_strlit("id");
    reveal_strlit("status");
    assert("content"@.len() == 7 && "id"@.len() == 2 && "status"@.len() == 6);
    let entries = todo_json(todo)->Obj_0;
    reveal_with_fuel(entry, 4);
    assert(entries.skip(1)[0] == entries[1]);
    assert(entries.skip(1).skip(1)[0] == entries[2]);
    law_todo_status_round_trip(todo.status);
}

/// A task list that is written out is read back as it was.
pub proof fn law_todos_read_back(todos: Seq<TodoItemView>)
    ensures
        todos_of(Json::Obj(seq![("todos"@, todos_json(todos))])) == Ok::<_, Seq<char>>(todos),
{
    let entries = seq![("todos"@, todos_json(todos))];
    assert(entry(entries, "todos"@) == Some(todos_json(todos)));
    lemma_todo_list_reads_back(todos);
}

proof fn lemma_todo_list_reads_back(todos: Seq<TodoItemView>)
    ensures
        todos_in(todos_json(todos)->Arr_0) == Ok::<_, Seq<char>>(todos),
    decreases todos.len(),
{
    let items = todos_json(todos)->Arr_0;
    if todos.len() == 0 {
        assert(todos =~= Seq::empty());
    } else {
        assert(items.drop_last() =~= todos_json(todos.drop_last())->Arr_0);
        lemma_todo_list_reads_back(todos.drop_last());
        lemma_todo_reads_back((items.len() - 1) as nat, todos.last());
        assert(todos.drop_last().push(todos.last()) =~= todos);
    }
}

/// A task list can be read exactly where it is a list and each of its items has an id, a content and
/// a status that there is, as texts; the items that are read have those, each at its place.
pub proof fn law_todos_are_read(args: Json)
    ensures
        match todos_of(args) {
            Ok(todos) => {
                &&& args.get("todos"@) matches Some(Json::Arr(items))
                &&& todos.len() == items.len()
                &&& forall|i: int|
                    0 <= i < items.len() ==> is_todo(#[trigger] items[i], todos[i])
            },
            Err(_) => args.get("todos"@) matches Some(Json::Arr(items)) ==> exists|i: int|
                0 <= i < items.len() && is_no_todo(#[trigger] items[i]),
        },
{
    if let Some(Json::Arr(items)) = args.get("todos"@) {
        lemma_todos_in(items);
    }
}

/// Whether a value says what a todo is.
pub open spec fn is_todo(item: Json, todo: TodoItemView) -> bool {
    &&& item.str_field("id"@) == Some(todo.id)
    &&& item.str_field("content"@) == Some(todo.content)
    &&& item.str_field("status"@) == Some(todo.status.label())
}

/// Whether a value says no todo.
pub open spec fn is_no_todo(item: Json) -> bool {
    forall|todo: TodoItemView| !#[trigger] is_todo(item, todo)
}

proof fn lemma_todos_in(items: Seq<Json>)
    ensures
        todos_in(items) matches Ok(todos) ==> todos.len() == items.len() && forall|i: int|
            0 <= i < items.len() ==> is_todo(#[trigger] items[i], todos[i]),
        todos_in(items) is Err ==> exists|i: int|
            0 <= i < items.len() && is_no_todo(#[trigger] items[i]),
    decreases items.len(),
{
    if items.len() > 0 {
        let less = items.drop_last();
        let n = items.len() - 1;
        lemma_todos_in(less);
        assert(items.last() == items[n]);
        if todos_in(less) is Err {
            let i = choose|i: int| 0 <= i < less.len() && is_no_todo(#[trigger] less[i]);
            assert(is_no_todo(items[i]));
        } else if todo_of(n as nat, items.last()) is Err {
            assert forall|todo: TodoItemView| !#[trigger] is_todo(items[n], todo) by {
                if is_todo(items[n], todo) {
                    law_todo_status_round_trip(todo.status);
                }
            }
            assert(is_no_todo(items[n]));
        } else {
            let todos = todos_in(items)->Ok_0;
            assert forall|i: int| 0 <= i < items.len() implies is_todo(#[trigger] items[i], todos[i]) by {
                if i < n {
                    assert(is_todo(less[i], todos_in(less)->Ok_0[i]));
                }
            }
        }
    }
}

/// Plan mode puts its message in front of the context, and leaves a context that has one alone.
pub proof fn law_plan_mode_is_told(context: Seq<WireMessageView>)
    ensures
        has_nudge(context) ==> nudged(context) == context,
        !has_nudge(context) ==> nudged(context).len() == context.len() + 1 && nudged(context).skip(1)
            == context && nudged(context)[0] == plan_nudge(),
        plan_nudge().role == Role::System,
        has_part(plan_nudge().content, WRITE_TODOS_NAME@),
{
    if !has_nudge(context) {
        assert(nudged(context).skip(1) =~= context);
    }
    let name = WRITE_TODOS_NAME@;
    let head = PLAN_NUDGE_PREFIX@ + " For multi-step work, call `"@;
    let rest = "` to maintain a structured todo list before and while executing. Keep at most one item `in_progress`. Mark finished steps `completed` and dropped steps `cancelled`. Do not narrate the todo list in chat; the client already receives structured updates."@;
    assert(name.subrange(0, 0int + name.len()) =~= name);
    lemma_part_of_end(head, name, name);
    lemma_part_of_start(head + name, rest, name);
}

} // verus!
