//! The server tool `task`: focused subtasks for isolated agents.

use vstd::prelude::*;

use crate::agent::tools::plan::{
    is_server_tool, write_todos_def, write_todos_tool_def, WRITE_TODOS_NAME,
};
use crate::dup::{push_last, Dup};
use crate::json::{item_trees, json_text, Json, JsonValue};
use crate::protocol::{
    plain, plain_message, Role, ToolDef, ToolDefView, WireMessage, WireMessageView,
};
use crate::text::{concat, concat3, dec, decimal, join, joined, same, trim, trimmed};

verus! {

pub const TASK_NAME: &'static str = "task";

pub const EXPLORE_NUDGE_PREFIX: &'static str = "[subagent:explore]";

/// The kind of agent that a subtask is for.
#[derive(Debug, Clone, Copy, PartialEq, Eq, Structural)]
pub enum TaskAgentKind {
    General,
    Explore,
}

impl DeepView for TaskAgentKind {
    type V = TaskAgentKind;

    open spec fn deep_view(&self) -> TaskAgentKind {
        *self
    }
}

impl TaskAgentKind {
    pub open spec fn label(self) -> Seq<char> {
        match self {
            TaskAgentKind::General => "general"@,
            TaskAgentKind::Explore => "explore"@,
        }
    }

    pub open spec fn of(s: Seq<char>) -> Option<Self> {
        if s == "general"@ {
            Some(TaskAgentKind::General)
        } else if s == "explore"@ {
            Some(TaskAgentKind::Explore)
        } else {
            None
        }
    }

    /// The name of the kind.
    pub fn as_str(&self) -> (r: &'static str)
        ensures
            r@ == self.label(),
    {
        match self {
            TaskAgentKind::General => "general",
            TaskAgentKind::Explore => "explore",
        }
    }

    /// The kind of that name.
    pub fn parse(s: &str) -> (r: Option<Self>)
        ensures
            r == TaskAgentKind::of(s@),
    {
        if same(s, "general") {
            Some(TaskAgentKind::General)
        } else if same(s, "explore") {
            Some(TaskAgentKind::Explore)
        } else {
            None
        }
    }
}

/// The name of a kind is read back as that kind.
pub proof fn law_kind_round_trip(kind: TaskAgentKind)
    ensures
        TaskAgentKind::of(kind.label()) == Some(kind),
{
    reveal_strlit("general");
    reveal_strlit("explore");
    assert("general"@[0] != "explore"@[0]);
}

/// The arguments of a `task` call.
#[derive(Debug, PartialEq)]
pub struct TaskArgs {
    pub goal: String,
    pub agent: TaskAgentKind,
    pub context_hints: Vec<String>,
}

/// What a `TaskArgs` is.
#[verifier::ext_equal]
pub struct TaskArgsView {
    pub goal: Seq<char>,
    pub agent: TaskAgentKind,
    pub context_hints: Seq<Seq<char>>,
}

impl DeepView for TaskArgs {
    type V = TaskArgsView;

    open spec fn deep_view(&self) -> TaskArgsView {
        TaskArgsView {
            goal: self.goal@,
            agent: self.agent,
            context_hints: self.context_hints.deep_view(),
        }
    }
}

impl Dup for TaskArgs {
    fn dup(&self) -> (r: Self) {
        TaskArgs {
            goal: self.goal.dup(),
            agent: self.agent,
            context_hints: self.context_hints.dup(),
        }
    }
}

/// The schema of the arguments of `task`.
pub open spec fn task_parameters() -> Json {
    Json::Obj(
        seq![
            (
                "properties"@,
                Json::Obj(
                    seq![
                        (
                            "agent"@,
                            Json::Obj(
                                seq![
                                    (
                                        "description"@,
                                        Json::Str(
                                            "general: full client tools; explore: read-only tool subset if client marked tools"@,
                                        ),
                                    ),
                                    (
                                        "enum"@,
                                        Json::Arr(
                                            seq![Json::Str("general"@), Json::Str("explore"@)],
                                        ),
                                    ),
                                    ("type"@, Json::Str("string"@)),
                                ],
                            ),
                        ),
                        (
                            "context_hints"@,
                            Json::Obj(
                                seq![
                                    (
                                        "description"@,
                                        Json::Str(
                                            "Optional short facts/paths; do not dump full parent chat"@,
                                        ),
                                    ),
                                    (
                                        "items"@,
                                        Json::Obj(seq![("type"@, Json::Str("string"@))]),
                                    ),
                                    ("type"@, Json::Str("array"@)),
                                ],
                            ),
                        ),
                        ("goal"@, Json::Obj(seq![("type"@, Json::Str("string"@))])),
                    ],
                ),
            ),
            ("required"@, Json::Arr(seq![Json::Str("goal"@)])),
            ("type"@, Json::Str("object"@)),
        ],
    )
}

/// The tool `task`.
pub open spec fn task_def() -> ToolDefView {
    ToolDefView {
        name: TASK_NAME@,
        description: "Delegate a focused subtask to an isolated agent. Returns a summary."@,
        parameters: task_parameters(),
        readonly: None,
    }
}

/// The tool `task`.
pub fn task_tool_def() -> (r: ToolDef)
    ensures
        r.deep_view() == task_def(),
{
    let kinds = vec![JsonValue::string("general"), JsonValue::string("explore")];
    assert(item_trees(kinds@) =~= seq![Json::Str("general"@), Json::Str("explore"@)]);
    let agent = JsonValue::object3(
        "description",
        JsonValue::string(
            "general: full client tools; explore: read-only tool subset if client marked tools",
        ),
        "enum",
        JsonValue::array(kinds),
        "type",
        JsonValue::string("string"),
    );
    let hints = JsonValue::object3(
        "description",
        JsonValue::string("Optional short facts/paths; do not dump full parent chat"),
        "items",
        JsonValue::object1("type", JsonValue::string("string")),
        "type",
        JsonValue::string("array"),
    );
    let goal = JsonValue::object1("type", JsonValue::string("string"));
    let required = vec![JsonValue::string("goal")];
    assert(item_trees(required@) =~= seq![Json::Str("goal"@)]);
    let parameters = JsonValue::object3(
        "properties",
        JsonValue::object3("agent", agent, "context_hints", hints, "goal", goal),
        "required",
        JsonValue::array(required),
        "type",
        JsonValue::string("object"),
    );
    ToolDef {
        name: TASK_NAME.to_owned(),
        description: "Delegate a focused subtask to an isolated agent. Returns a summary."
            .to_owned(),
        parameters,
        readonly: None,
    }
}

/// The agent that the arguments ask for; a general one where they ask for none.
pub open spec fn agent_of(args: Json) -> Result<TaskAgentKind, Seq<char>> {
    match args.get("agent"@) {
        None => Ok(TaskAgentKind::General),
        Some(v) => match v.as_str() {
            None => Err("`agent` must be a string"@),
            Some(s) => match TaskAgentKind::of(s) {
                None => Err("invalid agent `"@ + s + "`"@),
                Some(kind) => Ok(kind),
            },
        },
    }
}

/// The hints in a list, or what is wrong with the first that is no string.
pub open spec fn hints_in(items: Seq<Json>) -> Result<Seq<Seq<char>>, Seq<char>>
    decreases items.len(),
{
    if items.len() == 0 {
        Ok(Seq::empty())
    } else {
        match hints_in(items.drop_last()) {
            Err(err) => Err(err),
            Ok(hints) => match items.last().as_str() {
                None => Err(
                    "context_hints["@ + dec((items.len() - 1) as nat) + "] must be a string"@,
                ),
                Some(s) => Ok(hints.push(s)),
            },
        }
    }
}

pub open spec fn hints_of(args: Json) -> Result<Seq<Seq<char>>, Seq<char>> {
    match args.get("context_hints"@) {
        None => Ok(Seq::empty()),
        Some(v) => match v.as_array() {
            None => Err("`context_hints` must be an array"@),
            Some(items) => hints_in(items),
        },
    }
}

/// The arguments of a `task` call, or what is wrong with them: first the goal, then the agent,
/// then the hints.
pub open spec fn task_args_of(args: Json) -> Result<TaskArgsView, Seq<char>> {
    match args.str_field("goal"@) {
        None => Err("missing string `goal`"@),
        Some(goal) => if trimmed(goal).len() == 0 {
            Err("`goal` must be non-empty"@)
        } else {
            match agent_of(args) {
                Err(err) => Err(err),
                Ok(agent) => match hints_of(args) {
                    Err(err) => Err(err),
                    Ok(context_hints) => Ok(
                        TaskArgsView { goal: trimmed(goal), agent, context_hints },
                    ),
                },
            }
        },
    }
}

fn parse_agent(args: &JsonValue) -> (r: Result<TaskAgentKind, String>)
    ensures
        match r {
            Ok(kind) => agent_of(args.deep_view()) == Ok::<_, Seq<char>>(kind),
            Err(err) => agent_of(args.deep_view()) == Err::<TaskAgentKind, _>(err@),
        },
{
    match args.get("agent") {
        None => Ok(TaskAgentKind::General),
        Some(v) => match v.as_str() {
            None => Err("`agent` must be a string".to_owned()),
            Some(s) => match TaskAgentKind::parse(s) {
                None => Err(concat3("invalid agent `", s, "`")),
                Some(kind) => Ok(kind),
            },
        },
    }
}

proof fn lemma_hints_error_stays(items: Seq<Json>, k: int)
    requires
        0 <= k <= items.len(),
        hints_in(items.take(k)) is Err,
    ensures
        hints_in(items) == hints_in(items.take(k)),
    decreases items.len() - k,
{
    if k == items.len() {
        assert(items.take(k) =~= items);
    } else {
        assert(items.take(k + 1).drop_last() =~= items.take(k));
        lemma_hints_error_stays(items, k + 1);
    }
}

fn parse_hints(args: &JsonValue) -> (r: Result<Vec<String>, String>)
    ensures
        match r {
            Ok(hints) => hints_of(args.deep_view()) == Ok::<_, Seq<char>>(hints.deep_view()),
            Err(err) => hints_of(args.deep_view()) == Err::<Seq<Seq<char>>, _>(err@),
        },
{
    let mut out: Vec<String> = Vec::new();
    assert(out.deep_view() =~= Seq::<Seq<char>>::empty());
    let items = match args.get("context_hints") {
        None => {
            return Ok(out);
        },
        Some(v) => match v.as_array() {
            None => {
                return Err("`context_hints` must be an array".to_owned());
            },
            Some(items) => items,
        },
    };
    let ghost all = item_trees(items@);
    let mut i: usize = 0;
    assert(all.take(0) =~= Seq::<Json>::empty());
    while i < items.len()
        invariant
            i <= items@.len(),
            all == item_trees(items@),
            hints_of(args.deep_view()) == hints_in(all),
            hints_in(all.take(i as int)) == Ok::<_, Seq<char>>(out.deep_view()),
        decreases items@.len() - i,
    {
        proof {
            assert(all.take(i + 1).drop_last() =~= all.take(i as int));
            assert(all.take(i + 1).last() == items@[i as int].tree());
        }
        match items[i].as_str() {
            None => {
                proof {
                    lemma_hints_error_stays(all, i + 1);
                }
                let number = decimal(i as u64);
                return Err(concat3("context_hints[", number.as_str(), "] must be a string"));
            },
            Some(s) => {
                push_last(&mut out, s.to_owned());
            },
        }
        i = i + 1;
    }
    assert(all.take(all.len() as int) =~= all);
    Ok(out)
}

/// Reads the arguments of a `task` call.
pub fn parse_task_args(args: &JsonValue) -> (r: Result<TaskArgs, String>)
    ensures
        match r {
            Ok(parsed) => task_args_of(args.deep_view()) == Ok::<_, Seq<char>>(
                parsed.deep_view(),
            ),
            Err(err) => task_args_of(args.deep_view()) == Err::<TaskArgsView, _>(err@),
        },
{
    let goal = match args.str_field("goal") {
        None => {
            return Err("missing string `goal`".to_owned());
        },
        Some(goal) => trim(goal),
    };
    if goal.as_str().is_empty() {
        return Err("`goal` must be non-empty".to_owned());
    }
    let agent = match parse_agent(args) {
        Ok(agent) => agent,
        Err(err) => {
            return Err(err);
        },
    };
    match parse_hints(args) {
        Ok(context_hints) => Ok(TaskArgs { goal, agent, context_hints }),
        Err(err) => Err(err),
    }
}

pub fn is_task_tool(name: &str) -> (r: bool)
    ensures
        r == (name@ == TASK_NAME@),
{
    same(name, TASK_NAME)
}

/// Whether the server runs the tool itself, in the modes of the run.
pub open spec fn server_tool(name: Seq<char>, plan_mode: bool, subagents: bool) -> bool {
    (plan_mode && name == WRITE_TODOS_NAME@) || (subagents && name == TASK_NAME@)
}

pub fn is_server_tool_name(name: &str, plan_mode: bool, subagents: bool) -> (r: bool)
    ensures
        r == server_tool(name@, plan_mode, subagents),
{
    (plan_mode && is_server_tool(name)) || (subagents && is_task_tool(name))
}

/// Whether a name belongs to a server tool.
pub open spec fn reserved(name: Seq<char>) -> bool {
    name == WRITE_TODOS_NAME@ || name == TASK_NAME@
}

/// The tools without those that have the name of a server tool, in order.
pub open spec fn client_only(tools: Seq<ToolDefView>) -> Seq<ToolDefView>
    decreases tools.len(),
{
    if tools.len() == 0 {
        Seq::empty()
    } else if reserved(tools.last().name) {
        client_only(tools.drop_last())
    } else {
        client_only(tools.drop_last()).push(tools.last())
    }
}

/// The tools that are marked read-only, in order.
pub open spec fn readonly_only(tools: Seq<ToolDefView>) -> Seq<ToolDefView>
    decreases tools.len(),
{
    if tools.len() == 0 {
        Seq::empty()
    } else if tools.last().readonly == Some(true) {
        readonly_only(tools.drop_last()).push(tools.last())
    } else {
        readonly_only(tools.drop_last())
    }
}

fn add_client_tools(out: &mut Vec<ToolDef>, tools: &[ToolDef])
    ensures
        final(out).deep_view() == old(out).deep_view() + client_only(tools.deep_view()),
{
    let ghost before = out.deep_view();
    let ghost all = tools.deep_view();
    let mut i: usize = 0;
    assert(all.take(0) =~= Seq::<ToolDefView>::empty());
    assert(before + Seq::<ToolDefView>::empty() =~= before);
    while i < tools.len()
        invariant
            i <= tools@.len(),
            all == tools.deep_view(),
            out.deep_view() == before + client_only(all.take(i as int)),
        decreases tools@.len() - i,
    {
        proof {
            assert(all.take(i + 1).drop_last() =~= all.take(i as int));
            assert(all.take(i + 1).last() == tools@[i as int].deep_view());
        }
        let name = tools[i].name.as_str();
        if !is_server_tool(name) && !is_task_tool(name) {
            push_last(out, tools[i].dup());
            assert(out.deep_view() =~= before + client_only(all.take(i + 1)));
        }
        i = i + 1;
    }
    assert(all.take(all.len() as int) =~= all);
}

/// The tools that the model is offered: those of the server first, then those of the client.
pub open spec fn lead_tools(
    client_tools: Seq<ToolDefView>,
    plan_mode: bool,
    subagents: bool,
) -> Seq<ToolDefView> {
    (if plan_mode {
        seq![write_todos_def()]
    } else {
        Seq::empty()
    }) + (if subagents {
        seq![task_def()]
    } else {
        Seq::empty()
    }) + client_only(client_tools)
}

/// Puts the server tools ahead of the client tools, and drops client tools of the same name.
pub fn inject_lead_tools(client_tools: &[ToolDef], plan_mode: bool, subagents: bool) -> (r: Vec<
    ToolDef,
>)
    ensures
        r.deep_view() == lead_tools(client_tools.deep_view(), plan_mode, subagents),
{
    let mut out: Vec<ToolDef> = Vec::new();
    assert(out.deep_view() =~= Seq::<ToolDefView>::empty());
    if plan_mode {
        push_last(&mut out, write_todos_tool_def());
    }
    let ghost first = out.deep_view();
    if subagents {
        push_last(&mut out, task_tool_def());
    }
    add_client_tools(&mut out, client_tools);
    assert(out.deep_view() =~= lead_tools(client_tools.deep_view(), plan_mode, subagents));
    out
}

/// The client tools that a subagent may use: all of them, or for an `explore` agent those that are
/// marked read-only, if any is.
pub open spec fn tools_for_agent(
    client_tools: Seq<ToolDefView>,
    agent: TaskAgentKind,
) -> Seq<ToolDefView> {
    match agent {
        TaskAgentKind::General => client_only(client_tools),
        TaskAgentKind::Explore => if readonly_only(client_tools).len() == 0 {
            client_only(client_tools)
        } else {
            readonly_only(client_tools)
        },
    }
}

/// The client tools that a subagent may use.
pub fn filter_tools_for_agent(client_tools: &[ToolDef], agent: &TaskAgentKind) -> (r: Vec<ToolDef>)
    ensures
        r.deep_view() == tools_for_agent(client_tools.deep_view(), *agent),
{
    let ghost all = client_tools.deep_view();
    if *agent == TaskAgentKind::Explore {
        let mut marked: Vec<ToolDef> = Vec::new();
        let mut i: usize = 0;
        assert(all.take(0) =~= Seq::<ToolDefView>::empty());
        assert(marked.deep_view() =~= Seq::<ToolDefView>::empty());
        while i < client_tools.len()
            invariant
                i <= client_tools@.len(),
                all == client_tools.deep_view(),
                marked.deep_view() == readonly_only(all.take(i as int)),
            decreases client_tools@.len() - i,
        {
            proof {
                assert(all.take(i + 1).drop_last() =~= all.take(i as int));
                assert(all.take(i + 1).last() == client_tools@[i as int].deep_view());
            }
            if matches!(client_tools[i].readonly, Some(true)) {
                push_last(&mut marked, client_tools[i].dup());
            }
            i = i + 1;
        }
        assert(all.take(all.len() as int) =~= all);
        assert(marked@.len() == marked.deep_view().len());
        if marked.len() > 0 {
            return marked;
        }
    }
    let mut out: Vec<ToolDef> = Vec::new();
    add_client_tools(&mut out, client_tools);
    assert(out.deep_view() =~= client_only(all));
    out
}

pub open spec fn hint_lines(hints: Seq<Seq<char>>) -> Seq<Seq<char>> {
    Seq::new(hints.len(), |i: int| "- "@ + hints[i])
}

/// The context that a subagent starts with: what it is, the hints, and its goal.
pub open spec fn subagent_context(args: TaskArgsView) -> Seq<WireMessageView> {
    let role = plain(
        Role::System,
        match args.agent {
            TaskAgentKind::Explore => EXPLORE_NUDGE_PREFIX@
                + " You are an explore subagent. Prefer read-only investigation. Do not modify files or run destructive commands. Return a concise summary of findings."@,
            TaskAgentKind::General =>
                "[subagent:general] You are a focused subagent. Complete the goal and return a concise summary."@,
        },
    );
    let hints = if args.context_hints.len() == 0 {
        Seq::empty()
    } else {
        seq![
            plain(
                Role::System,
                "Context hints:\n"@ + joined(hint_lines(args.context_hints), "\n"@),
            ),
        ]
    };
    seq![role] + hints + seq![plain(Role::User, args.goal)]
}

/// The context that a subagent starts with.
pub fn build_subagent_context(args: &TaskArgs) -> (r: Vec<WireMessage>)
    ensures
        r.deep_view() == subagent_context(args.deep_view()),
{
    let mut msgs: Vec<WireMessage> = Vec::new();
    assert(msgs.deep_view() =~= Seq::<WireMessageView>::empty());
    let role = match args.agent {
        TaskAgentKind::Explore => concat(
            EXPLORE_NUDGE_PREFIX,
            " You are an explore subagent. Prefer read-only investigation. Do not modify files or run destructive commands. Return a concise summary of findings.",
        ),
        TaskAgentKind::General =>
            "[subagent:general] You are a focused subagent. Complete the goal and return a concise summary.".to_owned(),
    };
    push_last(&mut msgs, plain_message(Role::System, role));
    assert(args.context_hints@.len() == args.context_hints.deep_view().len());
    if args.context_hints.len() > 0 {
        let mut lines: Vec<String> = Vec::new();
        let mut i: usize = 0;
        while i < args.context_hints.len()
            invariant
                i <= args.context_hints@.len(),
                lines@.len() == i,
                forall|j: int|
                    0 <= j < i ==> (#[trigger] lines@[j])@ == "- "@ + args.context_hints@[j]@,
            decreases args.context_hints@.len() - i,
        {
            lines.push(concat("- ", args.context_hints[i].as_str()));
            i = i + 1;
        }
        assert(lines.deep_view() =~= hint_lines(args.context_hints.deep_view()));
        let hints = join(&lines, "\n");
        push_last(
            &mut msgs,
            plain_message(Role::System, concat("Context hints:\n", hints.as_str())),
        );
    }
    push_last(&mut msgs, plain_message(Role::User, args.goal.dup()));
    assert(msgs.deep_view() =~= subagent_context(args.deep_view()));
    msgs
}

/// The result of a subtask that gave a summary.
pub open spec fn task_ok_text(summary: Seq<char>) -> Seq<char> {
    json_text(Json::Obj(seq![("ok"@, Json::Bool(true)), ("summary"@, Json::Str(summary))]))
}

pub fn task_result_ok(summary: &str) -> (r: String)
    ensures
        r@ == task_ok_text(summary@),
{
    JsonValue::object2("ok", JsonValue::Bool(true), "summary", JsonValue::string(summary)).to_text()
}

/// The result of a server tool that failed.
pub open spec fn tool_err_text(error: Seq<char>) -> Seq<char> {
    json_text(Json::Obj(seq![("error"@, Json::Str(error)), ("ok"@, Json::Bool(false))]))
}

pub fn task_result_err(error: &str) -> (r: String)
    ensures
        r@ == tool_err_text(error@),
{
    JsonValue::object2("error", JsonValue::string(error), "ok", JsonValue::Bool(false)).to_text()
}

/// No client tool that the model is offered has the name of a server tool.
pub proof fn law_client_tools_not_reserved(tools: Seq<ToolDefView>)
    ensures
        forall|i: int| 0 <= i < client_only(tools).len() ==> !reserved(
            (#[trigger] client_only(tools)[i]).name,
        ),
        client_only(tools).len() <= tools.len(),
    decreases tools.len(),
{
    if tools.len() > 0 {
        law_client_tools_not_reserved(tools.drop_last());
    }
}

/// The server tools come first: `write_todos` in plan mode, then `task` with subagents.
pub proof fn law_server_tools_first(tools: Seq<ToolDefView>, plan_mode: bool, subagents: bool)
    ensures
        ({
            let offered = lead_tools(tools, plan_mode, subagents);
            let task_at: int = if plan_mode {
                1
            } else {
                0
            };
            &&& plan_mode ==> offered[0] == write_todos_def()
            &&& subagents ==> offered[task_at] == task_def()
        }),
{
}

/// Client tools are offered again and again without change.
pub proof fn law_client_only_idempotent(tools: Seq<ToolDefView>)
    ensures
        client_only(client_only(tools)) == client_only(tools),
    decreases tools.len(),
{
    if tools.len() > 0 {
        law_client_only_idempotent(tools.drop_last());
        let rest = client_only(tools.drop_last());
        if !reserved(tools.last().name) {
            assert(rest.push(tools.last()).drop_last() =~= rest);
        }
    }
}

/// An `explore` agent gets only tools that are marked read-only, if any is.
pub proof fn law_explore_is_readonly(tools: Seq<ToolDefView>)
    requires
        readonly_only(tools).len() > 0,
    ensures
        forall|i: int|
            0 <= i < tools_for_agent(tools, TaskAgentKind::Explore).len() ==> (
            #[trigger] tools_for_agent(tools, TaskAgentKind::Explore)[i]).readonly == Some(true),
{
    lemma_readonly_only(tools);
}

proof fn lemma_readonly_only(tools: Seq<ToolDefView>)
    ensures
        forall|i: int|
            0 <= i < readonly_only(tools).len() ==> (#[trigger] readonly_only(tools)[i]).readonly
                == Some(true),
    decreases tools.len(),
{
    if tools.len() > 0 {
        lemma_readonly_only(tools.drop_last());
    }
}

} // verus!
