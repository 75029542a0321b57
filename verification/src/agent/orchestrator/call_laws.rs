//! What becomes of the calls that the model makes: each is dealt with once, and each gets a reply.

use vstd::multiset::Multiset;
use vstd::prelude::*;

use crate::agent::orchestrator::laws::{
    calls_are_settled, has_no_calls, is_ending, is_placed, law_all_calls_come_before_the_model,
    law_asks_fit_the_phase, law_terms_are_kept,
};
use crate::agent::orchestrator::rules::{
    client_calls_in, overflow_replies, replies_of, result_text, task_calls_in, task_limit,
    todo_calls_in, Turned,
};
use crate::agent::orchestrator::state::{
    AfterView, AgentRunView, AskView, CompletedView, EffectView, HappeningView, PersistSessionView,
    PhaseView, StepEnv, TaskReplyView,
};
use crate::agent::tools::plan::WRITE_TODOS_NAME;
use crate::agent::tools::task::TASK_NAME;
use crate::protocol::{
    tool_reply, Role, SseEventView, ToolCallView, ToolResultRequestView, WireMessageView,
};
use crate::store::PendingToolView;

verus! {

/// The ids of calls, each as often as it occurs.
pub open spec fn ids_of(calls: Seq<ToolCallView>) -> Multiset<Seq<char>>
    decreases calls.len(),
{
    if calls.len() == 0 {
        Multiset::empty()
    } else {
        ids_of(calls.drop_last()).insert(calls.last().id)
    }
}

/// The ids of the calls that subtasks reply to.
pub open spec fn reply_ids(replies: Seq<TaskReplyView>) -> Multiset<Seq<char>>
    decreases replies.len(),
{
    if replies.len() == 0 {
        Multiset::empty()
    } else {
        reply_ids(replies.drop_last()).insert(replies.last().id)
    }
}

/// The ids of the calls that tool messages answer.
pub open spec fn answered_ids(messages: Seq<WireMessageView>) -> Multiset<Seq<char>>
    decreases messages.len(),
{
    if messages.len() == 0 {
        Multiset::empty()
    } else {
        let before = answered_ids(messages.drop_last());
        match messages.last().tool_call_id {
            Some(id) if messages.last().role == Role::Tool => before.insert(id),
            _ => before,
        }
    }
}

/// The calls that the run has taken up but not put in line: those of the message that it saves, or
/// the one that the client is asked for.
pub open spec fn in_hand(run: AgentRunView) -> Seq<ToolCallView> {
    match run.phase {
        PhaseView::Arm(call) => seq![call],
        PhaseView::Recv(call) => seq![call],
        PhaseView::Save { after: AfterView::Request(call), .. } => seq![call],
        PhaseView::Save { after: AfterView::Assistant(calls), .. } => calls,
        PhaseView::Resume(pending) => seq![call_of(pending)],
        _ => Seq::empty(),
    }
}

pub open spec fn call_of(pending: PendingToolView) -> ToolCallView {
    ToolCallView {
        id: pending.tool_call_id,
        name: pending.name,
        arguments: pending.arguments,
    }
}

/// The calls that have no reply yet, but for subtasks that are under way.
pub open spec fn owed(run: AgentRunView) -> Seq<ToolCallView> {
    in_hand(run) + run.todo_calls + run.task_calls + run.client_calls
}

/// The subtasks that a step sets going.
pub open spec fn set_going(ask: AskView) -> Seq<ToolCallView> {
    match ask {
        AskView::RunTasks(calls) => calls,
        _ => Seq::empty(),
    }
}

/// The ids of what comes in with what happened: the calls of a message of the model that is
/// complete, or the calls that subtasks reply to.
pub open spec fn comes_in(run: AgentRunView, happening: HappeningView) -> Multiset<Seq<char>> {
    match (run.phase, happening) {
        (PhaseView::Streaming(_, Some(message)), HappeningView::StreamEnd) => ids_of(
            message.tool_calls,
        ),
        (_, HappeningView::TasksDone(replies)) => reply_ids(replies),
        _ => Multiset::empty(),
    }
}

/// Whether the loop goes on.
pub open spec fn goes_on(run: AgentRunView) -> bool {
    !(run.phase is Done) && !is_ending(run)
}

/// Whether no messages come in from outside, but for the result of the call that is awaited.
pub open spec fn is_own(run: AgentRunView, happening: HappeningView) -> bool {
    match happening {
        HappeningView::MiddlewareDone(..) | HappeningView::MiddlewareFailed(..) => false,
        HappeningView::Steered(joined) => joined.len() == 0,
        HappeningView::FollowUps(joined) => joined.len() == 0,
        HappeningView::ToolResult(result) => run.phase matches PhaseView::Recv(call)
            && result.tool_call_id == call.id,
        _ => true,
    }
}

proof fn lemma_ids_concat(a: Seq<ToolCallView>, b: Seq<ToolCallView>)
    ensures
        ids_of(a + b) == ids_of(a).add(ids_of(b)),
    decreases b.len(),
{
    if b.len() == 0 {
        assert(a + b =~= a);
        assert(ids_of(a).add(ids_of(b)) =~= ids_of(a));
    } else {
        assert((a + b).drop_last() =~= a + b.drop_last());
        lemma_ids_concat(a, b.drop_last());
        assert(ids_of(a + b) =~= ids_of(a).add(ids_of(b)));
    }
}

proof fn lemma_ids_one(call: ToolCallView)
    ensures
        ids_of(seq![call]) == Multiset::<Seq<char>>::singleton(call.id),
{
    assert(seq![call].drop_last() =~= Seq::<ToolCallView>::empty());
    reveal_with_fuel(ids_of, 2);
    assert(ids_of(seq![call]) =~= Multiset::singleton(call.id));
}

proof fn lemma_ids_front(calls: Seq<ToolCallView>)
    requires
        calls.len() > 0,
    ensures
        ids_of(calls) == Multiset::<Seq<char>>::singleton(calls[0].id).add(ids_of(calls.skip(1))),
{
    assert(calls =~= seq![calls[0]] + calls.skip(1));
    lemma_ids_concat(seq![calls[0]], calls.skip(1));
    lemma_ids_one(calls[0]);
}

proof fn lemma_owed_ids(run: AgentRunView)
    ensures
        ids_of(owed(run)) == ids_of(in_hand(run)).add(ids_of(run.todo_calls)).add(
            ids_of(run.task_calls),
        ).add(ids_of(run.client_calls)),
{
    lemma_ids_concat(in_hand(run), run.todo_calls);
    lemma_ids_concat(in_hand(run) + run.todo_calls, run.task_calls);
    lemma_ids_concat(in_hand(run) + run.todo_calls + run.task_calls, run.client_calls);
}

proof fn lemma_answered_concat(a: Seq<WireMessageView>, b: Seq<WireMessageView>)
    ensures
        answered_ids(a + b) == answered_ids(a).add(answered_ids(b)),
    decreases b.len(),
{
    if b.len() == 0 {
        assert(a + b =~= a);
        assert(answered_ids(a).add(answered_ids(b)) =~= answered_ids(a));
    } else {
        assert((a + b).drop_last() =~= a + b.drop_last());
        lemma_answered_concat(a, b.drop_last());
        assert(answered_ids(a + b) =~= answered_ids(a).add(answered_ids(b)));
    }
}

proof fn lemma_answered_one(message: WireMessageView)
    ensures
        answered_ids(seq![message]) == (match message.tool_call_id {
            Some(id) if message.role == Role::Tool => Multiset::<Seq<char>>::singleton(id),
            _ => Multiset::empty(),
        }),
{
    assert(seq![message].drop_last() =~= Seq::<WireMessageView>::empty());
    reveal_with_fuel(answered_ids, 2);
    assert(Multiset::<Seq<char>>::empty().insert(message.tool_call_id->0) =~= Multiset::singleton(
        message.tool_call_id->0,
    ));
}

proof fn lemma_overflow_answers(calls: Seq<ToolCallView>, limit: nat)
    ensures
        answered_ids(overflow_replies(calls, limit)) == ids_of(calls),
    decreases calls.len(),
{
    if calls.len() > 0 {
        assert(overflow_replies(calls, limit).drop_last() =~= overflow_replies(
            calls.drop_last(),
            limit,
        ));
        lemma_overflow_answers(calls.drop_last(), limit);
    }
}

proof fn lemma_replies_answer(replies: Seq<TaskReplyView>)
    ensures
        answered_ids(replies_of(replies)) == reply_ids(replies),
    decreases replies.len(),
{
    if replies.len() > 0 {
        assert(replies_of(replies).drop_last() =~= replies_of(replies.drop_last()));
        lemma_replies_answer(replies.drop_last());
    }
}

/// Each call goes to exactly one of the three that run calls.
proof fn lemma_ids_parted(calls: Seq<ToolCallView>, plan_mode: bool, subagents: bool)
    ensures
        ids_of(todo_calls_in(calls, plan_mode, subagents)).add(
            ids_of(task_calls_in(calls, plan_mode, subagents)),
        ).add(ids_of(client_calls_in(calls, plan_mode, subagents))) == ids_of(calls),
    decreases calls.len(),
{
    let todo = todo_calls_in(calls, plan_mode, subagents);
    let task = task_calls_in(calls, plan_mode, subagents);
    let client = client_calls_in(calls, plan_mode, subagents);
    if calls.len() == 0 {
        assert(ids_of(todo).add(ids_of(task)).add(ids_of(client)) =~= ids_of(calls));
    } else {
        let less = calls.drop_last();
        lemma_ids_parted(less, plan_mode, subagents);
        let todo0 = todo_calls_in(less, plan_mode, subagents);
        let task0 = task_calls_in(less, plan_mode, subagents);
        let client0 = client_calls_in(less, plan_mode, subagents);
        assert(todo0.push(calls.last()).drop_last() =~= todo0);
        assert(task0.push(calls.last()).drop_last() =~= task0);
        assert(client0.push(calls.last()).drop_last() =~= client0);
        assert(ids_of(todo).add(ids_of(task)).add(ids_of(client)) =~= ids_of(calls));
    }
}

/// Whether a step that began with `run` and some open calls has a reply or a place for each.
spec fn balances(run: AgentRunView, open: Multiset<Seq<char>>, t: Turned) -> bool {
    goes_on(t.run) ==> run.context.is_prefix_of(t.run.context) && open == answered_ids(
        t.run.context.skip(run.context.len() as int),
    ).add(ids_of(owed(t.run))).add(ids_of(set_going(t.ask)))
}

/// The calls that are in line.
spec fn in_line(run: AgentRunView) -> Multiset<Seq<char>> {
    ids_of(run.todo_calls).add(ids_of(run.task_calls)).add(ids_of(run.client_calls))
}

/// A step that adds nothing to the context and keeps what is in line.
proof fn lemma_untouched(run: AgentRunView, t: Turned)
    requires
        t.run.context == run.context,
        t.run.todo_calls == run.todo_calls,
        t.run.task_calls == run.task_calls,
        t.run.client_calls == run.client_calls,
        set_going(t.ask).len() == 0,
    ensures
        balances(run, ids_of(in_hand(t.run)).add(in_line(run)), t),
{
    lemma_owed_ids(t.run);
    assert(t.run.context.skip(run.context.len() as int) =~= Seq::<WireMessageView>::empty());
    let open = ids_of(in_hand(t.run)).add(in_line(run));
    assert(open =~= answered_ids(t.run.context.skip(run.context.len() as int)).add(
        ids_of(owed(t.run)),
    ).add(ids_of(set_going(t.ask))));
}

proof fn lemma_ready(run: AgentRunView, effects: Seq<EffectView>, env: StepEnv)
    ensures
        balances(run, in_line(run), run.ready(effects, env)),
{
    reveal(AgentRunView::ready);
    reveal(AgentRunView::cancel);
    reveal(AgentRunView::guard);
    let t = run.ready(effects, env);
    if goes_on(t.run) {
        lemma_untouched(run, t);
        assert(ids_of(in_hand(t.run)).add(in_line(run)) =~= in_line(run));
    }
}

proof fn lemma_top(run: AgentRunView, effects: Seq<EffectView>, env: StepEnv)
    ensures
        balances(run, in_line(run), run.top(effects, env)),
{
    reveal(AgentRunView::top);
    lemma_ready(run, effects, env);
    let t = run.top(effects, env);
    if !run.folded() {
        lemma_untouched(run, t);
        assert(ids_of(in_hand(t.run)).add(in_line(run)) =~= in_line(run));
    }
}

proof fn lemma_quiet(run: AgentRunView, effects: Seq<EffectView>, env: StepEnv)
    ensures
        balances(run, in_line(run), run.quiet(effects, env)),
{
    reveal(AgentRunView::quiet);
    reveal(AgentRunView::idle);
    reveal(AgentRunView::complete);
    reveal(AgentRunView::cancel);
    reveal(AgentRunView::guard);
    let t = run.quiet(effects, env);
    if goes_on(t.run) {
        lemma_untouched(run, t);
        assert(ids_of(in_hand(t.run)).add(in_line(run)) =~= in_line(run));
    }
}

proof fn lemma_write_todos(
    run: AgentRunView,
    effects: Seq<EffectView>,
    env: StepEnv,
    call: ToolCallView,
)
    ensures
        balances(
            run,
            Multiset::<Seq<char>>::singleton(call.id).add(in_line(run)),
            run.write_todos(effects, env, call),
        ),
        run.write_todos(effects, env, call).run.context.len() == run.context.len() + 1,
{
    reveal(AgentRunView::write_todos);
    let t = run.write_todos(effects, env, call);
    lemma_owed_ids(t.run);
    let reply = t.run.context.last();
    lemma_answered_one(reply);
    assert(t.run.context.skip(run.context.len() as int) =~= seq![reply]);
    let open = Multiset::<Seq<char>>::singleton(call.id).add(in_line(run));
    assert(open =~= answered_ids(t.run.context.skip(run.context.len() as int)).add(
        ids_of(owed(t.run)),
    ).add(ids_of(set_going(t.ask))));
}

proof fn lemma_work(run: AgentRunView, effects: Seq<EffectView>, env: StepEnv)
    ensures
        balances(run, in_line(run), run.work(effects, env)),
{
    reveal(AgentRunView::work);
    let t = run.work(effects, env);
    if run.todo_calls.len() > 0 {
        let call = run.todo_calls[0];
        let next = AgentRunView { todo_calls: run.todo_calls.skip(1), ..run };
        lemma_ids_front(run.todo_calls);
        lemma_write_todos(next, effects, env, call);
        assert(Multiset::<Seq<char>>::singleton(call.id).add(in_line(next)) =~= in_line(run));
    } else if run.task_calls.len() > 0 {
        let limit = task_limit(run);
        let all = run.task_calls;
        let (now, late) = if all.len() > limit {
            (all.take(limit as int), all.skip(limit as int))
        } else {
            (all, Seq::empty())
        };
        assert(all =~= now + late);
        lemma_ids_concat(now, late);
        lemma_overflow_answers(late, limit);
        lemma_owed_ids(t.run);
        assert(t.run.context.skip(run.context.len() as int) =~= overflow_replies(late, limit));
        assert(in_line(run) =~= answered_ids(t.run.context.skip(run.context.len() as int)).add(
            ids_of(owed(t.run)),
        ).add(ids_of(set_going(t.ask))));
    } else if run.client_calls.len() > 0 {
        lemma_ids_front(run.client_calls);
        lemma_ids_one(run.client_calls[0]);
        lemma_owed_ids(t.run);
        assert(t.run.context.skip(run.context.len() as int) =~= Seq::<WireMessageView>::empty());
        assert(in_line(run) =~= answered_ids(t.run.context.skip(run.context.len() as int)).add(
            ids_of(owed(t.run)),
        ).add(ids_of(set_going(t.ask))));
    } else {
        lemma_top(run, effects, env);
    }
}

proof fn lemma_turn(
    run: AgentRunView,
    effects: Seq<EffectView>,
    env: StepEnv,
    calls: Seq<ToolCallView>,
)
    requires
        has_no_calls(run),
    ensures
        balances(run, ids_of(calls), run.turn(effects, env, calls)),
{
    reveal(AgentRunView::turn);
    let t = run.turn(effects, env, calls);
    assert(in_line(run) =~= Multiset::empty());
    if calls.len() == 0 {
        lemma_quiet(run, effects, env);
        if !run.folded() {
            lemma_untouched(run, t);
            assert(ids_of(in_hand(t.run)).add(in_line(run)) =~= ids_of(calls));
        }
    } else {
        reveal(AgentRunView::guard);
        let plan_mode = run.session.plan_mode;
        let subagents = run.session.subagents;
        let next = AgentRunView {
            todo_calls: todo_calls_in(calls, plan_mode, subagents),
            task_calls: task_calls_in(calls, plan_mode, subagents),
            client_calls: client_calls_in(calls, plan_mode, subagents),
            ..run.with_progress()
        };
        lemma_ids_parted(calls, plan_mode, subagents);
        lemma_work(next, effects, env);
    }
}

/// What is owed before a step, and what comes in with it.
spec fn open_before(run: AgentRunView, happening: HappeningView) -> Multiset<Seq<char>> {
    ids_of(owed(run)).add(comes_in(run, happening))
}

proof fn lemma_stream_end(
    run: AgentRunView,
    env: StepEnv,
    message_id: Seq<char>,
    completed: Option<CompletedView>,
)
    requires
        has_no_calls(run),
    ensures
        completed matches Some(message) ==> balances(
            run,
            ids_of(message.tool_calls),
            run.stream_end(env, message_id, completed),
        ),
        completed is None ==> !goes_on(run.stream_end(env, message_id, completed).run),
{
    reveal(AgentRunView::stream_end);
    reveal(AgentRunView::cancel);
    reveal(AgentRunView::fail);
    let t = run.stream_end(env, message_id, completed);
    if let Some(message) = completed {
        if goes_on(t.run) {
            let next = run.answered(message);
            let spoken = next.context.last();
            assert(next.context =~= run.context + seq![spoken]);
            lemma_answered_one(spoken);
            if run.folded() {
                lemma_turn(next, Seq::empty(), env, message.tool_calls);
                let more = t.run.context.skip(next.context.len() as int);
                assert(t.run.context.skip(run.context.len() as int) =~= seq![spoken] + more);
                lemma_answered_concat(seq![spoken], more);
                assert(answered_ids(seq![spoken] + more) =~= answered_ids(more));
            } else {
                lemma_owed_ids(t.run);
                assert(t.run.context.skip(run.context.len() as int) =~= seq![spoken]);
                assert(ids_of(message.tool_calls) =~= answered_ids(
                    t.run.context.skip(run.context.len() as int),
                ).add(ids_of(owed(t.run))).add(ids_of(set_going(t.ask))));
            }
        }
    }
}

proof fn lemma_resulted(
    run: AgentRunView,
    env: StepEnv,
    call: ToolCallView,
    result: ToolResultRequestView,
)
    requires
        result.tool_call_id == call.id,
    ensures
        balances(
            run,
            Multiset::<Seq<char>>::singleton(call.id).add(in_line(run)),
            run.resulted(env, call, result),
        ),
{
    reveal(AgentRunView::resulted);
    let t = run.resulted(env, call, result);
    let reply = tool_reply(
        result_text(result),
        result.tool_call_id,
        call.name,
    );
    let next = run.with_context(run.context.push(reply));
    lemma_answered_one(reply);
    let open = Multiset::<Seq<char>>::singleton(call.id).add(in_line(run));
    if run.folded() {
        let settled = next.with_session(
            PersistSessionView { pending_tool: None, ..next.session },
        );
        lemma_work(settled, seq![EffectView::RemovePending(call.id)], env);
        if goes_on(t.run) {
            let more = t.run.context.skip(next.context.len() as int);
            assert(t == settled.work(seq![EffectView::RemovePending(call.id)], env));
            assert(settled.context.is_prefix_of(t.run.context));
            assert(next.context[run.context.len() as int] == reply);
            assert(t.run.context[run.context.len() as int] == reply);
            assert(t.run.context.skip(run.context.len() as int) =~= seq![reply] + more);
            lemma_answered_concat(seq![reply], more);
            assert(open =~= answered_ids(t.run.context.skip(run.context.len() as int)).add(
                ids_of(owed(t.run)),
            ).add(ids_of(set_going(t.ask))));
        }
    } else {
        lemma_owed_ids(t.run);
        assert(t.run.context.skip(run.context.len() as int) =~= seq![reply]);
        assert(open =~= answered_ids(t.run.context.skip(run.context.len() as int)).add(
            ids_of(owed(t.run)),
        ).add(ids_of(set_going(t.ask))));
    }
}

proof fn lemma_tasks_done(run: AgentRunView, env: StepEnv, replies: Seq<TaskReplyView>)
    ensures
        balances(run, reply_ids(replies).add(in_line(run)), run.tasks_done(env, replies)),
{
    reveal(AgentRunView::tasks_done);
    let t = run.tasks_done(env, replies);
    lemma_replies_answer(replies);
    lemma_owed_ids(t.run);
    assert(t.run.context.skip(run.context.len() as int) =~= replies_of(replies));
    assert(reply_ids(replies).add(in_line(run)) =~= answered_ids(
        t.run.context.skip(run.context.len() as int),
    ).add(ids_of(owed(t.run))).add(ids_of(set_going(t.ask))));
}

proof fn lemma_saved(run: AgentRunView, env: StepEnv, after: AfterView)
    requires
        match after {
            AfterView::Todos | AfterView::Tasks | AfterView::Request(_) | AfterView::Result
            | AfterView::Final(_) => true,
            _ => has_no_calls(run),
        },
    ensures
        balances(
            run,
            (match after {
                AfterView::Request(call) => Multiset::<Seq<char>>::singleton(call.id),
                AfterView::Assistant(calls) => ids_of(calls),
                _ => Multiset::empty(),
            }).add(in_line(run)),
            run.saved(env, after),
        ),
{
    reveal(AgentRunView::saved);
    let t = run.saved(env, after);
    let none = Seq::<EffectView>::empty();
    assert(Multiset::<Seq<char>>::empty().add(in_line(run)) =~= in_line(run));
    match after {
        AfterView::Request(call) => {
            lemma_untouched(run, t);
            lemma_ids_one(call);
        },
        AfterView::Assistant(calls) => {
            lemma_turn(run, none, env, calls);
            assert(ids_of(calls).add(in_line(run)) =~= ids_of(calls));
        },
        AfterView::Todos | AfterView::Tasks | AfterView::Result => {
            lemma_work(run, none, env);
        },
        AfterView::Middleware => {
            reveal(AgentRunView::open);
            lemma_untouched(run, t);
            assert(ids_of(in_hand(t.run)).add(in_line(run)) =~= in_line(run));
        },
        AfterView::FollowUps => {
            lemma_top(run, none, env);
        },
        AfterView::Steer(_) => {
            lemma_ready(run, none, env);
            lemma_top(run.with_progress(), none, env);
        },
        AfterView::Final(_) => {},
    }
}

/// What goes in comes out: while the loop goes on, each call that is owed before a step or comes in
/// with it has a reply among the messages that the step adds, is still owed, or is a subtask that
/// the step sets going; and no call more than that. So no call is lost, none is made up, and none
/// has two replies.
pub proof fn law_no_call_is_lost(run: AgentRunView, happening: HappeningView, env: StepEnv)
    requires
        run.expects(happening),
        is_placed(run),
        calls_are_settled(run),
        is_own(run, happening),
        goes_on(run.step(happening, env).run),
    ensures
        ({
            let t = run.step(happening, env);
            &&& run.context.is_prefix_of(t.run.context)
            &&& ids_of(owed(run)).add(comes_in(run, happening)) == answered_ids(
                t.run.context.skip(run.context.len() as int),
            ).add(ids_of(owed(t.run))).add(ids_of(set_going(t.ask)))
        }),
{
    let t = run.step(happening, env);
    let open = open_before(run, happening);
    let none = Seq::<EffectView>::empty();
    lemma_owed_ids(run);
    assert(balances(run, open, t)) by {
        reveal(AgentRunView::step);
        match (run.phase, happening) {
            (PhaseView::Start(announce), HappeningView::Begin) => {
                assert(open =~= in_line(run));
                lemma_top(run, none, env);
                lemma_top(
                    run,
                    seq![EffectView::Emit(SseEventView::RunStarted { run_id: run.run_id })],
                    env,
                );
            },
            (PhaseView::Resume(pending), HappeningView::Begin) => {
                lemma_untouched(run, t);
                assert(open =~= ids_of(in_hand(t.run)).add(in_line(run)));
            },
            (PhaseView::Steer(site), HappeningView::Steered(joined)) => {
                assert(open =~= in_line(run));
                reveal(AgentRunView::steered);
                reveal(AgentRunView::complete);
                lemma_ready(run, none, env);
                lemma_quiet(run, none, env);
            },
            (PhaseView::Open, HappeningView::StreamOpened(_)) => {
                lemma_untouched(run, t);
                assert(open =~= ids_of(in_hand(t.run)).add(in_line(run)));
            },
            (PhaseView::Open, HappeningView::StreamRefused(_)) => {
                reveal(AgentRunView::fail);
            },
            (PhaseView::Streaming(..), HappeningView::Chunk(_)) => {
                reveal(AgentRunView::chunk);
                reveal(AgentRunView::cancel);
                lemma_untouched(run, t);
                assert(open =~= ids_of(in_hand(t.run)).add(in_line(run)));
            },
            (PhaseView::Streaming(..), HappeningView::ChunkFailed(_)) => {
                reveal(AgentRunView::fail);
                reveal(AgentRunView::cancel);
            },
            (PhaseView::Streaming(message_id, completed), HappeningView::StreamEnd) => {
                lemma_stream_end(run, env, message_id, completed);
                if let Some(message) = completed {
                    assert(open =~= ids_of(message.tool_calls));
                }
            },
            (PhaseView::Save { after, pending, .. }, HappeningView::Saved) => {
                let next = run.with_session(
                    PersistSessionView {
                        revision: (run.session.revision + 1) as u64,
                        pending_tool: pending,
                        ..run.session
                    },
                );
                lemma_saved(next, env, after);
                if let AfterView::Request(call) = after {
                    lemma_ids_one(call);
                }
                assert(open =~= (match after {
                    AfterView::Request(call) => Multiset::<Seq<char>>::singleton(call.id),
                    AfterView::Assistant(calls) => ids_of(calls),
                    _ => Multiset::empty(),
                }).add(in_line(next)));
            },
            (PhaseView::Save { after, .. }, HappeningView::SaveSkipped) => {
                lemma_saved(run, env, after);
                if let AfterView::Request(call) = after {
                    lemma_ids_one(call);
                }
                assert(open =~= (match after {
                    AfterView::Request(call) => Multiset::<Seq<char>>::singleton(call.id),
                    AfterView::Assistant(calls) => ids_of(calls),
                    _ => Multiset::empty(),
                }).add(in_line(run)));
            },
            (PhaseView::Save { after, .. }, _) => {
                reveal(AgentRunView::unsaved);
                reveal(AgentRunView::fail);
            },
            (PhaseView::Tasks, HappeningView::TasksDone(replies)) => {
                lemma_tasks_done(run, env, replies);
                assert(open =~= reply_ids(replies).add(in_line(run)));
            },
            (PhaseView::Arm(call), HappeningView::Armed) => {
                reveal(AgentRunView::armed);
                lemma_untouched(run, t);
                assert(open =~= ids_of(in_hand(t.run)).add(in_line(run)));
            },
            (PhaseView::Arm(_), HappeningView::ArmRefused(_)) => {
                reveal(AgentRunView::wait_failed);
                reveal(AgentRunView::fail);
                reveal(AgentRunView::cancel);
            },
            (PhaseView::Recv(call), HappeningView::ToolResult(result)) => {
                lemma_resulted(run, env, call, result);
                lemma_ids_one(call);
                assert(open =~= Multiset::<Seq<char>>::singleton(call.id).add(in_line(run)));
            },
            (PhaseView::Recv(_), HappeningView::ToolWaitFailed(_)) => {
                reveal(AgentRunView::wait_failed);
                reveal(AgentRunView::fail);
                reveal(AgentRunView::cancel);
            },
            (PhaseView::FollowUps, HappeningView::FollowUps(joined)) => {
                reveal(AgentRunView::followed_up);
                lemma_untouched(run, t);
                assert(open =~= ids_of(in_hand(t.run)).add(in_line(run)));
            },
            _ => {},
        }
    }
}

/// One thing that happens to a run, and the surroundings at that time.
pub struct Tick {
    pub happening: HappeningView,
    pub env: StepEnv,
}

/// The run after some ticks.
pub open spec fn played(run: AgentRunView, ticks: Seq<Tick>) -> AgentRunView
    decreases ticks.len(),
{
    if ticks.len() == 0 {
        run
    } else {
        played(run, ticks.drop_last()).step(ticks.last().happening, ticks.last().env).run
    }
}

/// The last step of some ticks.
pub open spec fn last_step(run: AgentRunView, ticks: Seq<Tick>) -> Turned {
    played(run, ticks.drop_last()).step(ticks.last().happening, ticks.last().env)
}

/// The subtasks that are under way after some ticks.
pub open spec fn under_way(run: AgentRunView, ticks: Seq<Tick>) -> Seq<ToolCallView> {
    if ticks.len() == 0 {
        Seq::empty()
    } else {
        set_going(last_step(run, ticks).ask)
    }
}

/// The ids of the calls that the model makes in some ticks.
pub open spec fn made(run: AgentRunView, ticks: Seq<Tick>) -> Multiset<Seq<char>>
    decreases ticks.len(),
{
    if ticks.len() == 0 {
        Multiset::empty()
    } else {
        let before = made(run, ticks.drop_last());
        match (played(run, ticks.drop_last()).phase, ticks.last().happening) {
            (PhaseView::Streaming(_, Some(message)), HappeningView::StreamEnd) => before.add(
                ids_of(message.tool_calls),
            ),
            _ => before,
        }
    }
}

/// Whether the run goes on through some ticks by itself: what happens is what it waits for, no
/// messages come in from outside, and those who run subtasks and client tools answer what they were
/// asked.
pub open spec fn proceeds(run: AgentRunView, ticks: Seq<Tick>) -> bool
    decreases ticks.len(),
{
    ticks.len() > 0 ==> {
        let before = played(run, ticks.drop_last());
        &&& proceeds(run, ticks.drop_last())
        &&& before.expects(ticks.last().happening)
        &&& is_own(before, ticks.last().happening)
        &&& ticks.last().happening matches HappeningView::TasksDone(replies) ==> reply_ids(replies)
            == ids_of(under_way(run, ticks.drop_last()))
        &&& goes_on(played(run, ticks))
    }
}

proof fn lemma_carried_over(
    owed: Multiset<Seq<char>>,
    made: Multiset<Seq<char>>,
    fresh: Multiset<Seq<char>>,
    replied: Multiset<Seq<char>>,
    between: Multiset<Seq<char>>,
    flight: Multiset<Seq<char>>,
    more: Multiset<Seq<char>>,
    left: Multiset<Seq<char>>,
    going: Multiset<Seq<char>>,
)
    requires
        owed.add(made) == replied.add(between).add(flight),
        between.add(flight.add(fresh)) == more.add(left).add(going),
    ensures
        owed.add(made.add(fresh)) == replied.add(more).add(left).add(going),
{
    let all = owed.add(made.add(fresh));
    let kept = replied.add(more).add(left).add(going);
    assert forall|id: Seq<char>| #[trigger] all.count(id) == kept.count(id) by {
        let first = owed.add(made);
        let second = between.add(flight.add(fresh));
        assert(first.count(id) == owed.count(id) + made.count(id));
        assert(first.count(id) == replied.count(id) + between.count(id) + flight.count(id));
        assert(second.count(id) == between.count(id) + flight.count(id) + fresh.count(id));
        assert(second.count(id) == more.count(id) + left.count(id) + going.count(id));
        assert(all.count(id) == owed.count(id) + made.count(id) + fresh.count(id));
        assert(kept.count(id) == replied.count(id) + more.count(id) + left.count(id)
            + going.count(id));
    }
    assert(all =~= kept);
}

/// Over any number of steps, the calls that were owed and those that the model makes are the calls
/// that have a reply in the context, those that are still owed, and the subtasks under way.
pub proof fn law_calls_and_replies_balance(run: AgentRunView, ticks: Seq<Tick>)
    requires
        is_placed(run),
        calls_are_settled(run),
        !(run.phase is Tasks),
        proceeds(run, ticks),
    ensures
        ({
            let end = played(run, ticks);
            &&& run.context.is_prefix_of(end.context)
            &&& ids_of(owed(run)).add(made(run, ticks)) == answered_ids(
                end.context.skip(run.context.len() as int),
            ).add(ids_of(owed(end))).add(ids_of(under_way(run, ticks)))
            &&& is_placed(end)
            &&& calls_are_settled(end)
            &&& end.phase is Tasks || under_way(run, ticks).len() == 0
        }),
    decreases ticks.len(),
{
    let end = played(run, ticks);
    if ticks.len() == 0 {
        assert(end.context.skip(run.context.len() as int) =~= Seq::<WireMessageView>::empty());
        assert(ids_of(owed(run)).add(made(run, ticks)) =~= answered_ids(
            end.context.skip(run.context.len() as int),
        ).add(ids_of(owed(end))).add(ids_of(under_way(run, ticks))));
    } else {
        let less = ticks.drop_last();
        let before = played(run, less);
        let happening = ticks.last().happening;
        let env = ticks.last().env;
        let t = before.step(happening, env);
        law_calls_and_replies_balance(run, less);
        law_no_call_is_lost(before, happening, env);
        law_all_calls_come_before_the_model(before, happening, env);
        law_terms_are_kept(before, happening, env);
        law_asks_fit_the_phase(before, happening, env);
        let old_part = before.context.skip(run.context.len() as int);
        let new_part = t.run.context.skip(before.context.len() as int);
        assert(end.context.skip(run.context.len() as int) =~= old_part + new_part);
        lemma_answered_concat(old_part, new_part);
        let flight = ids_of(under_way(run, less));
        let fresh = match (before.phase, happening) {
            (PhaseView::Streaming(_, Some(message)), HappeningView::StreamEnd) => ids_of(
                message.tool_calls,
            ),
            _ => Multiset::<Seq<char>>::empty(),
        };
        assert(made(run, ticks) =~= made(run, less).add(fresh));
        assert(comes_in(before, happening) =~= flight.add(fresh)) by {
            if happening is TasksDone {
                assert(before.phase is Tasks);
            } else {
                assert(!(before.phase is Tasks));
                assert(under_way(run, less).len() == 0);
            }
        }
        lemma_carried_over(
            ids_of(owed(run)),
            made(run, less),
            fresh,
            answered_ids(old_part),
            ids_of(owed(before)),
            flight,
            answered_ids(new_part),
            ids_of(owed(end)),
            ids_of(under_way(run, ticks)),
        );
    }
}

/// Every call gets its reply: when the loop comes to take up steering or follow-ups, to run the
/// middlewares or to call the model, each call that was owed, and each that the model has made since,
/// has exactly one tool message with its id in the context for each time that it was made.
pub proof fn law_every_call_gets_a_reply(run: AgentRunView, ticks: Seq<Tick>)
    requires
        is_placed(run),
        calls_are_settled(run),
        !(run.phase is Tasks),
        ticks.len() > 0,
        proceeds(run, ticks),
        ({
            let ask = last_step(run, ticks).ask;
            ask is Steer || ask is FollowUps || ask is Middleware || ask is OpenStream
        }),
    ensures
        answered_ids(played(run, ticks).context.skip(run.context.len() as int)) == ids_of(
            owed(run),
        ).add(made(run, ticks)),
{
    let less = ticks.drop_last();
    let before = played(run, less);
    let end = played(run, ticks);
    law_calls_and_replies_balance(run, ticks);
    law_calls_and_replies_balance(run, less);
    law_all_calls_come_before_the_model(before, ticks.last().happening, ticks.last().env);
    law_asks_fit_the_phase(before, ticks.last().happening, ticks.last().env);
    assert(owed(end) =~= Seq::<ToolCallView>::empty());
    assert(answered_ids(end.context.skip(run.context.len() as int)) =~= ids_of(owed(run)).add(
        made(run, ticks),
    ));
}

/// The client call that the run is at.
pub open spec fn at_client(run: AgentRunView) -> Seq<ToolCallView> {
    match run.phase {
        PhaseView::Arm(call) => seq![call],
        PhaseView::Recv(call) => seq![call],
        PhaseView::Save { after: AfterView::Request(call), .. } => seq![call],
        _ => Seq::empty(),
    }
}

/// The client calls that are still to be dealt with, in order.
pub open spec fn client_line(run: AgentRunView) -> Seq<ToolCallView> {
    at_client(run) + run.client_calls
}

/// Whether the loop is dealing with the calls of a message.
pub open spec fn is_dealing(run: AgentRunView) -> bool {
    match run.phase {
        PhaseView::Tasks | PhaseView::Arm(_) | PhaseView::Recv(_) => true,
        PhaseView::Save { after, .. } => after is Todos || after is Tasks || after is Request
            || after is Result,
        _ => false,
    }
}

proof fn lemma_work_keeps_line(run: AgentRunView, effects: Seq<EffectView>, env: StepEnv)
    ensures
        ({
            let t = run.work(effects, env);
            goes_on(t.run) ==> {
                &&& client_line(t.run) == run.client_calls
                &&& !(t.ask is RecvTool)
                &&& t.ask matches AskView::ArmTool(pending) ==> run.client_calls.len() > 0
                    && pending.tool_call_id == run.client_calls[0].id && pending.name
                    == run.client_calls[0].name && pending.arguments
                    == run.client_calls[0].arguments
            }
        }),
{
    let t = run.work(effects, env);
    reveal(AgentRunView::work);
    reveal(AgentRunView::write_todos);
    reveal(AgentRunView::top);
    reveal(AgentRunView::ready);
    reveal(AgentRunView::cancel);
    reveal(AgentRunView::guard);
    if goes_on(t.run) {
        assert(client_line(t.run) =~= run.client_calls);
    }
}

/// Client calls are dealt with one at a time, in order: a result takes the first out of the line,
/// and nothing else changes the line. The call that is armed or awaited is always the first.
pub proof fn law_client_calls_in_turn(run: AgentRunView, happening: HappeningView, env: StepEnv)
    requires
        run.expects(happening),
        is_dealing(run),
        goes_on(run.step(happening, env).run),
    ensures
        ({
            let t = run.step(happening, env);
            &&& client_line(run) == (if happening is ToolResult {
                at_client(run)
            } else {
                Seq::empty()
            }) + client_line(t.run)
            &&& t.ask matches AskView::ArmTool(pending) ==> client_line(t.run).len() > 0
                && pending.tool_call_id == client_line(t.run)[0].id && pending.name == client_line(
                t.run,
            )[0].name && pending.arguments == client_line(t.run)[0].arguments
            &&& t.ask matches AskView::RecvTool(id) ==> client_line(t.run).len() > 0 && id
                == client_line(t.run)[0].id
        }),
{
    let t = run.step(happening, env);
    reveal(AgentRunView::step);
    match (run.phase, happening) {
        (PhaseView::Tasks, HappeningView::TasksDone(_)) => {
            reveal(AgentRunView::tasks_done);
        },
        (PhaseView::Arm(_), HappeningView::Armed) => {
            reveal(AgentRunView::armed);
        },
        (PhaseView::Recv(call), HappeningView::ToolResult(result)) => {
            reveal(AgentRunView::resulted);
            let next = run.with_context(
                run.context.push(tool_reply(result_text(result), result.tool_call_id, call.name)),
            );
            lemma_work_keeps_line(
                next.with_session(PersistSessionView { pending_tool: None, ..next.session }),
                seq![EffectView::RemovePending(call.id)],
                env,
            );
        },
        (PhaseView::Save { after, pending, .. }, HappeningView::Saved) => {
            reveal(AgentRunView::saved);
            let next = run.with_session(
                PersistSessionView {
                    revision: (run.session.revision + 1) as u64,
                    pending_tool: pending,
                    ..run.session
                },
            );
            lemma_work_keeps_line(next, Seq::empty(), env);
        },
        (PhaseView::Save { after, .. }, HappeningView::SaveSkipped) => {
            reveal(AgentRunView::saved);
            lemma_work_keeps_line(run, Seq::empty(), env);
        },
        (PhaseView::Save { .. }, _) => {
            reveal(AgentRunView::unsaved);
            reveal(AgentRunView::fail);
        },
        _ => {
            reveal(AgentRunView::wait_failed);
            reveal(AgentRunView::fail);
            reveal(AgentRunView::cancel);
        },
    }
    let gone = if happening is ToolResult {
        at_client(run)
    } else {
        Seq::empty()
    };
    assert(client_line(run) =~= gone + client_line(t.run));
}

/// Whether the server runs a call as `write_todos`.
pub open spec fn is_todo_call(call: ToolCallView, plan_mode: bool) -> bool {
    plan_mode && call.name == WRITE_TODOS_NAME@
}

/// Whether the server runs a call as a subtask.
pub open spec fn is_task_call(call: ToolCallView, subagents: bool) -> bool {
    subagents && call.name == TASK_NAME@
}

proof fn lemma_names_differ()
    ensures
        WRITE_TODOS_NAME@ != TASK_NAME@,
{
    reveal_strlit("write_todos");
    reveal_strlit("task");
    assert(WRITE_TODOS_NAME@.len() != TASK_NAME@.len());
}

/// The calls of a message are parted by who runs them, each part in the order of the message: the
/// server runs `write_todos` in plan mode and `task` with subagents, and the client all others.
pub proof fn law_calls_go_to_who_runs_them(
    calls: Seq<ToolCallView>,
    plan_mode: bool,
    subagents: bool,
)
    ensures
        todo_calls_in(calls, plan_mode, subagents) == calls.filter(
            |c: ToolCallView| is_todo_call(c, plan_mode),
        ),
        task_calls_in(calls, plan_mode, subagents) == calls.filter(
            |c: ToolCallView| is_task_call(c, subagents),
        ),
        client_calls_in(calls, plan_mode, subagents) == calls.filter(
            |c: ToolCallView| !is_todo_call(c, plan_mode) && !is_task_call(c, subagents),
        ),
    decreases calls.len(),
{
    reveal(Seq::filter);
    lemma_names_differ();
    if calls.len() > 0 {
        law_calls_go_to_who_runs_them(calls.drop_last(), plan_mode, subagents);
    }
}

/// The calls that are in line for one of those who run calls: those of a message that was just
/// saved, or those that are left.
pub open spec fn line_for(
    run: AgentRunView,
    left: Seq<ToolCallView>,
    takes: spec_fn(ToolCallView) -> bool,
) -> Seq<ToolCallView> {
    match run.phase {
        PhaseView::Save { after: AfterView::Assistant(calls), .. } => calls.filter(takes),
        _ => left,
    }
}

/// How many subtasks may run at once: as many as are allowed, and at least one.
pub open spec fn room_for_tasks(run: AgentRunView) -> int {
    if run.session.subagents_cfg.max_concurrent_subagents == 0 {
        1
    } else {
        run.session.subagents_cfg.max_concurrent_subagents as int
    }
}

/// Once a checkpoint is written or skipped, the next call is dealt with: first `write_todos`, one
/// at a time, which gets its reply at once; then the subtasks, as many as there is room for, while
/// each of the others gets a reply that it has to stand back; then the first client call, which is
/// armed. What is not dealt with stays in line, in order.
pub proof fn law_next_call_is_dealt_with(
    run: AgentRunView,
    happening: HappeningView,
    env: StepEnv,
)
    requires
        run.expects(happening),
        happening is Saved || happening is SaveSkipped,
        run.phase matches PhaseView::Save { after, .. } && (after is Todos || after is Tasks
            || after is Result || (after matches AfterView::Assistant(calls) && calls.len() > 0)),
        goes_on(run.step(happening, env).run),
    ensures
        ({
            let t = run.step(happening, env);
            let plan_mode = run.session.plan_mode;
            let subagents = run.session.subagents;
            let todo = line_for(run, run.todo_calls, |c: ToolCallView| is_todo_call(c, plan_mode));
            let task = line_for(run, run.task_calls, |c: ToolCallView| is_task_call(c, subagents));
            let client = line_for(
                run,
                run.client_calls,
                |c: ToolCallView| !is_todo_call(c, plan_mode) && !is_task_call(c, subagents),
            );
            if todo.len() > 0 {
                &&& t.run.todo_calls == todo.skip(1)
                &&& t.run.task_calls == task
                &&& t.run.client_calls == client
                &&& t.run.context.len() == run.context.len() + 1
                &&& is_reply_to(t.run.context.last(), todo[0])
            } else if task.len() > 0 {
                let room = room_for_tasks(run);
                let now = if task.len() < room {
                    task.len() as int
                } else {
                    room
                };
                &&& t.ask == AskView::RunTasks(task.take(now))
                &&& t.run.todo_calls.len() == 0
                &&& t.run.task_calls.len() == 0
                &&& t.run.client_calls == client
                &&& t.run.context.len() == run.context.len() + task.len() - now
                &&& forall|i: int|
                    now <= i < task.len() ==> is_reply_to(
                        t.run.context[run.context.len() + i - now],
                        #[trigger] task[i],
                    )
            } else if client.len() > 0 {
                &&& t.run.phase == PhaseView::Arm(client[0])
                &&& t.ask is ArmTool
                &&& t.run.client_calls == client.skip(1)
                &&& t.run.context == run.context
            } else {
                &&& t.ask is Steer || t.ask is Middleware
                &&& has_no_calls(t.run)
                &&& t.run.context == run.context
            }
        }),
{
    let t = run.step(happening, env);
    let plan_mode = run.session.plan_mode;
    let subagents = run.session.subagents;
    if let PhaseView::Save { after: AfterView::Assistant(calls), .. } = run.phase {
        law_calls_go_to_who_runs_them(calls, plan_mode, subagents);
    }
    reveal(AgentRunView::step);
    reveal(AgentRunView::saved);
    reveal(AgentRunView::turn);
    reveal(AgentRunView::guard);
    reveal(AgentRunView::cancel);
    reveal(AgentRunView::work);
    reveal(AgentRunView::write_todos);
    reveal(AgentRunView::top);
    reveal(AgentRunView::ready);
    let task = line_for(run, run.task_calls, |c: ToolCallView| is_task_call(c, subagents));
    let room = room_for_tasks(run);
    if task.len() <= room {
        assert(task.take(task.len() as int) =~= task);
    }
}

/// Whether a message is the reply to a call.
pub open spec fn is_reply_to(message: WireMessageView, call: ToolCallView) -> bool {
    &&& message.role == Role::Tool
    &&& message.tool_call_id == Some(call.id)
    &&& message.name == Some(call.name)
}

} // verus!
