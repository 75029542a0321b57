//! What holds of the turn-based loop: which messages it keeps, what it tells of them, and where it
//! goes on.

use vstd::prelude::*;

use crate::agent_loop::{
    continue_error, loop_started, only_calls, pair, pairs, tool_parts, LoopAskView, LoopInputView,
    LoopPhaseView, LoopRunView,
};
use crate::error::LoopErrorView;
use crate::types::{
    AgentContextView, AgentEventView, AgentMessageView, ContentPartView, StopReason,
};

verus! {

/// The call that is being run, where one is.
pub open spec fn running(run: LoopRunView) -> Option<ContentPartView> {
    match run.phase {
        LoopPhaseView::Executing { call, .. } => Some(call),
        _ => None,
    }
}

/// Whether a message says that `call` failed with `err`.
pub open spec fn says_failure(
    message: AgentMessageView,
    call: Option<ContentPartView>,
    err: LoopErrorView,
) -> bool {
    match (message, call) {
        (
            AgentMessageView::ToolResult { tool_call_id, tool_name, content, is_error, terminate },
            Some(ContentPartView::ToolCall { id, name, .. }),
        ) => tool_call_id == id && tool_name == name && content == err.message() && is_error
            && !terminate,
        _ => false,
    }
}

/// Whether these are the messages that what happened brings.
pub open spec fn brings(
    run: LoopRunView,
    input: LoopInputView,
    messages: Seq<AgentMessageView>,
) -> bool {
    match input {
        LoopInputView::Steering(came) => messages == came,
        LoopInputView::FollowUp(came) => messages == came,
        LoopInputView::Streamed(_, said) => messages == seq![said],
        LoopInputView::Executed(result) => messages == seq![result],
        LoopInputView::ExecuteFailed(err) => messages.len() == 1 && says_failure(
            messages[0],
            running(run),
            err,
        ),
        LoopInputView::StreamFailed { .. } => messages.len() == 1,
        LoopInputView::Stop(_) => messages.len() == 0,
    }
}

/// What a step adds to the messages of a run.
pub open spec fn added(run: LoopRunView, input: LoopInputView) -> Seq<AgentMessageView> {
    run.step(input).run.new_messages.skip(run.new_messages.len() as int)
}

/// Every message that comes in, is streamed or answers a call is kept, at the end of the messages of
/// the run and of the context; nothing else is added, and nothing is lost.
pub proof fn law_every_message_is_kept(run: LoopRunView, input: LoopInputView)
    requires
        run.expects(input),
        running(run) matches Some(call) ==> call is ToolCall,
    ensures
        run.step(input).run.new_messages == run.new_messages + added(run, input),
        brings(run, input, added(run, input)),
        match input {
            LoopInputView::Streamed(context, _) => run.step(input).run.context == context,
            _ => {
                &&& run.step(input).run.context.messages == run.context.messages + added(run, input)
                &&& run.step(input).run.context.tools == run.context.tools
            },
        },
{
    let t = run.step(input);
    let old = run.new_messages;
    match input {
        LoopInputView::Steering(came) => {
            assert(old + came == t.run.new_messages || came.len() == 0);
            assert((old + came).skip(old.len() as int) =~= came);
            assert(old.skip(old.len() as int) =~= Seq::<AgentMessageView>::empty());
            assert(run.context.messages + Seq::<AgentMessageView>::empty()
                =~= run.context.messages);
        },
        LoopInputView::FollowUp(came) => {
            assert((old + came).skip(old.len() as int) =~= came);
            assert(old.skip(old.len() as int) =~= Seq::<AgentMessageView>::empty());
            assert(run.context.messages + Seq::<AgentMessageView>::empty()
                =~= run.context.messages);
        },
        LoopInputView::Stop(_) => {
            assert(old.skip(old.len() as int) =~= Seq::<AgentMessageView>::empty());
            assert(run.context.messages + Seq::<AgentMessageView>::empty()
                =~= run.context.messages);
        },
        LoopInputView::Streamed(_, said) => {
            assert(old.push(said).skip(old.len() as int) =~= seq![said]);
            assert(old.push(said) =~= old + seq![said]);
        },
        _ => {
            let last = t.run.new_messages.last();
            assert(t.run.new_messages =~= old + seq![last]);
            assert((old + seq![last]).skip(old.len() as int) =~= seq![last]);
        },
    }
}

/// Whether events announce these messages: a start and an end for each, in order, and no more.
pub open spec fn tells(events: Seq<AgentEventView>, messages: Seq<AgentMessageView>) -> bool {
    &&& events.len() == 2 * messages.len()
    &&& forall|i: int|
        0 <= i < messages.len() ==> events[2 * i] == (AgentEventView::MessageStart {
            message: #[trigger] messages[i],
        }) && events[2 * i + 1] == (AgentEventView::MessageEnd { message: messages[i] })
}

proof fn lemma_pairs_tell(messages: Seq<AgentMessageView>)
    ensures
        tells(pairs(messages), messages),
    decreases messages.len(),
{
    if messages.len() > 0 {
        let before = messages.drop_last();
        lemma_pairs_tell(before);
        let events = pairs(messages);
        assert forall|i: int| 0 <= i < messages.len() implies events[2 * i] == (
        AgentEventView::MessageStart { message: #[trigger] messages[i] }) && events[2 * i + 1] == (
        AgentEventView::MessageEnd { message: messages[i] }) by {
            if i < before.len() {
                assert(messages[i] == before[i]);
                assert(events[2 * i] == pairs(before)[2 * i]);
                assert(events[2 * i + 1] == pairs(before)[2 * i + 1]);
            } else {
                assert(events[2 * i] == pair(messages.last())[0]);
                assert(events[2 * i + 1] == pair(messages.last())[1]);
            }
        }
    }
}

/// Messages that come in are announced, in order, behind the start of a turn where there was one
/// before; the loop goes on with the assistant if anything came in or the last turn calls for it,
/// and else with follow-ups.
pub proof fn law_messages_that_come_in_are_announced(
    run: LoopRunView,
    came: Seq<AgentMessageView>,
)
    requires
        run.phase is Steering,
    ensures
        ({
            let t = run.step(LoopInputView::Steering(came));
            if came.len() > 0 || run.more_tools {
                &&& t.ask is Stream
                &&& t.run.phase is Streaming
                &&& run.turned ==> t.events.len() > 0 && t.events[0] is TurnStart && tells(
                    t.events.skip(1),
                    came,
                )
                &&& !run.turned ==> tells(t.events, came)
            } else {
                t.ask is FollowUp && t.run.phase is Following && t.events.len() == 0
            }
        }),
{
    let t = run.step(LoopInputView::Steering(came));
    lemma_pairs_tell(came);
    if came.len() > 0 || run.more_tools {
        if run.turned {
            assert(t.events.skip(1) =~= pairs(came));
        } else {
            assert(t.events =~= pairs(came));
        }
    }
}

/// Follow-ups are announced like messages that come in, and set the loop going again; without any
/// the run is over.
pub proof fn law_follow_ups_go_on(run: LoopRunView, came: Seq<AgentMessageView>)
    requires
        run.phase is Following,
        run.turned,
    ensures
        ({
            let t = run.step(LoopInputView::FollowUp(came));
            if came.len() > 0 {
                &&& t.ask is Stream
                &&& t.run.phase is Streaming
                &&& t.events.len() > 0
                &&& t.events[0] is TurnStart
                &&& tells(t.events.skip(1), came)
                &&& t.run.more_tools
            } else {
                t.ask == LoopAskView::Return(run.new_messages) && t.run.phase is Over
            }
        }),
{
    let t = run.step(LoopInputView::FollowUp(came));
    lemma_pairs_tell(came);
    if came.len() > 0 {
        assert(t.events.skip(1) =~= pairs(came));
    }
}

/// The loop stops after a turn exactly where it is told to; else it looks for messages, with a turn
/// behind it.
pub proof fn law_loop_stops_when_told(run: LoopRunView, stop: bool)
    requires
        run.phase is Stopping,
    ensures
        ({
            let t = run.step(LoopInputView::Stop(stop));
            if stop {
                t.ask == LoopAskView::Return(run.new_messages) && t.run.phase is Over
            } else {
                &&& t.ask is Steering
                &&& t.run.phase is Steering
                &&& t.run.turned
                &&& t.run.more_tools == run.more_tools
                &&& t.events.len() == 0
            }
        }),
{
}

/// Whether the calls of a turn are run in their order: the results so far answer the first of them,
/// the one after those is being run, and the others are still to be run. The turn is to end the run
/// where every result so far says so.
pub open spec fn in_order(run: LoopRunView) -> bool {
    run.phase matches LoopPhaseView::Executing { assistant, call } ==> {
        &&& has_call(assistant, run.results.len() as int, call)
        &&& run.calls.len() + run.results.len() + 1 == calls_in(assistant).len()
        &&& forall|i: int|
            0 <= i < run.calls.len() ==> has_call(
                assistant,
                run.results.len() + 1 + i,
                #[trigger] run.calls[i],
            )
        &&& run.all_terminate <==> forall|i: int|
            0 <= i < run.results.len() ==> ends_the_run(#[trigger] run.results[i])
    }
}

/// The calls among the parts of a message.
pub open spec fn calls_in(message: AgentMessageView) -> Seq<ContentPartView> {
    match message {
        AgentMessageView::Assistant { parts, .. } => parts.filter(
            |part: ContentPartView| part is ToolCall,
        ),
        _ => Seq::empty(),
    }
}

/// Whether this is the `i`-th call of a message.
pub open spec fn has_call(message: AgentMessageView, i: int, call: ContentPartView) -> bool {
    0 <= i < calls_in(message).len() && calls_in(message)[i] == call
}

/// Whether a result asks for the end of the run.
pub open spec fn ends_the_run(result: AgentMessageView) -> bool {
    result matches AgentMessageView::ToolResult { terminate, .. } && terminate
}

/// Whether the assistant could not finish.
pub open spec fn is_cut_off(message: AgentMessageView) -> bool {
    message matches AgentMessageView::Assistant { stop_reason, .. } && (stop_reason
        == StopReason::Error || stop_reason == StopReason::Aborted)
}

proof fn lemma_calls_are_filtered(parts: Seq<ContentPartView>)
    ensures
        only_calls(parts) == parts.filter(|part: ContentPartView| part is ToolCall),
    decreases parts.len(),
{
    reveal(Seq::filter);
    if parts.len() > 0 {
        lemma_calls_are_filtered(parts.drop_last());
    }
}

proof fn lemma_calls_in(message: AgentMessageView)
    ensures
        tool_parts(message) == calls_in(message),
        forall|i: int| 0 <= i < calls_in(message).len() ==> #[trigger] calls_in(message)[i] is ToolCall,
{
    if let AgentMessageView::Assistant { parts, .. } = message {
        lemma_calls_are_filtered(parts);
        let is_call = |part: ContentPartView| part is ToolCall;
        assert forall|i: int| 0 <= i < calls_in(message).len() implies #[trigger] calls_in(
            message,
        )[i] is ToolCall by {
            parts.lemma_filter_contains_rev(is_call, calls_in(message)[i]);
        }
    }
}

/// The calls of a message are run one after the other, in their order, and each before the turn is
/// over: the loop first asks for the first call of a message, after each result for the next, and
/// once every call has its result whether to stop.
pub proof fn law_calls_are_run_in_order(run: LoopRunView, input: LoopInputView)
    requires
        in_order(run),
        run.expects(input),
    ensures
        in_order(run.step(input).run),
        match input {
            LoopInputView::Streamed(_, said) => {
                let t = run.step(input);
                if is_cut_off(said) {
                    t.ask is Return
                } else if calls_in(said).len() == 0 {
                    t.ask is ShouldStop && !t.run.more_tools
                } else {
                    t.ask == LoopAskView::Execute(calls_in(said)[0]) && t.run.phase is Executing
                }
            },
            LoopInputView::Executed(_) | LoopInputView::ExecuteFailed(_) => {
                let t = run.step(input);
                if run.calls.len() > 0 {
                    t.ask == LoopAskView::Execute(run.calls[0]) && t.run.phase is Executing
                } else {
                    t.ask is ShouldStop
                }
            },
            _ => !(run.step(input).ask is Execute) && !(run.step(input).ask is ShouldStop),
        },
{
    let t = run.step(input);
    match input {
        LoopInputView::Streamed(_, said) => {
            lemma_calls_in(said);
        },
        LoopInputView::Executed(_) | LoopInputView::ExecuteFailed(_) => {
            if let LoopPhaseView::Executing { assistant, call } = run.phase {
                lemma_calls_in(assistant);
                if run.calls.len() > 0 {
                    assert(has_call(assistant, run.results.len() + 1 + 0int, run.calls[0]));
                    assert forall|i: int| 0 <= i < t.run.calls.len() implies has_call(
                        assistant,
                        t.run.results.len() + 1 + i,
                        #[trigger] t.run.calls[i],
                    ) by {
                        assert(t.run.calls[i] == run.calls[i + 1]);
                    }
                    lemma_one_more_result(run.results, t.run.results.last());
                }
            }
        },
        _ => {},
    }
}

proof fn lemma_one_more_result(results: Seq<AgentMessageView>, result: AgentMessageView)
    ensures
        all_end(results.push(result)) <==> all_end(results) && ends_the_run(result),
{
    let more = results.push(result);
    if all_end(more) {
        assert forall|i: int| 0 <= i < results.len() implies ends_the_run(#[trigger] results[i]) by {
            assert(more[i] == results[i]);
        }
        assert(more[results.len() as int] == result);
    }
}

/// Whether every result asks for the end of the run.
pub open spec fn all_end(results: Seq<AgentMessageView>) -> bool {
    forall|i: int| 0 <= i < results.len() ==> ends_the_run(#[trigger] results[i])
}

/// A result is announced and kept with the results of its turn. When it was the last, the end of the
/// turn tells of the message and of all its results, and another turn is called for exactly where
/// one of the results does not ask for the end of the run.
pub proof fn law_results_end_the_turn(run: LoopRunView, result: AgentMessageView)
    requires
        in_order(run),
        run.phase is Executing,
    ensures
        ({
            let t = run.step(LoopInputView::Executed(result));
            let results = run.results.push(result);
            let message = run.phase->assistant;
            &&& t.run.results == results
            &&& run.calls.len() > 0 ==> tells(t.events, seq![result])
            &&& run.calls.len() == 0 ==> {
                &&& t.events.len() == 3
                &&& tells(t.events.take(2), seq![result])
                &&& t.events[2] == (AgentEventView::TurnEnd { message, tool_results: results })
                &&& t.run.more_tools <==> !all_end(results)
                &&& t.ask matches LoopAskView::ShouldStop(turn) && turn.message == message
                    && turn.tool_results == results && turn.new_messages == run.new_messages.push(
                    result,
                ) && (run.context.messages.len() < usize::MAX ==> turn.context_messages_len
                    == run.context.messages.len() + 1)
            }
        }),
{
    let t = run.step(LoopInputView::Executed(result));
    lemma_one_more_result(run.results, result);
    assert(run.all_terminate <==> all_end(run.results));
    assert(pair(result).len() == 2);
    if run.calls.len() == 0 {
        assert(t.events.take(2) =~= pair(result));
        assert(run.new_messages + seq![result] =~= run.new_messages.push(result));
    }
}

/// A message without calls ends its turn, with no results; one that was cut off ends the run too.
pub proof fn law_message_without_calls_ends_the_turn(
    run: LoopRunView,
    context: AgentContextView,
    said: AgentMessageView,
)
    requires
        run.phase is Streaming,
        calls_in(said).len() == 0 || is_cut_off(said),
    ensures
        ({
            let t = run.step(LoopInputView::Streamed(context, said));
            let all = run.new_messages.push(said);
            let end = AgentEventView::TurnEnd { message: said, tool_results: Seq::empty() };
            &&& t.events.len() > 0
            &&& t.events[0] == end
            &&& if is_cut_off(said) {
                t.ask == LoopAskView::Return(all)
            } else {
                t.ask matches LoopAskView::ShouldStop(turn) && turn.message == said
                    && turn.tool_results.len() == 0 && turn.new_messages == all && t.events.len() == 1
            }
        }),
{
    lemma_calls_in(said);
}

/// A loop starts with its prompts: they are announced in order, and are its messages and the end of
/// its context. It first looks for messages, and then there is a turn whatever comes in.
pub proof fn law_loop_starts_with_its_prompts(
    prompts: Seq<AgentMessageView>,
    context: AgentContextView,
)
    ensures
        ({
            let t = loop_started(prompts, context);
            &&& t.events.len() >= 2
            &&& t.events[0] is AgentStart
            &&& t.events[1] is TurnStart
            &&& tells(t.events.skip(2), prompts)
            &&& t.ask is Steering
            &&& t.run.phase is Steering
            &&& t.run.more_tools
            &&& !t.run.turned
            &&& t.run.new_messages == prompts
            &&& t.run.context.messages == context.messages + prompts
            &&& t.run.context.tools == context.tools
            &&& in_order(t.run)
        }),
{
    let t = loop_started(prompts, context);
    lemma_pairs_tell(prompts);
    assert(t.events.skip(2) =~= pairs(prompts));
    assert(Seq::<AgentMessageView>::empty() + prompts =~= prompts);
}

/// A context can be gone on with exactly where it has a last message that is not the assistant's.
pub proof fn law_what_can_be_gone_on_with(context: AgentContextView)
    ensures
        continue_error(context) is None <==> exists|i: int|
            0 <= i == context.messages.len() - 1 && !(#[trigger] context.messages[i] is Assistant),
{
    if context.messages.len() > 0 {
        let i = context.messages.len() - 1;
        assert(context.messages[i] == context.messages.last());
    }
}

} // verus!
