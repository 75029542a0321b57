//! What holds of the messages on their way to a provider, of those that are gathered from it, and of
//! the events that a stream hands on.

use vstd::prelude::*;

use crate::error::LoopErrorView;
use crate::event_stream::{EventStreamView, Polled};
use crate::json::{json_parsed, json_text, Json, JsonValue};
use crate::liter_backend::{
    consumed, echoed, fresh_accumulator, llm_calls_of, llm_message, llm_messages, llm_tools,
    may_give, request_of, text_of, tool_ran, tool_started, unregistered, NamedTool, StreamAccumulatorView,
    StreamStepView, ToolExecResult, ToolExecResultView, ToolExecutor,
};
use crate::llm::chat::{ChatMessageView, ChatToolCallView, ChatToolView};
use crate::llm::laws::{
    fragments_in, fragments_of, law_fragments_are_gathered_in_order, said,
};
use crate::llm::stream::{with_fragments, FinishReason, StreamChoiceView, StreamChunkView};
use crate::loop_laws::calls_in;
use crate::stub_backend::{
    next_number, scripted, streamed_events, stub_outcome, StubBackendView, StubTurnView,
};
use crate::text::dec;
use crate::text_laws::law_numbers_are_told_apart;
use crate::types::{
    AgentContextView, AgentEventView, AgentMessageView, AgentToolView, ContentPartView, StopReason,
};

verus! {

/// The text of a part.
pub open spec fn words_of(part: ContentPartView) -> Seq<char> {
    match part {
        ContentPartView::Text { text } => text,
        ContentPartView::ToolCall { .. } => Seq::empty(),
    }
}

/// Whether a call on the way to the provider is the call of a part.
pub open spec fn is_same_call(sent: ChatToolCallView, part: ContentPartView) -> bool {
    part matches ContentPartView::ToolCall { id, name, arguments } && sent.id == id && sent.name
        == name && sent.arguments == json_text(arguments)
}

/// Whether a text that may be missing is this one, which is missing where it is empty.
pub open spec fn stands_for(sent: Option<Seq<char>>, text: Seq<char>) -> bool {
    match sent {
        Some(s) => s == text && text.len() > 0,
        None => text.len() == 0,
    }
}

proof fn lemma_calls_are_sent(parts: Seq<ContentPartView>)
    ensures
        ({
            let is_call = |part: ContentPartView| part is ToolCall;
            let calls = parts.filter(is_call);
            &&& llm_calls_of(parts).len() == calls.len()
            &&& forall|i: int|
                0 <= i < calls.len() ==> is_same_call(
                    #[trigger] llm_calls_of(parts)[i],
                    calls[i],
                )
        }),
    decreases parts.len(),
{
    reveal(Seq::filter);
    if parts.len() > 0 {
        lemma_calls_are_sent(parts.drop_last());
    }
}

/// A message that goes to the provider keeps its role, its text and its calls: an assistant message
/// all its calls, in order, and a result the id of its call.
pub proof fn law_message_reaches_the_provider(message: AgentMessageView)
    ensures
        match (message, llm_message(message)) {
            (AgentMessageView::User { content }, ChatMessageView::User { content: sent, .. }) => sent
                == content,
            (
                AgentMessageView::System { content },
                ChatMessageView::System { content: sent, .. },
            ) => sent == content,
            (
                AgentMessageView::Assistant { parts, .. },
                ChatMessageView::Assistant { content, tool_calls, .. },
            ) => {
                &&& stands_for(content, text_of(parts))
                &&& tool_calls is None <==> calls_in(message).len() == 0
                &&& tool_calls matches Some(sent) ==> {
                    &&& sent.len() == calls_in(message).len()
                    &&& forall|i: int|
                        0 <= i < sent.len() ==> is_same_call(
                            #[trigger] sent[i],
                            calls_in(message)[i],
                        )
                }
            },
            (
                AgentMessageView::ToolResult { tool_call_id, tool_name, content, .. },
                ChatMessageView::Tool { content: sent, tool_call_id: id, name },
            ) => sent == content && id == tool_call_id && stands_for(name, tool_name),
            _ => false,
        },
{
    if let AgentMessageView::Assistant { parts, .. } = message {
        lemma_calls_are_sent(parts);
    }
}

/// The text of a message is that of its parts, in order: parts behind one another add up.
pub proof fn law_texts_add_up(a: Seq<ContentPartView>, b: Seq<ContentPartView>)
    ensures
        text_of(a + b) == text_of(a) + text_of(b),
        a.len() == 1 ==> text_of(a) == words_of(a[0]),
    decreases b.len(),
{
    if a.len() == 1 {
        assert(a.drop_last() =~= Seq::<ContentPartView>::empty());
        reveal_with_fuel(text_of, 2);
        assert(text_of(a) =~= words_of(a[0]));
    }
    if b.len() == 0 {
        assert(a + b =~= a);
        assert(text_of(a) + text_of(b) =~= text_of(a));
    } else {
        assert((a + b).drop_last() =~= a + b.drop_last());
        law_texts_add_up(a, b.drop_last());
        assert(text_of(a) + (text_of(b.drop_last()) + words_of(b.last())) =~= text_of(a) + text_of(
            b.drop_last(),
        ) + words_of(b.last()));
        assert(text_of(b) =~= text_of(b.drop_last()) + words_of(b.last()));
        assert(text_of(a + b) =~= text_of(a + b.drop_last()) + words_of(b.last()));
    }
}

/// Every message of a context is sent, in its place; and every tool is named, by its name, its
/// schema and what it is for.
pub proof fn law_request_has_the_context(
    messages: Seq<AgentMessageView>,
    tools: Seq<AgentToolView>,
)
    ensures
        llm_messages(messages).len() == messages.len(),
        forall|i: int|
            0 <= i < messages.len() ==> #[trigger] llm_messages(messages)[i] == llm_message(
                messages[i],
            ),
        llm_tools(tools) is None <==> tools.len() == 0,
        llm_tools(tools) matches Some(sent) ==> {
            &&& sent.len() == tools.len()
            &&& forall|i: int| 0 <= i < sent.len() ==> is_same_tool(#[trigger] sent[i], tools[i])
        },
{
}

/// Whether a function of a request is this tool.
pub open spec fn is_same_tool(sent: ChatToolView, tool: AgentToolView) -> bool {
    sent.name == tool.name && sent.parameters == tool.parameters && stands_for(
        sent.description,
        tool.description,
    )
}

/// The last reason to finish that the choices give.
pub open spec fn last_reason(choices: Seq<StreamChoiceView>) -> Option<FinishReason>
    decreases choices.len(),
{
    if choices.len() == 0 {
        None
    } else if choices.last().finish_reason is Some {
        choices.last().finish_reason
    } else {
        last_reason(choices.drop_last())
    }
}

/// What the choices of a chunk add: all their text, all their fragments of calls, and the last
/// reason to finish. A chunk without choices adds nothing.
pub proof fn law_chunk_is_gathered(acc: StreamAccumulatorView, chunk: StreamChunkView)
    ensures
        ({
            let end = acc.chunk(chunk);
            &&& end.text == acc.text + said(chunk.choices)
            &&& end.tool_calls == with_fragments(acc.tool_calls, fragments_in(chunk.choices))
            &&& end.finish_reason == (if last_reason(chunk.choices) is Some {
                last_reason(chunk.choices)
            } else {
                acc.finish_reason
            })
            &&& end.saw_choice == (acc.saw_choice || chunk.choices.len() > 0)
            &&& end.stream_error == acc.stream_error
        }),
{
    lemma_choices_are_gathered(acc, chunk.choices);
}

proof fn lemma_choices_are_gathered(acc: StreamAccumulatorView, choices: Seq<StreamChoiceView>)
    ensures
        ({
            let end = acc.choices(choices);
            &&& end.text == acc.text + said(choices)
            &&& end.tool_calls == with_fragments(acc.tool_calls, fragments_in(choices))
            &&& end.finish_reason == (if last_reason(choices) is Some {
                last_reason(choices)
            } else {
                acc.finish_reason
            })
            &&& end.stream_error == acc.stream_error
        }),
    decreases choices.len(),
{
    if choices.len() == 0 {
        assert(acc.text + said(choices) =~= acc.text);
    } else {
        let before = choices.drop_last();
        let choice = choices.last();
        lemma_choices_are_gathered(acc, before);
        law_fragments_are_gathered_in_order(
            acc.tool_calls,
            fragments_in(before),
            fragments_of(choice),
        );
        assert(acc.text + said(choices) =~= acc.choices(before).text + crate::llm::laws::text_of(
            choice,
        ));
        assert(with_fragments(acc.choices(before).tool_calls, Seq::empty()) == acc.choices(
            before,
        ).tool_calls);
        assert(acc.choices(choices).text =~= acc.text + said(choices));
    }
}

/// Whether a message has this text and these calls: first the text, unless it is empty, and then
/// every call, in its order and with the arguments that its text stands for.
pub open spec fn has_all(message: AgentMessageView, acc: StreamAccumulatorView) -> bool {
    match message {
        AgentMessageView::Assistant { parts, .. } => {
            let first: int = if acc.text.len() > 0 {
                1
            } else {
                0
            };
            &&& parts.len() == first + acc.tool_calls.len()
            &&& acc.text.len() > 0 ==> parts[0] == ContentPartView::Text { text: acc.text }
            &&& forall|k: int|
                0 <= k < acc.tool_calls.len() ==> is_call_of(
                    parts[first + k],
                    (#[trigger] acc.tool_calls[k]).id,
                    acc.tool_calls[k].name,
                    acc.tool_calls[k].arguments,
                )
        },
        _ => false,
    }
}

/// Whether a part is a call with this id and name, and with the arguments that a text stands for:
/// JSON for what it says, and anything else for itself.
pub open spec fn is_call_of(
    part: ContentPartView,
    call_id: Seq<char>,
    call_name: Seq<char>,
    raw: Seq<char>,
) -> bool {
    match part {
        ContentPartView::ToolCall { id, name, arguments } => {
            &&& id == call_id
            &&& name == call_name
            &&& if json_parsed(raw) is Some {
                json_parsed(raw) == Some(arguments)
            } else {
                arguments == Json::Str(raw)
            }
        },
        _ => false,
    }
}

/// The reason for which a message stops.
pub open spec fn stops_for(message: AgentMessageView) -> Option<StopReason> {
    match message {
        AgentMessageView::Assistant { stop_reason, .. } => Some(stop_reason),
        _ => None,
    }
}

/// Each step of reading a stream tells the message so far, with all the text and all the calls. A
/// chunk goes on; the end, a failure and a cancellation give the message, the same as they tell.
pub proof fn law_message_has_what_was_read(acc: StreamAccumulatorView, step: StreamStepView)
    ensures
        ({
            let (next, event, message) = consumed(acc, step);
            match step {
                StreamStepView::Chunk(chunk) => {
                    &&& next == acc.chunk(chunk)
                    &&& message is None
                    &&& event matches AgentEventView::MessageUpdate { message: told } && has_all(
                        told,
                        next,
                    )
                },
                _ => {
                    &&& message matches Some(last) && has_all(last, acc) && event == (
                    AgentEventView::MessageEnd { message: last })
                },
            }
        }),
{
    let (next, event, message) = consumed(acc, step);
    lemma_snapshot_has_all(acc);
    lemma_snapshot_has_all(next);
}

proof fn lemma_snapshot_has_all(acc: StreamAccumulatorView)
    ensures
        forall|reason: StopReason| has_all(#[trigger] acc.snapshot(reason), acc),
        has_all(acc.finished(), acc),
{
    let parts = acc.parts();
    let first: int = if acc.text.len() > 0 {
        1
    } else {
        0
    };
    assert forall|k: int| 0 <= k < acc.tool_calls.len() implies is_call_of(
        parts[first + k],
        (#[trigger] acc.tool_calls[k]).id,
        acc.tool_calls[k].name,
        acc.tool_calls[k].arguments,
    ) by {}
}

/// Why a message stops: a cancelled stream aborts it; one that broke or had nothing is an error; else
/// it is what the provider said, and where it said nothing a message with calls stops for those, one
/// with only text just stops, and an empty one is an error.
pub proof fn law_why_a_message_stops(acc: StreamAccumulatorView)
    ensures
        stops_for(consumed(acc, StreamStepView::Cancelled).2->0) == Some(StopReason::Aborted),
        stops_for(consumed(acc, StreamStepView::Failed).2->0) == Some(StopReason::Error),
        ({
            let reason = stops_for(consumed(acc, StreamStepView::End).2->0)->0;
            if acc.stream_error || !acc.saw_choice {
                reason == StopReason::Error
            } else {
                match acc.finish_reason {
                    Some(said) => {
                        &&& reason == StopReason::Stop <==> said is Stop
                        &&& reason == StopReason::Length <==> said is Length
                        &&& reason == StopReason::ToolCalls <==> said is ToolCalls || said is FunctionCall
                        &&& reason != StopReason::Aborted
                    },
                    None => {
                        &&& reason == StopReason::ToolCalls <==> acc.tool_calls.len() > 0
                        &&& reason == StopReason::Stop <==> acc.tool_calls.len() == 0
                            && acc.text.len() > 0
                        &&& reason == StopReason::Error <==> acc.tool_calls.len() == 0
                            && acc.text.len() == 0
                    },
                }
            }
        }),
{
}

/// A stream is read from nothing.
pub proof fn law_stream_starts_empty()
    ensures
        has_all(
            AgentMessageView::Assistant { parts: Seq::empty(), stop_reason: StopReason::Stop },
            fresh_accumulator(),
        ),
        !fresh_accumulator().saw_choice,
        !fresh_accumulator().stream_error,
        fresh_accumulator().finish_reason is None,
{
}

/// What a tool gave is told and kept as it is, under the id of its call: its text, whether it failed,
/// and whether it ends the run.
pub proof fn law_outcome_is_told(
    call_id: Seq<char>,
    name: Seq<char>,
    args: Json,
    outcome: ToolExecResultView,
)
    ensures
        tool_ran(call_id, name, outcome).0 matches AgentEventView::ToolExecutionEnd {
            tool_call_id,
            result,
            is_error,
        } && tool_call_id == call_id && result == outcome.content && is_error == outcome.is_error,
        tool_ran(call_id, name, outcome).1 matches AgentMessageView::ToolResult {
            tool_call_id,
            tool_name,
            content,
            is_error,
            terminate,
        } && tool_call_id == call_id && tool_name == name && content == outcome.content && is_error
            == outcome.is_error && terminate == outcome.terminate,
        tool_started(call_id, name, args) matches AgentEventView::ToolExecutionStart {
            tool_call_id,
            tool_name,
            args: told,
        } && tool_call_id == call_id && tool_name == name && told == args,
{
}

/// The echo tool says what it was told: a message as it is, and anything else as JSON text. A tool
/// that no one registered fails, and names itself. Neither ends the run.
pub proof fn law_what_tools_give(args: Json, message: Seq<char>, name: Seq<char>)
    ensures
        args.str_field("message"@) == Some(message) ==> echoed(args).content == message,
        args.str_field("message"@) is None ==> echoed(args).content == json_text(args),
        !echoed(args).is_error && !echoed(args).terminate,
        unregistered(name).is_error && !unregistered(name).terminate,
        name.is_suffix_of(unregistered(name).content),
{
    assert(unregistered(name).content.skip("tool not registered: "@.len() as int) =~= name);
}

/// A scripted turn is played as it is written: a text as a message that just stops, and a tool as one
/// call with its arguments, for which the message stops. The message is told three times: at its
/// start, once in between, and at its end.
pub proof fn law_scripted_turn_is_played(turn: StubTurnView, n: u64)
    ensures
        scripted(turn, n) matches AgentMessageView::Assistant { parts, stop_reason } && parts.len()
            == 1 && match turn {
            StubTurnView::AssistantText(text) => parts[0] == (ContentPartView::Text { text })
                && stop_reason == StopReason::Stop,
            StubTurnView::AssistantWithTool { name: wanted, args } => stop_reason
                == StopReason::ToolCalls && (parts[0] matches ContentPartView::ToolCall {
                name,
                arguments,
                ..
            } && name == wanted && arguments == args),
        },
        ({
            let message = scripted(turn, n);
            let events = streamed_events(message);
            &&& events.len() == 3
            &&& events[0] == (AgentEventView::MessageStart { message })
            &&& events[1] == (AgentEventView::MessageUpdate { message })
            &&& events[2] == (AgentEventView::MessageEnd { message })
        }),
{
}

/// The id of the call of a scripted turn.
pub open spec fn call_id_of(message: AgentMessageView) -> Seq<char> {
    match message {
        AgentMessageView::Assistant { parts, .. } => match parts[0] {
            ContentPartView::ToolCall { id, .. } => id,
            _ => Seq::empty(),
        },
        _ => Seq::empty(),
    }
}

/// The calls of a script have ids of their own: turns with different numbers have different ids, and
/// the number that follows another is a different one.
pub proof fn law_scripted_calls_are_told_apart(a: StubTurnView, b: StubTurnView, m: u64, n: u64)
    requires
        a is AssistantWithTool,
        b is AssistantWithTool,
        call_id_of(scripted(a, m)) == call_id_of(scripted(b, n)),
    ensures
        m == n,
        next_number(n) != n,
        n < u64::MAX ==> next_number(n) == n + 1,
{
    let head = "call-"@;
    let x = dec(m as nat);
    let y = dec(n as nat);
    assert((head + x).skip(head.len() as int) =~= x);
    assert((head + y).skip(head.len() as int) =~= y);
    law_numbers_are_told_apart(m as nat, n as nat);
}

/// An event joins the end of the queue while the stream is open, and only then; only an event with a
/// result, or the end, closes the stream.
pub proof fn law_events_join_the_queue<T, R, W>(
    stream: EventStreamView<T, R, W>,
    event: T,
    result: Option<R>,
)
    ensures
        stream.open ==> stream.pushed(event, result).0.queue == stream.queue.push(event),
        !stream.open ==> stream.pushed(event, result).0.queue == stream.queue,
        stream.pushed(event, result).0.open <==> stream.open && result is None,
        stream.ended(result).0.queue == stream.queue,
        !stream.ended(result).0.open,
{
}

/// A result goes to one place: to the one who waits, who then waits no more, or else it is kept for
/// who comes later. Without a result nothing is handed out, and who waits goes on waiting.
pub proof fn law_result_goes_to_one_place<T, R, W>(
    stream: EventStreamView<T, R, W>,
    event: T,
    result: Option<R>,
)
    ensures
        result matches Some(value) ==> (stream.waiter matches Some(waiter) ==> {
            &&& stream.pushed(event, result).1 == Some((waiter, value))
            &&& stream.ended(result).1 == Some((waiter, value))
            &&& stream.pushed(event, result).0.waiter is None
            &&& stream.ended(result).0.waiter is None
            &&& stream.pushed(event, result).0.value == stream.value
            &&& stream.ended(result).0.value == stream.value
        }),
        result matches Some(value) ==> (stream.waiter is None ==> {
            &&& stream.pushed(event, result).1 is None
            &&& stream.ended(result).1 is None
            &&& stream.pushed(event, result).0.value == Some(value)
            &&& stream.ended(result).0.value == Some(value)
        }),
        result is None ==> {
            &&& stream.pushed(event, result).1 is None
            &&& stream.ended(result).1 is None
            &&& stream.pushed(event, result).0.value == stream.value
            &&& stream.ended(result).0.value == stream.value
            &&& stream.pushed(event, result).0.waiter == stream.waiter
            &&& stream.ended(result).0.waiter == stream.waiter
        },
{
}

/// The text of an error ends with what went wrong, and errors of different kinds have different
/// texts, whatever went wrong.
pub proof fn law_error_says_what_went_wrong(err: Seq<char>, other: Seq<char>)
    ensures
        err.is_suffix_of(LoopErrorView::Backend(err).message()),
        err.is_suffix_of(LoopErrorView::InvalidContinue(err).message()),
        LoopErrorView::Backend(err).message() != LoopErrorView::InvalidContinue(other).message(),
{
    reveal_strlit("backend error: ");
    reveal_strlit("invalid continue: ");
    let a = LoopErrorView::Backend(err).message();
    let b = LoopErrorView::InvalidContinue(err).message();
    assert(a.skip("backend error: "@.len() as int) =~= err);
    assert(b.skip("invalid continue: "@.len() as int) =~= err);
    assert(a[0] == 'b');
    assert(LoopErrorView::InvalidContinue(other).message()[0] == 'i');
}

/// Events are read in the order in which they were pushed: one that is pushed behind others does not
/// change what is read first, and one that is pushed to an empty queue is read next. Reading takes an
/// event out, and nothing else.
pub proof fn law_events_are_read_in_order<T, R, W>(stream: EventStreamView<T, R, W>, event: T)
    requires
        stream.open,
    ensures
        stream.queue.len() > 0 ==> stream.pushed(event, None).0.polled().1 == stream.polled().1,
        stream.queue.len() > 0 ==> stream.pushed(event, None).0.polled().0
            == stream.polled().0.pushed(event, None).0,
        stream.queue.len() == 0 ==> stream.pushed(event, None).0.polled() == (
            stream,
            Polled::Item(event),
        ),
        stream.queue.len() == 0 ==> stream.polled().1 is Pending,
{
    let pushed = stream.pushed(event, None).0;
    if stream.queue.len() > 0 {
        assert(pushed.polled().0.queue =~= stream.polled().0.pushed(event, None).0.queue);
    } else {
        assert(pushed.polled().0.queue =~= stream.queue);
    }
}

/// A stream that was ended is read to its end, and says so only then.
pub proof fn law_stream_is_read_to_its_end<T, R, W>(
    stream: EventStreamView<T, R, W>,
    result: Option<R>,
)
    ensures
        ({
            let ended = stream.ended(result).0;
            &&& ended.polled().1 is Ended <==> stream.queue.len() == 0
            &&& stream.queue.len() > 0 ==> ended.polled().1 == Polled::Item(stream.queue[0])
            &&& ended.polled().0.queue.len() == (if stream.queue.len() == 0 {
                0int
            } else {
                stream.queue.len() - 1
            })
        }),
{
}

/// Who asks for the result after it came gets it at once, and it is handed out once; who asks before
/// gets it when it comes, in place of anyone who asked earlier.
pub proof fn law_result_is_handed_out_once<T, R, W>(
    stream: EventStreamView<T, R, W>,
    waiter: W,
    later: W,
    event: T,
    value: R,
)
    ensures
        stream.value == Some(value) ==> stream.asked(waiter).1 == Some((waiter, value))
            && stream.asked(waiter).0.asked(later).1 is None,
        stream.value is None ==> stream.asked(waiter).1 is None && stream.asked(waiter).0.pushed(
            event,
            Some(value),
        ).1 == Some((waiter, value)),
        stream.value is None ==> stream.asked(waiter).0.asked(later).0.pushed(
            event,
            Some(value),
        ).1 == Some((later, value)),
        stream.asked(waiter).0.queue == stream.queue,
        stream.asked(waiter).0.open == stream.open,
{
}

/// A script is played turn by turn, and its follow-ups are given out one by one, each once.
pub proof fn law_script_goes_on(script: StubBackendView)
    ensures
        script.turns.len() > 0 ==> {
            let next = script.after_turn();
            &&& next.turns.len() == script.turns.len() - 1
            &&& forall|i: int| 0 <= i < next.turns.len() ==> #[trigger] next.turns[i]
                == script.turns[i + 1]
            &&& next.follow_ups == script.follow_ups
            &&& next.call_ids == script.call_ids <==> script.turns[0] is AssistantText
        },
        script.turns.len() == 0 ==> script.after_turn() == script,
        script.follow_ups.len() > 0 ==> {
            let (next, given) = script.after_follow_up();
            &&& given == seq![script.follow_ups[0]]
            &&& given + next.follow_ups == script.follow_ups
            &&& next.turns == script.turns
            &&& next.call_ids == script.call_ids
        },
        script.follow_ups.len() == 0 ==> script.after_follow_up().1.len() == 0,
{
    if script.follow_ups.len() > 0 {
        let (next, given) = script.after_follow_up();
        assert(given + next.follow_ups =~= script.follow_ups);
    }
}

/// A call under a name that no one registered fails, and the failure names it; the echo tool says what it
/// was told. Whatever else is registered does not matter to either.
pub proof fn law_what_may_come_of_a_call<E: ToolExecutor>(
    executors: Map<Seq<char>, NamedTool<E>>,
    name: Seq<char>,
    args: JsonValue,
    outcome: ToolExecResult,
)
    requires
        may_give(executors, name, args, outcome),
    ensures
        !executors.dom().contains(name) ==> outcome.is_error && !outcome.terminate
            && name.is_suffix_of(outcome.content@),
        executors.dom().contains(name) && executors[name] is Echo ==> !outcome.is_error
            && !outcome.terminate && outcome.content@ == (match args.deep_view().str_field(
            "message"@,
        ) {
            Some(message) => message,
            None => json_text(args.deep_view()),
        }),
        executors.dom().contains(name) ==> (executors[name] matches NamedTool::Custom(tool)
            ==> call_ensures(E::execute, (&tool, &args), outcome)),
{
    law_what_tools_give(args.deep_view(), Seq::empty(), name);
    if !executors.dom().contains(name) {
        assert(outcome.deep_view() == unregistered(name));
        assert(outcome.deep_view().is_error == outcome.is_error);
        assert(outcome.deep_view().content == outcome.content@);
    } else if executors[name] is Echo {
        assert(outcome.deep_view() == echoed(args.deep_view()));
        assert(outcome.deep_view().content == outcome.content@);
    }
}

/// A request goes to the model, with every message of the context in its place and every tool.
pub proof fn law_request_is_for_the_model(model: Seq<char>, context: AgentContextView)
    ensures
        ({
            let request = request_of(model, context);
            &&& request.model == model
            &&& request.messages.len() == context.messages.len()
            &&& forall|i: int|
                0 <= i < context.messages.len() ==> #[trigger] request.messages[i] == llm_message(
                    context.messages[i],
                )
            &&& request.tools is None <==> context.tools.len() == 0
            &&& request.tools matches Some(sent) ==> sent.len() == context.tools.len() && forall|
                i: int,
            |
                0 <= i < sent.len() ==> is_same_tool(#[trigger] sent[i], context.tools[i])
        }),
{
    law_request_has_the_context(context.messages, context.tools);
}

/// Every tool of a script succeeds, whatever its name, and none ends the run.
pub proof fn law_scripted_tools_succeed(call_id: Seq<char>, name: Seq<char>)
    ensures
        tool_ran(call_id, name, stub_outcome()).1 matches AgentMessageView::ToolResult {
            tool_call_id,
            tool_name,
            content,
            is_error,
            terminate,
        } && tool_call_id == call_id && tool_name == name && content == "ok"@ && !is_error
            && !terminate,
{
}

} // verus!
