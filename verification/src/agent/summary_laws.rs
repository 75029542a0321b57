//! What holds of every summary of a context.

use vstd::prelude::*;

use crate::agent::summarize::{
    all_answered, answered, any_concerns, asked_for, call_text, calls_text, calls_tools, chain_cut,
    completed_text, concerns, context_bytes, first_cut, last_completed, lead_end, leads,
    lemma_suffix_start, message_lines, pending_cut, role_name, split_of, splits_chain, suffix_start,
    summarized, tokens, transcript, transcript_lines, SUMMARIZER_SYSTEM_PROMPT, SUMMARY_PREFIX,
    SummarizeError, SummarizeOutcomeView,
};
use crate::config::ContextConfig;
use crate::json::{json_quoted, json_text, Json};
use crate::llm::{ChunkResultView, LlmChunkView};
use crate::protocol::{Role, ToolCallView, WireMessageView};
use crate::store::PendingToolView;
use crate::text::{byte_len, has_part, has_prefix, joined, trimmed};
use crate::text_laws::law_between_is_a_part;

verus! {

/// A context that is summarised keeps its first messages and its last ones as they are. Between
/// them stands one system message: the summary prefix, a line break, and then the whole text with
/// which the model replied.
pub proof fn law_summary_is_the_reply(
    context: Seq<WireMessageView>,
    cfg: ContextConfig,
    pending: Option<PendingToolView>,
    reply: Result<Seq<char>, Seq<char>>,
)
    requires
        context.len() <= usize::MAX,
    ensures
        summarized(context, cfg, pending, reply) matches Ok(
            SummarizeOutcomeView::Summarized {
                context: shorter,
                before_tokens,
                after_tokens,
                kept_prefix,
                kept_suffix,
            },
        ) ==> {
            let middle = shorter[kept_prefix as int];
            &&& kept_prefix + kept_suffix < context.len()
            &&& kept_prefix + 1 + kept_suffix == shorter.len()
            &&& shorter.take(kept_prefix as int) == context.take(kept_prefix as int)
            &&& shorter.skip(kept_prefix + 1) == context.skip(context.len() - kept_suffix)
            &&& middle.role == Role::System
            &&& reply is Ok
            &&& middle.content == SUMMARY_PREFIX@ + "\n"@ + reply->Ok_0
            &&& middle.name is None && middle.tool_calls is None && middle.tool_call_id is None
                && middle.reasoning_content is None
            &&& before_tokens == tokens(context)
            &&& after_tokens == tokens(shorter)
        },
{
    lemma_suffix_start(context, cfg.keep_last_messages, pending);
    let split = split_of(context, cfg.keep_last_messages, pending);
    if let Ok(SummarizeOutcomeView::Summarized { context: shorter, kept_prefix, kept_suffix, .. }) =
        summarized(context, cfg, pending, reply) {
        assert(kept_prefix == split.prefix.len());
        assert(kept_suffix == split.suffix.len());
        assert(split.middle.len() > 0);
        assert(shorter.take(kept_prefix as int) =~= context.take(kept_prefix as int));
        assert(shorter.skip(kept_prefix + 1) =~= context.skip(context.len() - kept_suffix));
        assert(shorter[kept_prefix as int].content =~= SUMMARY_PREFIX@ + "\n"@ + reply->Ok_0);
    }
}

/// Two different replies give two different contexts.
pub proof fn law_summaries_are_told_apart(
    context: Seq<WireMessageView>,
    cfg: ContextConfig,
    pending: Option<PendingToolView>,
    one: Seq<char>,
    other: Seq<char>,
)
    requires
        context.len() <= usize::MAX,
        one != other,
        summarized(context, cfg, pending, Ok(one)) matches Ok(
            SummarizeOutcomeView::Summarized { .. },
        ),
        summarized(context, cfg, pending, Ok(other)) matches Ok(
            SummarizeOutcomeView::Summarized { .. },
        ),
    ensures
        summarized(context, cfg, pending, Ok(one))->Ok_0->context != summarized(
            context,
            cfg,
            pending,
            Ok(other),
        )->Ok_0->context,
{
    law_summary_is_the_reply(context, cfg, pending, Ok(one));
    law_summary_is_the_reply(context, cfg, pending, Ok(other));
    let a = summarized(context, cfg, pending, Ok(one))->Ok_0;
    let b = summarized(context, cfg, pending, Ok(other))->Ok_0;
    if a->context == b->context {
        let head = SUMMARY_PREFIX@ + "\n"@;
        let at = a->kept_prefix as int;
        assert(a->kept_prefix == b->kept_prefix);
        assert(a->context[at].content == head + one);
        assert(b->context[at].content == head + other);
        assert((head + one).skip(head.len() as int) =~= one);
        assert((head + other).skip(head.len() as int) =~= other);
    }
}

/// A context is summarised exactly where it has as many tokens as the threshold or more, something
/// lies between what is kept, the model replied, and the new context is under the cap. Otherwise it
/// stays as it is where it is under the cap, and overflows where it is not; the reply of a model
/// that need not be asked makes no difference.
pub proof fn law_when_a_context_is_summarised(
    context: Seq<WireMessageView>,
    cfg: ContextConfig,
    pending: Option<PendingToolView>,
    reply: Result<Seq<char>, Seq<char>>,
    other: Result<Seq<char>, Seq<char>>,
)
    ensures
        asked_for(context, cfg, pending) is Some <==> tokens(context)
            >= cfg.summarize_threshold_tokens && lead_end(context, 0) < suffix_start(
            context,
            cfg.keep_last_messages,
            pending,
        ),
        asked_for(context, cfg, pending) is None ==> summarized(context, cfg, pending, reply)
            == summarized(context, cfg, pending, other),
        asked_for(context, cfg, pending) is None || reply is Err ==> match summarized(
            context,
            cfg,
            pending,
            reply,
        ) {
            Ok(SummarizeOutcomeView::Unchanged) => tokens(context) < cfg.max_context_tokens,
            Ok(_) => false,
            Err(SummarizeError::ContextOverflow { before_tokens, after_tokens }) => tokens(context)
                >= cfg.max_context_tokens && before_tokens == tokens(context) && after_tokens
                == tokens(context),
        },
        asked_for(context, cfg, pending) is Some && reply is Ok ==> match summarized(
            context,
            cfg,
            pending,
            reply,
        ) {
            Ok(SummarizeOutcomeView::Unchanged) => false,
            Ok(SummarizeOutcomeView::Summarized { after_tokens, .. }) => after_tokens
                < cfg.max_context_tokens,
            Err(SummarizeError::ContextOverflow { before_tokens, after_tokens }) => after_tokens
                >= cfg.max_context_tokens && before_tokens == tokens(context),
        },
{
    lemma_suffix_start(context, cfg.keep_last_messages, pending);
}

/// The estimate is a quarter of the bytes, rounded up.
pub proof fn law_tokens_are_quarters(messages: Seq<WireMessageView>)
    requires
        context_bytes(messages) <= usize::MAX,
    ensures
        4 * tokens(messages) >= context_bytes(messages),
        4 * tokens(messages) < context_bytes(messages) + 4,
{
}

/// The bytes of two parts of a context are those of the one and those of the other, and a message
/// counts with its text, its name and its calls.
pub proof fn law_bytes_of_a_context(a: Seq<WireMessageView>, b: Seq<WireMessageView>)
    ensures
        context_bytes(a + b) == context_bytes(a) + context_bytes(b),
        forall|m: WireMessageView| #[trigger]
            context_bytes(seq![m]) == byte_len(m.content) + (match m.name {
                Some(name) => byte_len(name),
                None => 0,
            }) + (match m.tool_calls {
                Some(calls) => byte_len(calls_text(calls)),
                None => 0,
            }),
    decreases b.len(),
{
    assert forall|m: WireMessageView| #[trigger]
        context_bytes(seq![m]) == byte_len(m.content) + (match m.name {
            Some(name) => byte_len(name),
            None => 0,
        }) + (match m.tool_calls {
            Some(calls) => byte_len(calls_text(calls)),
            None => 0,
        }) by {
        assert(seq![m].drop_last() =~= Seq::<WireMessageView>::empty());
        reveal_with_fuel(context_bytes, 2);
    }
    if b.len() == 0 {
        assert(a + b =~= a);
    } else {
        assert((a + b).drop_last() =~= a + b.drop_last());
        law_bytes_of_a_context(a, b.drop_last());
    }
}

proof fn lemma_chain_cut_is_last(messages: Seq<WireMessageView>, prefix: int, suffix: int)
    requires
        prefix <= suffix,
    ensures
        prefix <= chain_cut(messages, prefix, suffix) <= suffix,
        forall|s: int|
            chain_cut(messages, prefix, suffix) < s <= suffix ==> #[trigger] splits_chain(
                messages,
                prefix,
                s,
            ),
    decreases suffix - prefix,
{
    if suffix > prefix && splits_chain(messages, prefix, suffix) {
        lemma_chain_cut_is_last(messages, prefix, suffix - 1);
    }
}

proof fn lemma_pending_cut_is_last(
    messages: Seq<WireMessageView>,
    prefix: int,
    suffix: int,
    call_id: Seq<char>,
)
    requires
        prefix <= suffix,
    ensures
        prefix <= pending_cut(messages, prefix, suffix, call_id) <= suffix,
        forall|s: int|
            pending_cut(messages, prefix, suffix, call_id) < s <= suffix
                ==> #[trigger] any_concerns(messages, prefix, s, call_id),
    decreases suffix - prefix,
{
    if suffix > prefix && any_concerns(messages, prefix, suffix, call_id) {
        lemma_pending_cut_is_last(messages, prefix, suffix - 1, call_id);
    }
}

/// No more is kept at the end than need be: the kept end starts before the last `keep_last`
/// messages only as far as a later start would part tool calls from what belongs to them, or leave
/// something of the pending tool in the middle.
pub proof fn law_no_more_is_kept_than_need_be(
    messages: Seq<WireMessageView>,
    keep_last: usize,
    pending: Option<PendingToolView>,
    later: int,
)
    requires
        suffix_start(messages, keep_last, pending) < later,
        later <= messages.len() - keep_last,
        later < messages.len(),
    ensures
        ({
            let prefix = lead_end(messages, 0);
            ||| exists|i: int| prefix <= i < later && calls_tools(#[trigger] messages[i])
            ||| exists|i: int|
                later <= i < messages.len() && calls_tools(#[trigger] messages[i])
                    && has_open_call(messages, i)
            ||| pending matches Some(p) && exists|i: int|
                prefix <= i < later && concerns(#[trigger] messages[i], p.tool_call_id)
        }),
{
    lemma_suffix_start(messages, keep_last, pending);
    let prefix = lead_end(messages, 0);
    let first = first_cut(messages.len() as int, prefix, keep_last);
    let cut = chain_cut(messages, prefix, first);
    lemma_chain_cut_is_last(messages, prefix, first);
    if later > cut {
        assert(splits_chain(messages, prefix, later));
        if exists|i: int|
            later <= i < messages.len() && calls_tools(#[trigger] messages[i])
                && !all_answered(messages, i) {
            let i = choose|i: int|
                later <= i < messages.len() && calls_tools(#[trigger] messages[i])
                    && !all_answered(messages, i);
            assert(has_open_call(messages, i));
        }
    } else if let Some(p) = pending {
        lemma_pending_cut_is_last(messages, prefix, cut, p.tool_call_id);
        assert(any_concerns(messages, prefix, later, p.tool_call_id));
    }
}

/// Whether a message calls for a tool whose result does not come after it.
pub open spec fn has_open_call(messages: Seq<WireMessageView>, i: int) -> bool {
    exists|k: int|
        0 <= k < messages[i].tool_calls->0.len() && !answered(
            messages,
            i + 1,
            (#[trigger] messages[i].tool_calls->0[k]).id,
        )
}

proof fn lemma_joined_concat(a: Seq<Seq<char>>, b: Seq<Seq<char>>, sep: Seq<char>)
    requires
        a.len() > 0,
        b.len() > 0,
    ensures
        joined(a + b, sep) == joined(a, sep) + sep + joined(b, sep),
    decreases b.len(),
{
    assert((a + b).drop_last() =~= a + b.drop_last());
    if b.len() == 1 {
        assert(a + b.drop_last() =~= a);
    } else {
        lemma_joined_concat(a, b.drop_last(), sep);
        assert(joined(a, sep) + sep + joined(b.drop_last(), sep) + sep + b.last() =~= joined(a, sep)
            + sep + (joined(b.drop_last(), sep) + sep + b.last()));
    }
}

proof fn lemma_lines_concat(a: Seq<WireMessageView>, b: Seq<WireMessageView>)
    ensures
        transcript_lines(a + b) == transcript_lines(a) + transcript_lines(b),
        a.len() > 0 ==> transcript_lines(a).len() > 0,
    decreases b.len(),
{
    if b.len() == 0 {
        assert(a + b =~= a);
        assert(transcript_lines(a) + transcript_lines(b) =~= transcript_lines(a));
    } else {
        assert((a + b).drop_last() =~= a + b.drop_last());
        lemma_lines_concat(a, b.drop_last());
        assert(transcript_lines(a) + transcript_lines(b.drop_last()) + message_lines(b.last())
            =~= transcript_lines(a) + (transcript_lines(b.drop_last()) + message_lines(b.last())));
    }
}

/// The transcript of two parts of a conversation is that of the one, an empty line, and that of the
/// other: nothing is left out, and nothing changes its place.
pub proof fn law_transcript_in_order(a: Seq<WireMessageView>, b: Seq<WireMessageView>)
    requires
        a.len() > 0,
        b.len() > 0,
    ensures
        transcript(a + b) == transcript(a) + "\n\n"@ + transcript(b),
{
    lemma_lines_concat(a, b);
    lemma_lines_concat(b, Seq::empty());
    lemma_joined_concat(transcript_lines(a), transcript_lines(b), "\n\n"@);
}

/// How a message is headed in a transcript: by its role, its name and the call that it answers.
pub open spec fn heading(m: WireMessageView) -> Seq<char> {
    let role = "["@ + role_name(m.role) + "]"@;
    let named = match m.name {
        Some(name) => role + " name="@ + name,
        None => role,
    };
    match m.tool_call_id {
        Some(id) => named + " tool_call_id="@ + id,
        None => named,
    }
}

proof fn lemma_message_lines(m: WireMessageView)
    ensures
        message_lines(m)[0] == heading(m) + "\n"@ + m.content,
        match m.tool_calls {
            Some(calls) => message_lines(m).len() == 2 && message_lines(m)[1] == "  tool_calls: "@
                + calls_text(calls),
            None => message_lines(m).len() == 1,
        },
{
    let role = "["@ + role_name(m.role) + "]"@;
    let named = match m.name {
        Some(name) => role + " name="@ + name,
        None => role,
    };
    assert(named =~= role + match m.name {
        Some(name) => " name="@ + name,
        None => Seq::<char>::empty(),
    });
    assert(heading(m) =~= named + match m.tool_call_id {
        Some(id) => " tool_call_id="@ + id,
        None => Seq::<char>::empty(),
    });
}

/// The transcript of a message is its heading, then what it says, and then the calls that it makes.
pub proof fn law_transcript_of_a_message(m: WireMessageView)
    ensures
        match m.tool_calls {
            None => transcript(seq![m]) == heading(m) + "\n"@ + m.content,
            Some(calls) => transcript(seq![m]) == heading(m) + "\n"@ + m.content + "\n\n"@ + (
            "  tool_calls: "@ + calls_text(calls)),
        },
{
    let one = seq![m];
    let lines = message_lines(m);
    assert(transcript_lines(one) == lines) by {
        assert(one.drop_last() =~= Seq::<WireMessageView>::empty());
        reveal_with_fuel(transcript_lines, 2);
        assert(Seq::<Seq<char>>::empty() + lines =~= lines);
    }
    lemma_message_lines(m);
    if m.tool_calls is Some {
        assert(joined(lines.drop_last(), "\n\n"@) == lines[0]) by {
            assert(lines.drop_last().len() == 1);
        }
        assert(joined(lines, "\n\n"@) == joined(lines.drop_last(), "\n\n"@) + "\n\n"@ + lines.last());
    } else {
        assert(joined(lines, "\n\n"@) == lines[0]);
    }
}

/// The model is asked with a system message, and with the transcript of exactly what a summary
/// would stand for.
pub proof fn law_model_is_asked_about_the_middle(
    context: Seq<WireMessageView>,
    cfg: ContextConfig,
    pending: Option<PendingToolView>,
)
    ensures
        asked_for(context, cfg, pending) matches Some(prompt) ==> {
            &&& prompt.len() == 2
            &&& prompt[0].role == Role::System && prompt[0].content == SUMMARIZER_SYSTEM_PROMPT@
            &&& prompt[1].role == Role::User && prompt[1].content == transcript(
                context.subrange(
                    lead_end(context, 0),
                    suffix_start(context, cfg.keep_last_messages, pending),
                ),
            )
        },
{
}

/// The leading messages of a context are its first system messages, up to the first that is a
/// summary or none at all.
pub proof fn law_leading_messages(messages: Seq<WireMessageView>, i: int)
    requires
        0 <= i <= messages.len(),
    ensures
        i <= lead_end(messages, i) <= messages.len(),
        forall|k: int|
            i <= k < lead_end(messages, i) ==> (#[trigger] messages[k]).role == Role::System
                && !has_prefix(messages[k].content, SUMMARY_PREFIX@),
        lead_end(messages, i) < messages.len() ==> {
            let next = messages[lead_end(messages, i)];
            next.role != Role::System || has_prefix(next.content, SUMMARY_PREFIX@)
        },
    decreases messages.len() - i,
{
    if i < messages.len() && leads(messages[i]) {
        law_leading_messages(messages, i + 1);
    }
}

/// A stream gives the text of its last completed message, unless that is blank, there is none, or
/// the stream failed before its end; then the first failure is what it gives.
pub proof fn law_completed_text_is_the_last(items: Seq<ChunkResultView>)
    ensures
        completed_text(items) matches Ok(text) ==> trimmed(text).len() > 0,
        completed_text(items) is Ok ==> forall|i: int|
            0 <= i < items.len() ==> #[trigger] items[i] is Ok,
        completed_text(items) matches Ok(text) ==> completes_with(items, text),
        completed_text(items) matches Err(err) ==> fails_with(items, err) || forall|
            text: Seq<char>,
        | #[trigger]
            completes_with(items, text) ==> trimmed(text).len() == 0,
{
    lemma_last_completed(items);
    if let Ok(found) = last_completed(items) {
        assert forall|text: Seq<char>| #[trigger] completes_with(items, text) implies found == Some(
            text,
        ) by {
            let i = choose|i: int| #[trigger] completes_at(items, i, text);
            assert(is_completed(items[i]));
            if let Some(last) = found {
                assert(completes_with(items, last));
                let k = choose|k: int| #[trigger] completes_at(items, k, last);
                assert(is_completed(items[k]));
                assert(k == i);
            }
        }
    }
}

/// Whether the last completed message has a text.
pub open spec fn completes_with(items: Seq<ChunkResultView>, text: Seq<char>) -> bool {
    exists|i: int| #[trigger] completes_at(items, i, text)
}

/// Whether the first failure is this.
pub open spec fn fails_with(items: Seq<ChunkResultView>, err: Seq<char>) -> bool {
    exists|i: int| #[trigger] fails_at(items, i, err)
}

/// Whether the last completed message stands at `i`, with a text.
pub open spec fn completes_at(items: Seq<ChunkResultView>, i: int, text: Seq<char>) -> bool {
    &&& 0 <= i < items.len()
    &&& items[i] matches Ok(LlmChunkView::Completed { content, .. }) && content == text
    &&& forall|k: int| i < k < items.len() ==> !is_completed(#[trigger] items[k])
}

pub open spec fn is_completed(item: ChunkResultView) -> bool {
    item matches Ok(LlmChunkView::Completed { .. })
}

/// Whether the first failure stands at `i`.
pub open spec fn fails_at(items: Seq<ChunkResultView>, i: int, err: Seq<char>) -> bool {
    &&& 0 <= i < items.len()
    &&& items[i] == Err::<LlmChunkView, Seq<char>>(err)
    &&& forall|k: int| 0 <= k < i ==> #[trigger] items[k] is Ok
}

proof fn lemma_last_completed(items: Seq<ChunkResultView>)
    ensures
        last_completed(items) is Ok ==> forall|i: int|
            0 <= i < items.len() ==> #[trigger] items[i] is Ok,
        last_completed(items) matches Ok(Some(text)) ==> completes_with(items, text),
        last_completed(items) == Ok::<Option<Seq<char>>, Seq<char>>(None) ==> forall|i: int|
            0 <= i < items.len() ==> !is_completed(#[trigger] items[i]),
        last_completed(items) matches Err(err) ==> fails_with(items, err),
    decreases items.len(),
{
    if items.len() > 0 {
        let less = items.drop_last();
        let n = items.len() - 1;
        lemma_last_completed(less);
        match last_completed(less) {
            Err(err) => {
                assert(fails_with(less, err));
                let i = choose|i: int| #[trigger] fails_at(less, i, err);
                assert(fails_at(items, i, err)) by {
                    assert(items[i] == less[i]);
                    assert forall|k: int| 0 <= k < i implies #[trigger] items[k] is Ok by {
                        assert(less[k] is Ok);
                    }
                }
            },
            Ok(found) => {
                assert forall|i: int| 0 <= i < n implies #[trigger] items[i] is Ok by {
                    assert(less[i] is Ok);
                }
                assert(items.last() == items[n]);
                match items.last() {
                    Err(err) => {
                        assert(fails_at(items, n, err));
                        assert(fails_with(items, err));
                    },
                    Ok(LlmChunkView::Completed { content, .. }) => {
                        assert(completes_at(items, n, content));
                        assert(completes_with(items, content));
                    },
                    Ok(_) => {
                        if let Some(text) = found {
                            assert(completes_with(less, text));
                            let i = choose|i: int| #[trigger] completes_at(less, i, text);
                            assert(items[i] == less[i]);
                            assert forall|k: int| i < k < items.len() implies !is_completed(
                                #[trigger] items[k],
                            ) by {
                                if k < n {
                                    assert(!is_completed(less[k]));
                                }
                            }
                            assert(completes_at(items, i, text));
                            assert(completes_with(items, text));
                        } else {
                            assert forall|i: int| 0 <= i < items.len() implies !is_completed(
                                #[trigger] items[i],
                            ) by {
                                if i < n {
                                    assert(!is_completed(less[i]));
                                }
                            }
                        }
                    },
                }
            },
        }
    }
}

/// Whether a message is the result of a call.
pub open spec fn is_result_of(m: WireMessageView, call_id: Seq<char>) -> bool {
    m.role == Role::Tool && m.tool_call_id == Some(call_id)
}

/// Whether a message makes a call, or has to do with its result.
pub open spec fn speaks_of(m: WireMessageView, call_id: Seq<char>) -> bool {
    m.tool_call_id == Some(call_id) || makes_call(m, call_id)
}

/// Whether a message makes a call with this id.
pub open spec fn makes_call(m: WireMessageView, call_id: Seq<char>) -> bool {
    m.tool_calls matches Some(calls) && exists|k: int|
        0 <= k < calls.len() && (#[trigger] calls[k]).id == call_id
}

/// Whether every call of the message at `i` has its result after it.
pub open spec fn has_its_results(messages: Seq<WireMessageView>, i: int) -> bool {
    messages[i].role == Role::Assistant ==> (messages[i].tool_calls matches Some(calls) ==> forall|
        k: int,
    |
        0 <= k < calls.len() ==> has_result(messages, i, (#[trigger] calls[k]).id))
}

/// Whether the result of a call stands after `i`.
pub open spec fn has_result(messages: Seq<WireMessageView>, i: int, call_id: Seq<char>) -> bool {
    exists|j: int| i < j < messages.len() && is_result_of(#[trigger] messages[j], call_id)
}

proof fn lemma_cut_keeps_chains(messages: Seq<WireMessageView>, prefix: int, suffix: int)
    requires
        0 <= prefix <= suffix <= messages.len(),
    ensures
        ({
            let cut = chain_cut(messages, prefix, suffix);
            &&& prefix <= cut <= suffix
            &&& cut > prefix ==> {
                &&& forall|i: int|
                    prefix <= i < cut ==> !(#[trigger] messages[i].role == Role::Assistant
                        && messages[i].tool_calls is Some)
                &&& forall|i: int|
                    cut <= i < messages.len() ==> has_its_results(messages, i)
            }
        }),
    decreases suffix - prefix,
{
    if suffix > prefix && splits_chain(messages, prefix, suffix) {
        lemma_cut_keeps_chains(messages, prefix, suffix - 1);
    } else if suffix > prefix {
        assert forall|i: int| prefix <= i < suffix implies !(#[trigger] messages[i].role
            == Role::Assistant && messages[i].tool_calls is Some) by {
            assert(!calls_tools(messages[i]));
        }
        assert forall|i: int| suffix <= i < messages.len() implies has_its_results(messages, i) by {
            if calls_tools(messages[i]) {
                assert(all_answered(messages, i));
                let calls = messages[i].tool_calls->0;
                assert forall|k: int| 0 <= k < calls.len() implies has_result(
                    messages,
                    i,
                    (#[trigger] calls[k]).id,
                ) by {
                    assert(answered(messages, i + 1, messages[i].tool_calls->0[k].id));
                    let j = choose|j: int|
                        i + 1 <= j < messages.len() && (#[trigger] messages[j]).role == Role::Tool
                            && messages[j].tool_call_id == Some(calls[k].id);
                    assert(is_result_of(messages[j], calls[k].id));
                }
            }
        }
    }
}

proof fn lemma_cut_keeps_pending(
    messages: Seq<WireMessageView>,
    prefix: int,
    suffix: int,
    call_id: Seq<char>,
)
    requires
        0 <= prefix <= suffix <= messages.len(),
    ensures
        ({
            let cut = pending_cut(messages, prefix, suffix, call_id);
            &&& prefix <= cut <= suffix
            &&& forall|i: int| prefix <= i < cut ==> !speaks_of(#[trigger] messages[i], call_id)
        }),
    decreases suffix - prefix,
{
    if suffix > prefix && any_concerns(messages, prefix, suffix, call_id) {
        lemma_cut_keeps_pending(messages, prefix, suffix - 1, call_id);
    } else {
        assert forall|i: int| prefix <= i < suffix implies !speaks_of(
            #[trigger] messages[i],
            call_id,
        ) by {
            assert(!concerns(messages[i], call_id));
        }
    }
}

/// Where anything is summarised, no call is parted from its result: none is made in what is summarised,
/// and each that is made in what is kept at the end has its result there. Nor is anything summarised
/// that has to do with the tool that the run waits for.
pub proof fn law_no_call_is_parted_from_its_result(
    messages: Seq<WireMessageView>,
    keep_last: usize,
    pending: Option<PendingToolView>,
)
    ensures
        ({
            let split = split_of(messages, keep_last, pending);
            split.middle.len() > 0 ==> {
                &&& forall|i: int|
                    0 <= i < split.middle.len() ==> !((#[trigger] split.middle[i]).role
                        == Role::Assistant && split.middle[i].tool_calls is Some)
                &&& forall|i: int|
                    0 <= i < split.suffix.len() ==> #[trigger] has_its_results(split.suffix, i)
                &&& pending matches Some(tool) ==> forall|i: int|
                    0 <= i < split.middle.len() ==> !speaks_of(
                        #[trigger] split.middle[i],
                        tool.tool_call_id,
                    )
            }
        }),
{
    let split = split_of(messages, keep_last, pending);
    lemma_suffix_start(messages, keep_last, pending);
    let prefix = lead_end(messages, 0);
    lemma_lead_bounds(messages, 0);
    let first = first_cut(messages.len() as int, prefix, keep_last);
    lemma_cut_keeps_chains(messages, prefix, first);
    let cut = chain_cut(messages, prefix, first);
    let end = suffix_start(messages, keep_last, pending);
    if let Some(tool) = pending {
        lemma_cut_keeps_pending(messages, prefix, cut, tool.tool_call_id);
    }
    if split.middle.len() > 0 {
        assert forall|i: int| 0 <= i < split.middle.len() implies !((
        #[trigger] split.middle[i]).role == Role::Assistant && split.middle[i].tool_calls is Some) by {
            assert(split.middle[i] == messages[prefix + i]);
        }
        assert forall|i: int| 0 <= i < split.suffix.len() implies #[trigger] has_its_results(
            split.suffix,
            i,
        ) by {
            let at = end + i;
            assert(split.suffix[i] == messages[at]);
            if split.suffix[i].role == Role::Assistant && split.suffix[i].tool_calls is Some {
                assert(at >= cut);
                assert(has_its_results(messages, at));
                let calls = split.suffix[i].tool_calls->0;
                assert forall|k: int| 0 <= k < calls.len() implies has_result(
                    split.suffix,
                    i,
                    (#[trigger] calls[k]).id,
                ) by {
                    assert(has_result(messages, at, messages[at].tool_calls->0[k].id));
                    let j = choose|j: int|
                        at < j < messages.len() && is_result_of(#[trigger] messages[j], calls[k].id);
                    assert(split.suffix[j - end] == messages[j]);
                    assert(is_result_of(split.suffix[j - end], calls[k].id));
                }
            }
        }
        if let Some(tool) = pending {
            assert forall|i: int| 0 <= i < split.middle.len() implies !speaks_of(
                #[trigger] split.middle[i],
                tool.tool_call_id,
            ) by {
                assert(split.middle[i] == messages[prefix + i]);
            }
        }
    }
}

proof fn lemma_lead_bounds(messages: Seq<WireMessageView>, i: int)
    requires
        0 <= i <= messages.len(),
    ensures
        i <= lead_end(messages, i) <= messages.len(),
    decreases messages.len() - i,
{
    if i < messages.len() && leads(messages[i]) {
        lemma_lead_bounds(messages, i + 1);
    }
}

/// At least the last messages are kept, as many as are to be and at least one, but for those that lead
/// the context, which are kept anyway.
pub proof fn law_last_messages_are_kept(
    messages: Seq<WireMessageView>,
    keep_last: usize,
    pending: Option<PendingToolView>,
)
    ensures
        ({
            let split = split_of(messages, keep_last, pending);
            let others = messages.len() - split.prefix.len();
            &&& split.suffix.len() >= keep_last || split.suffix.len() == others
            &&& others > 0 ==> split.suffix.len() > 0
        }),
{
    lemma_suffix_start(messages, keep_last, pending);
    let prefix = lead_end(messages, 0);
    lemma_lead_bounds(messages, 0);
    let first = first_cut(messages.len() as int, prefix, keep_last);
    lemma_cut_keeps_chains(messages, prefix, first);
    let cut = chain_cut(messages, prefix, first);
    if let Some(tool) = pending {
        lemma_cut_keeps_pending(messages, prefix, cut, tool.tool_call_id);
    }
}

/// The text of a call has its id and its name as JSON strings, and its arguments as JSON.
pub proof fn law_call_text_has_the_call(call: ToolCallView)
    ensures
        has_part(call_text(call), json_text(Json::Str(call.id))),
        has_part(call_text(call), json_text(Json::Str(call.name))),
        has_part(call_text(call), json_text(call.arguments)),
{
    let a = "{\"id\":"@;
    let b = ",\"name\":"@;
    let c = ",\"arguments\":"@;
    let id = json_quoted(call.id);
    let name = json_quoted(call.name);
    let args = json_text(call.arguments);
    law_between_is_a_part(a, id, b + name + c + args + "}"@);
    assert(a + id + (b + name + c + args + "}"@) =~= call_text(call));
    law_between_is_a_part(a + id + b, name, c + args + "}"@);
    assert(a + id + b + name + (c + args + "}"@) =~= call_text(call));
    law_between_is_a_part(a + id + b + name + c, args, "}"@);
}

} // verus!
