//! Context size, the split of a context, and its summary by the model.

use vstd::prelude::*;

use crate::config::ContextConfig;
use crate::dup::{dup_range, push_all, push_last, Dup};
use crate::json::{json_quoted, json_text, quote};
use crate::llm::{chunk_view, chunk_views, ChunkResult, ChunkResultView, LlmChunk, LlmChunkView};
use crate::protocol::{
    plain, plain_message, Role, ToolCallView, ToolCallWire, WireMessage, WireMessageView,
};
use crate::store::{PendingTool, PendingToolView};
use crate::text::{
    byte_len, concat, concat3, count_bytes, has_prefix, join, joined, same, starts_with, trim,
    trimmed,
};

verus! {

pub const SUMMARY_PREFIX: &'static str = "[conversation summary]";

pub const SUMMARIZER_SYSTEM_PROMPT: &'static str =
    "Summarize the conversation segment for continuation. Be concise. Use exactly these section headers on their own lines: Goal, Done, Facts, Open.";

/// The JSON text of a tool call.
pub open spec fn call_text(call: ToolCallView) -> Seq<char> {
    "{\"id\":"@ + json_quoted(call.id) + ",\"name\":"@ + json_quoted(call.name)
        + ",\"arguments\":"@ + json_text(call.arguments) + "}"@
}

pub open spec fn call_texts(calls: Seq<ToolCallView>) -> Seq<Seq<char>> {
    Seq::new(calls.len(), |i: int| call_text(calls[i]))
}

/// The JSON text of a list of tool calls.
pub open spec fn calls_text(calls: Seq<ToolCallView>) -> Seq<char> {
    "["@ + joined(call_texts(calls), ","@) + "]"@
}

fn call_to_text(call: &ToolCallWire) -> (r: String)
    ensures
        r@ == call_text(call.deep_view()),
{
    let mut out = concat("{\"id\":", quote(call.id.as_str()).as_str());
    out.append(",\"name\":");
    out.append(quote(call.name.as_str()).as_str());
    out.append(",\"arguments\":");
    out.append(call.arguments.to_text().as_str());
    out.append("}");
    out
}

/// The JSON text of a list of tool calls.
pub fn calls_to_text(calls: &Vec<ToolCallWire>) -> (r: String)
    ensures
        r@ == calls_text(calls.deep_view()),
{
    let mut parts: Vec<String> = Vec::new();
    let mut i: usize = 0;
    while i < calls.len()
        invariant
            i <= calls@.len(),
            parts@.len() == i,
            forall|j: int|
                0 <= j < i ==> (#[trigger] parts@[j])@ == call_text(calls@[j].deep_view()),
        decreases calls@.len() - i,
    {
        parts.push(call_to_text(&calls[i]));
        i = i + 1;
    }
    assert(parts.deep_view() =~= call_texts(calls.deep_view()));
    let inner = join(&parts, ",");
    concat3("[", inner.as_str(), "]")
}

/// The bytes of a message that count against the size of the context.
pub open spec fn message_bytes(m: WireMessageView) -> nat {
    byte_len(m.content) + match m.name {
        Some(name) => byte_len(name),
        None => 0,
    } + match m.tool_calls {
        Some(calls) => byte_len(calls_text(calls)),
        None => 0,
    }
}

pub open spec fn context_bytes(messages: Seq<WireMessageView>) -> nat
    decreases messages.len(),
{
    if messages.len() == 0 {
        0
    } else {
        context_bytes(messages.drop_last()) + message_bytes(messages.last())
    }
}

/// A count of bytes, held at the largest that fits in a `usize`.
pub open spec fn countable(bytes: nat) -> nat {
    if bytes <= usize::MAX {
        bytes
    } else {
        usize::MAX as nat
    }
}

/// The estimated number of tokens: a quarter of the bytes, rounded up.
pub open spec fn tokens(messages: Seq<WireMessageView>) -> u64 {
    ((countable(context_bytes(messages)) + 3) / 4) as u64
}

pub fn estimate_tokens(messages: &[WireMessage]) -> (r: u64)
    ensures
        r == tokens(messages.deep_view()),
{
    let mut bytes: usize = 0;
    let ghost all = messages.deep_view();
    let mut i: usize = 0;
    assert(all.take(0) =~= Seq::<WireMessageView>::empty());
    while i < messages.len()
        invariant
            i <= messages@.len(),
            all == messages.deep_view(),
            bytes == countable(context_bytes(all.take(i as int))),
        decreases messages@.len() - i,
    {
        proof {
            assert(all.take(i + 1).drop_last() =~= all.take(i as int));
            assert(all.take(i + 1).last() == messages@[i as int].deep_view());
        }
        let m = &messages[i];
        bytes = bytes.saturating_add(count_bytes(m.content.as_str()));
        match &m.name {
            Some(name) => {
                bytes = bytes.saturating_add(count_bytes(name.as_str()));
            },
            None => {},
        }
        match &m.tool_calls {
            Some(calls) => {
                let text = calls_to_text(calls);
                bytes = bytes.saturating_add(count_bytes(text.as_str()));
            },
            None => {},
        }
        i = i + 1;
    }
    assert(all.take(all.len() as int) =~= all);
    let rest: usize = if bytes % 4 == 0 {
        0
    } else {
        1
    };
    (bytes / 4 + rest) as u64
}

/// Whether a message leads the context: a system message that is not a summary.
pub open spec fn leads(m: WireMessageView) -> bool {
    m.role == Role::System && !has_prefix(m.content, SUMMARY_PREFIX@)
}

/// The number of leading messages from `i` on.
pub open spec fn lead_end(messages: Seq<WireMessageView>, i: int) -> int
    decreases messages.len() - i,
{
    if 0 <= i < messages.len() && leads(messages[i]) {
        lead_end(messages, i + 1)
    } else {
        i
    }
}

pub open spec fn calls_tools(m: WireMessageView) -> bool {
    m.role == Role::Assistant && m.tool_calls is Some
}

/// Whether a tool result for the call stands in `messages[from..]`.
pub open spec fn answered(messages: Seq<WireMessageView>, from: int, call_id: Seq<char>) -> bool {
    exists|j: int|
        from <= j < messages.len() && (#[trigger] messages[j]).role == Role::Tool
            && messages[j].tool_call_id == Some(call_id)
}

/// Whether every tool call of the message at `i` is answered after it.
pub open spec fn all_answered(messages: Seq<WireMessageView>, i: int) -> bool {
    forall|k: int|
        0 <= k < messages[i].tool_calls->0.len() ==> answered(
            messages,
            i + 1,
            (#[trigger] messages[i].tool_calls->0[k]).id,
        )
}

/// Whether a cut at `suffix` would part tool calls from what belongs to them: one is made in
/// `messages[prefix..suffix]`, or one that is made later has no result.
pub open spec fn splits_chain(messages: Seq<WireMessageView>, prefix: int, suffix: int) -> bool {
    ||| exists|i: int| prefix <= i < suffix && calls_tools(#[trigger] messages[i])
    ||| exists|i: int|
        suffix <= i < messages.len() && calls_tools(#[trigger] messages[i]) && !all_answered(
            messages,
            i,
        )
}

/// The last cut at or before `suffix` that parts no tool calls, or `prefix`.
pub open spec fn chain_cut(messages: Seq<WireMessageView>, prefix: int, suffix: int) -> int
    decreases suffix - prefix,
{
    if suffix > prefix && splits_chain(messages, prefix, suffix) {
        chain_cut(messages, prefix, suffix - 1)
    } else {
        suffix
    }
}

/// Whether a message belongs to the pending tool.
pub open spec fn concerns(m: WireMessageView, call_id: Seq<char>) -> bool {
    ||| m.tool_call_id == Some(call_id)
    ||| m.tool_calls is Some && exists|k: int|
        0 <= k < m.tool_calls->0.len() && (#[trigger] m.tool_calls->0[k]).id == call_id
}

pub open spec fn any_concerns(
    messages: Seq<WireMessageView>,
    start: int,
    end: int,
    call_id: Seq<char>,
) -> bool {
    exists|i: int| start <= i < end && concerns(#[trigger] messages[i], call_id)
}

/// The last cut at or before `suffix` with nothing of the pending tool between `prefix` and it,
/// or `prefix`.
pub open spec fn pending_cut(
    messages: Seq<WireMessageView>,
    prefix: int,
    suffix: int,
    call_id: Seq<char>,
) -> int
    decreases suffix - prefix,
{
    if suffix > prefix && any_concerns(messages, prefix, suffix, call_id) {
        pending_cut(messages, prefix, suffix - 1, call_id)
    } else {
        suffix
    }
}

/// Where the suffix starts before any extension: at the last `keep_last` messages, at least one,
/// but not before the prefix ends.
pub open spec fn first_cut(len: int, prefix: int, keep_last: usize) -> int {
    let keep = if keep_last < 1 {
        1
    } else {
        keep_last as int
    };
    if len - keep > prefix {
        len - keep
    } else {
        prefix
    }
}

/// Where the suffix starts.
pub open spec fn suffix_start(
    messages: Seq<WireMessageView>,
    keep_last: usize,
    pending: Option<PendingToolView>,
) -> int {
    let prefix = lead_end(messages, 0);
    let cut = chain_cut(messages, prefix, first_cut(messages.len() as int, prefix, keep_last));
    match pending {
        Some(p) => pending_cut(messages, prefix, cut, p.tool_call_id),
        None => cut,
    }
}

/// A context in three parts; a summary may take the place of the middle.
#[derive(Debug, PartialEq)]
pub struct ContextSplit {
    pub prefix: Vec<WireMessage>,
    pub middle: Vec<WireMessage>,
    pub suffix: Vec<WireMessage>,
}

/// What a `ContextSplit` is.
#[verifier::ext_equal]
pub struct ContextSplitView {
    pub prefix: Seq<WireMessageView>,
    pub middle: Seq<WireMessageView>,
    pub suffix: Seq<WireMessageView>,
}

impl DeepView for ContextSplit {
    type V = ContextSplitView;

    open spec fn deep_view(&self) -> ContextSplitView {
        ContextSplitView {
            prefix: self.prefix.deep_view(),
            middle: self.middle.deep_view(),
            suffix: self.suffix.deep_view(),
        }
    }
}

/// The parts of a context.
pub open spec fn split_of(
    messages: Seq<WireMessageView>,
    keep_last: usize,
    pending: Option<PendingToolView>,
) -> ContextSplitView {
    let prefix = lead_end(messages, 0);
    let suffix = suffix_start(messages, keep_last, pending);
    ContextSplitView {
        prefix: messages.take(prefix),
        middle: messages.subrange(prefix, suffix),
        suffix: messages.skip(suffix),
    }
}

proof fn lemma_lead_end(messages: Seq<WireMessageView>, i: int)
    requires
        0 <= i <= messages.len(),
    ensures
        i <= lead_end(messages, i) <= messages.len(),
        forall|k: int| i <= k < lead_end(messages, i) ==> leads(#[trigger] messages[k]),
        lead_end(messages, i) < messages.len() ==> !leads(messages[lead_end(messages, i)]),
    decreases messages.len() - i,
{
    if i < messages.len() && leads(messages[i]) {
        lemma_lead_end(messages, i + 1);
    }
}

proof fn lemma_chain_cut(messages: Seq<WireMessageView>, prefix: int, suffix: int)
    requires
        prefix <= suffix,
    ensures
        prefix <= chain_cut(messages, prefix, suffix) <= suffix,
        chain_cut(messages, prefix, suffix) == prefix || !splits_chain(
            messages,
            prefix,
            chain_cut(messages, prefix, suffix),
        ),
    decreases suffix - prefix,
{
    if suffix > prefix && splits_chain(messages, prefix, suffix) {
        lemma_chain_cut(messages, prefix, suffix - 1);
    }
}

proof fn lemma_pending_cut(
    messages: Seq<WireMessageView>,
    prefix: int,
    suffix: int,
    call_id: Seq<char>,
)
    requires
        prefix <= suffix,
    ensures
        prefix <= pending_cut(messages, prefix, suffix, call_id) <= suffix,
        !any_concerns(
            messages,
            prefix,
            pending_cut(messages, prefix, suffix, call_id),
            call_id,
        ),
    decreases suffix - prefix,
{
    if suffix > prefix && any_concerns(messages, prefix, suffix, call_id) {
        lemma_pending_cut(messages, prefix, suffix - 1, call_id);
    }
}

pub proof fn lemma_suffix_start(
    messages: Seq<WireMessageView>,
    keep_last: usize,
    pending: Option<PendingToolView>,
)
    ensures
        0 <= lead_end(messages, 0) <= suffix_start(messages, keep_last, pending) <= messages.len(),
{
    lemma_lead_end(messages, 0);
    let prefix = lead_end(messages, 0);
    let first = first_cut(messages.len() as int, prefix, keep_last);
    lemma_chain_cut(messages, prefix, first);
    if let Some(p) = pending {
        lemma_pending_cut(
            messages,
            prefix,
            chain_cut(messages, prefix, first),
            p.tool_call_id,
        );
    }
}

/// The three parts of a split, put together again, are the context.
pub proof fn law_split_loses_nothing(
    messages: Seq<WireMessageView>,
    keep_last: usize,
    pending: Option<PendingToolView>,
)
    ensures
        ({
            let split = split_of(messages, keep_last, pending);
            split.prefix + split.middle + split.suffix == messages
        }),
{
    lemma_suffix_start(messages, keep_last, pending);
    let split = split_of(messages, keep_last, pending);
    assert(split.prefix + split.middle + split.suffix =~= messages);
}

/// The prefix holds system messages that are not summaries, and the message after it is none.
pub proof fn law_split_prefix_is_lead(
    messages: Seq<WireMessageView>,
    keep_last: usize,
    pending: Option<PendingToolView>,
)
    ensures
        ({
            let split = split_of(messages, keep_last, pending);
            &&& forall|i: int| 0 <= i < split.prefix.len() ==> leads(#[trigger] split.prefix[i])
            &&& split.prefix.len() < messages.len() ==> !leads(
                messages[split.prefix.len() as int],
            )
        }),
{
    lemma_lead_end(messages, 0);
}

/// No assistant message that calls tools is left in the middle.
pub proof fn law_middle_calls_no_tools(
    messages: Seq<WireMessageView>,
    keep_last: usize,
    pending: Option<PendingToolView>,
)
    ensures
        ({
            let split = split_of(messages, keep_last, pending);
            forall|i: int| 0 <= i < split.middle.len() ==> !calls_tools(#[trigger] split.middle[i])
        }),
{
    lemma_lead_end(messages, 0);
    let prefix = lead_end(messages, 0);
    let first = first_cut(messages.len() as int, prefix, keep_last);
    lemma_chain_cut(messages, prefix, first);
    lemma_suffix_start(messages, keep_last, pending);
    let cut = chain_cut(messages, prefix, first);
    if let Some(p) = pending {
        lemma_pending_cut(messages, prefix, cut, p.tool_call_id);
    }
    let split = split_of(messages, keep_last, pending);
    assert forall|i: int| 0 <= i < split.middle.len() implies !calls_tools(
        #[trigger] split.middle[i],
    ) by {
        assert(split.middle[i] == messages[prefix + i]);
        assert(prefix <= prefix + i < cut);
    }
}

/// Nothing of the pending tool is left in the middle.
pub proof fn law_middle_has_no_pending(
    messages: Seq<WireMessageView>,
    keep_last: usize,
    pending: PendingToolView,
)
    ensures
        ({
            let split = split_of(messages, keep_last, Some(pending));
            forall|i: int|
                0 <= i < split.middle.len() ==> !concerns(
                    #[trigger] split.middle[i],
                    pending.tool_call_id,
                )
        }),
{
    lemma_lead_end(messages, 0);
    let prefix = lead_end(messages, 0);
    let first = first_cut(messages.len() as int, prefix, keep_last);
    lemma_chain_cut(messages, prefix, first);
    lemma_suffix_start(messages, keep_last, Some(pending));
    let cut = chain_cut(messages, prefix, first);
    lemma_pending_cut(messages, prefix, cut, pending.tool_call_id);
    let split = split_of(messages, keep_last, Some(pending));
    assert forall|i: int| 0 <= i < split.middle.len() implies !concerns(
        #[trigger] split.middle[i],
        pending.tool_call_id,
    ) by {
        assert(split.middle[i] == messages[prefix + i]);
    }
}

/// While anything is in the middle, every tool call of the suffix has its result in the suffix.
pub proof fn law_suffix_chains_closed(
    messages: Seq<WireMessageView>,
    keep_last: usize,
    pending: Option<PendingToolView>,
)
    requires
        split_of(messages, keep_last, pending).middle.len() > 0,
    ensures
        forall|i: int|
            suffix_start(messages, keep_last, pending) <= i < messages.len() && calls_tools(
                #[trigger] messages[i],
            ) ==> all_answered(messages, i),
{
    lemma_lead_end(messages, 0);
    let prefix = lead_end(messages, 0);
    let first = first_cut(messages.len() as int, prefix, keep_last);
    lemma_chain_cut(messages, prefix, first);
    lemma_suffix_start(messages, keep_last, pending);
    let cut = chain_cut(messages, prefix, first);
    if let Some(p) = pending {
        lemma_pending_cut(messages, prefix, cut, p.tool_call_id);
    }
    assert forall|i: int|
        suffix_start(messages, keep_last, pending) <= i < messages.len() && calls_tools(
            #[trigger] messages[i],
        ) implies all_answered(messages, i) by {
        if i < cut {
            assert(prefix <= i < cut);
        }
    }
}

/// The suffix keeps at least the last `keep_last` messages, as far as they are not leading ones.
pub proof fn law_suffix_keeps_last(
    messages: Seq<WireMessageView>,
    keep_last: usize,
    pending: Option<PendingToolView>,
    i: int,
)
    requires
        lead_end(messages, 0) <= i < messages.len(),
        i >= messages.len() - keep_last,
    ensures
        suffix_start(messages, keep_last, pending) <= i,
{
    lemma_lead_end(messages, 0);
    let prefix = lead_end(messages, 0);
    let first = first_cut(messages.len() as int, prefix, keep_last);
    lemma_chain_cut(messages, prefix, first);
    if let Some(p) = pending {
        lemma_pending_cut(
            messages,
            prefix,
            chain_cut(messages, prefix, first),
            p.tool_call_id,
        );
    }
}

fn is_answered(messages: &[WireMessage], from: usize, call_id: &str) -> (r: bool)
    requires
        from <= messages@.len(),
    ensures
        r == answered(messages.deep_view(), from as int, call_id@),
{
    let ghost all = messages.deep_view();
    let mut j: usize = from;
    while j < messages.len()
        invariant
            from <= j <= messages@.len(),
            all == messages.deep_view(),
            forall|k: int|
                from <= k < j ==> !((#[trigger] all[k]).role == Role::Tool && all[k].tool_call_id
                    == Some(call_id@)),
        decreases messages@.len() - j,
    {
        let m = &messages[j];
        assert(all[j as int] == m.deep_view());
        if m.role == Role::Tool {
            match &m.tool_call_id {
                Some(id) => {
                    if same(id.as_str(), call_id) {
                        return true;
                    }
                },
                None => {},
            }
        }
        j = j + 1;
    }
    false
}

/// Whether a cut at `suffix_start` would part tool calls from what belongs to them.
fn cutting_splits_open_tool_chain(
    messages: &[WireMessage],
    prefix_end: usize,
    suffix_start: usize,
) -> (r: bool)
    requires
        prefix_end <= suffix_start <= messages@.len(),
    ensures
        r == splits_chain(messages.deep_view(), prefix_end as int, suffix_start as int),
{
    let ghost all = messages.deep_view();
    let mut i: usize = prefix_end;
    while i < suffix_start
        invariant
            prefix_end <= i <= suffix_start <= messages@.len(),
            all == messages.deep_view(),
            forall|k: int| prefix_end <= k < i ==> !calls_tools(#[trigger] all[k]),
        decreases suffix_start - i,
    {
        assert(all[i as int] == messages@[i as int].deep_view());
        if messages[i].role == Role::Assistant && messages[i].tool_calls.is_some() {
            return true;
        }
        i = i + 1;
    }
    let mut i: usize = suffix_start;
    while i < messages.len()
        invariant
            prefix_end <= suffix_start <= i <= messages@.len(),
            all == messages.deep_view(),
            forall|k: int| prefix_end <= k < suffix_start ==> !calls_tools(#[trigger] all[k]),
            forall|k: int|
                suffix_start <= k < i && calls_tools(#[trigger] all[k]) ==> all_answered(all, k),
        decreases messages@.len() - i,
    {
        let m = &messages[i];
        assert(all[i as int] == m.deep_view());
        if m.role == Role::Assistant {
            match &m.tool_calls {
                Some(calls) => {
                    let len: usize = messages.len();
                    let mut c: usize = 0;
                    while c < calls.len()
                        invariant
                            c <= calls@.len(),
                            suffix_start <= i < messages@.len(),
                            len == messages@.len(),
                            all == messages.deep_view(),
                            all[i as int].tool_calls == Some(calls.deep_view()),
                            calls_tools(all[i as int]),
                            forall|k: int|
                                0 <= k < c ==> answered(
                                    all,
                                    i + 1,
                                    (#[trigger] all[i as int].tool_calls->0[k]).id,
                                ),
                        decreases calls@.len() - c,
                    {
                        assert(all[i as int].tool_calls->0[c as int] == calls@[c as int].deep_view());
                        if !is_answered(messages, i + 1, calls[c].id.as_str()) {
                            assert(!all_answered(all, i as int));
                            return true;
                        }
                        c = c + 1;
                    }
                },
                None => {},
            }
        }
        i = i + 1;
    }
    false
}

fn message_concerns(m: &WireMessage, call_id: &str) -> (r: bool)
    ensures
        r == concerns(m.deep_view(), call_id@),
{
    match &m.tool_call_id {
        Some(id) => {
            if same(id.as_str(), call_id) {
                return true;
            }
        },
        None => {},
    }
    match &m.tool_calls {
        Some(calls) => {
            let ghost all = calls.deep_view();
            assert(m.deep_view().tool_calls == Some(all));
            let mut c: usize = 0;
            while c < calls.len()
                invariant
                    c <= calls@.len(),
                    all == calls.deep_view(),
                    m.deep_view().tool_calls == Some(all),
                    forall|k: int| 0 <= k < c ==> (#[trigger] all[k]).id != call_id@,
                decreases calls@.len() - c,
            {
                assert(all[c as int] == calls@[c as int].deep_view());
                if same(calls[c].id.as_str(), call_id) {
                    assert(m.deep_view().tool_calls->0[c as int].id == call_id@);
                    return true;
                }
                c = c + 1;
            }
            false
        },
        None => false,
    }
}

/// Whether a message of `messages[start..end]` belongs to the pending tool.
fn middle_contains_pending(
    messages: &[WireMessage],
    start: usize,
    end: usize,
    pending: &PendingTool,
) -> (r: bool)
    requires
        start <= end <= messages@.len(),
    ensures
        r == any_concerns(
            messages.deep_view(),
            start as int,
            end as int,
            pending.deep_view().tool_call_id,
        ),
{
    let ghost all = messages.deep_view();
    let mut i: usize = start;
    while i < end
        invariant
            start <= i <= end <= messages@.len(),
            all == messages.deep_view(),
            forall|k: int|
                start <= k < i ==> !concerns(#[trigger] all[k], pending.tool_call_id@),
        decreases end - i,
    {
        assert(all[i as int] == messages@[i as int].deep_view());
        if message_concerns(&messages[i], pending.tool_call_id.as_str()) {
            return true;
        }
        i = i + 1;
    }
    false
}

/// Splits a context into the leading system messages, a middle that may be summarised, and a
/// suffix that is kept.
pub fn split_context(
    messages: &[WireMessage],
    keep_last: usize,
    pending: Option<&PendingTool>,
) -> (r: ContextSplit)
    ensures
        r.deep_view() == split_of(messages.deep_view(), keep_last, pending.deep_view()),
{
    let ghost all = messages.deep_view();
    let len: usize = messages.len();
    let mut prefix_end: usize = 0;
    while prefix_end < len && messages[prefix_end].role == Role::System && !starts_with(
        messages[prefix_end].content.as_str(),
        SUMMARY_PREFIX,
    )
        invariant
            prefix_end <= len == messages@.len(),
            all == messages.deep_view(),
            lead_end(all, 0) == lead_end(all, prefix_end as int),
        decreases len - prefix_end,
    {
        assert(all[prefix_end as int] == messages@[prefix_end as int].deep_view());
        prefix_end = prefix_end + 1;
    }
    proof {
        if prefix_end < len {
            assert(all[prefix_end as int] == messages@[prefix_end as int].deep_view());
        }
        lemma_suffix_start(all, keep_last, pending.deep_view());
    }
    let keep: usize = if keep_last < 1 {
        1
    } else {
        keep_last
    };
    let mut suffix: usize = len.saturating_sub(keep);
    if suffix < prefix_end {
        suffix = prefix_end;
    }
    let ghost first = suffix as int;
    while suffix > prefix_end && cutting_splits_open_tool_chain(messages, prefix_end, suffix)
        invariant
            prefix_end <= suffix <= len == messages@.len(),
            all == messages.deep_view(),
            chain_cut(all, prefix_end as int, first) == chain_cut(
                all,
                prefix_end as int,
                suffix as int,
            ),
        decreases suffix,
    {
        suffix = suffix - 1;
    }
    let ghost cut = suffix as int;
    match pending {
        Some(p) => {
            while suffix > prefix_end && middle_contains_pending(messages, prefix_end, suffix, p)
                invariant
                    prefix_end <= suffix <= len == messages@.len(),
                    all == messages.deep_view(),
                    pending_cut(all, prefix_end as int, cut, p.tool_call_id@) == pending_cut(
                        all,
                        prefix_end as int,
                        suffix as int,
                        p.tool_call_id@,
                    ),
                decreases suffix,
            {
                suffix = suffix - 1;
            }
        },
        None => {},
    }
    assert(suffix == suffix_start(all, keep_last, pending.deep_view()));
    let r = ContextSplit {
        prefix: dup_range(messages, 0, prefix_end),
        middle: dup_range(messages, prefix_end, suffix),
        suffix: dup_range(messages, suffix, len),
    };
    assert(r.deep_view().prefix =~= all.take(prefix_end as int));
    assert(r.deep_view().suffix =~= all.skip(suffix as int));
    r
}

pub open spec fn role_name(role: Role) -> Seq<char> {
    match role {
        Role::System => "system"@,
        Role::User => "user"@,
        Role::Assistant => "assistant"@,
        Role::Tool => "tool"@,
    }
}

/// The name of a role.
pub fn role_label(role: Role) -> (r: &'static str)
    ensures
        r@ == role_name(role),
{
    match role {
        Role::System => "system",
        Role::User => "user",
        Role::Assistant => "assistant",
        Role::Tool => "tool",
    }
}

/// The lines of a message in a transcript: who it is from and what it says, then its tool calls.
pub open spec fn message_lines(m: WireMessageView) -> Seq<Seq<char>> {
    let header = "["@ + role_name(m.role) + "]"@ + match m.name {
        Some(name) => " name="@ + name,
        None => Seq::empty(),
    } + match m.tool_call_id {
        Some(id) => " tool_call_id="@ + id,
        None => Seq::empty(),
    };
    let said = seq![header + "\n"@ + m.content];
    match m.tool_calls {
        Some(calls) => said.push("  tool_calls: "@ + calls_text(calls)),
        None => said,
    }
}

pub open spec fn transcript_lines(messages: Seq<WireMessageView>) -> Seq<Seq<char>>
    decreases messages.len(),
{
    if messages.len() == 0 {
        Seq::empty()
    } else {
        transcript_lines(messages.drop_last()) + message_lines(messages.last())
    }
}

/// The transcript of a part of a conversation.
pub open spec fn transcript(messages: Seq<WireMessageView>) -> Seq<char> {
    joined(transcript_lines(messages), "\n\n"@)
}

fn push_message_lines(lines: &mut Vec<String>, m: &WireMessage)
    ensures
        final(lines).deep_view() == old(lines).deep_view() + message_lines(m.deep_view()),
{
    let ghost before = lines.deep_view();
    let mut header = concat3("[", role_label(m.role), "]");
    let ghost head = header@;
    match &m.name {
        Some(name) => {
            header.append(concat(" name=", name.as_str()).as_str());
        },
        None => {
            assert(header@ =~= head + Seq::<char>::empty());
        },
    }
    let ghost named = header@;
    match &m.tool_call_id {
        Some(id) => {
            header.append(concat(" tool_call_id=", id.as_str()).as_str());
        },
        None => {
            assert(header@ =~= named + Seq::<char>::empty());
        },
    }
    let said = concat3(header.as_str(), "\n", m.content.as_str());
    push_last(lines, said);
    match &m.tool_calls {
        Some(calls) => {
            let text = calls_to_text(calls);
            push_last(lines, concat("  tool_calls: ", text.as_str()));
        },
        None => {},
    }
    assert(lines.deep_view() =~= before + message_lines(m.deep_view()));
}

/// The transcript of a part of a conversation.
pub fn format_middle_transcript(middle: &[WireMessage]) -> (r: String)
    ensures
        r@ == transcript(middle.deep_view()),
{
    let ghost all = middle.deep_view();
    let mut lines: Vec<String> = Vec::new();
    let mut i: usize = 0;
    assert(all.take(0) =~= Seq::<WireMessageView>::empty());
    assert(lines.deep_view() =~= Seq::<Seq<char>>::empty());
    while i < middle.len()
        invariant
            i <= middle@.len(),
            all == middle.deep_view(),
            lines.deep_view() == transcript_lines(all.take(i as int)),
        decreases middle@.len() - i,
    {
        proof {
            assert(all.take(i + 1).drop_last() =~= all.take(i as int));
            assert(all.take(i + 1).last() == middle@[i as int].deep_view());
        }
        push_message_lines(&mut lines, &middle[i]);
        i = i + 1;
    }
    assert(all.take(all.len() as int) =~= all);
    join(&lines, "\n\n")
}

/// What the model is asked, to summarise `middle`.
pub open spec fn summarizer_prompt(middle: Seq<WireMessageView>) -> Seq<WireMessageView> {
    seq![
        plain(Role::System, SUMMARIZER_SYSTEM_PROMPT@),
        plain(Role::User, transcript(middle)),
    ]
}

/// What the model is asked, to summarise `middle`.
pub fn build_summarizer_prompt(middle: &[WireMessage]) -> (r: Vec<WireMessage>)
    ensures
        r.deep_view() == summarizer_prompt(middle.deep_view()),
{
    let r = vec![
        plain_message(Role::System, SUMMARIZER_SYSTEM_PROMPT.to_owned()),
        plain_message(Role::User, format_middle_transcript(middle)),
    ];
    assert(r.deep_view() =~= summarizer_prompt(middle.deep_view()));
    r
}

/// The text of the last completed message before any error, or the first error.
pub open spec fn last_completed(items: Seq<ChunkResultView>) -> Result<Option<Seq<char>>, Seq<char>>
    decreases items.len(),
{
    if items.len() == 0 {
        Ok(None)
    } else {
        match last_completed(items.drop_last()) {
            Err(err) => Err(err),
            Ok(found) => match items.last() {
                Err(err) => Err(err),
                Ok(LlmChunkView::Completed { content, .. }) => Ok(Some(content)),
                Ok(_) => Ok(found),
            },
        }
    }
}

/// The text that a stream completes, unless it is blank.
pub open spec fn completed_text(items: Seq<ChunkResultView>) -> Result<Seq<char>, Seq<char>> {
    match last_completed(items) {
        Err(err) => Err(err),
        Ok(Some(text)) => if trimmed(text).len() > 0 {
            Ok(text)
        } else {
            Err("empty summary"@)
        },
        Ok(None) => Err("empty summary"@),
    }
}

pub open spec fn text_view(r: Result<String, String>) -> Result<Seq<char>, Seq<char>> {
    match r {
        Ok(s) => Ok(s@),
        Err(s) => Err(s@),
    }
}

/// The text that a stream completes. `items` are its items up to its end or its first error.
pub fn complete_text(items: &Vec<ChunkResult>) -> (r: Result<String, String>)
    ensures
        text_view(r) == completed_text(chunk_views(items@)),
{
    let ghost all = chunk_views(items@);
    let mut found: Option<String> = None;
    let mut i: usize = 0;
    assert(all.take(0) =~= Seq::<ChunkResultView>::empty());
    while i < items.len()
        invariant
            i <= items@.len(),
            all == chunk_views(items@),
            last_completed(all.take(i as int)) == Ok::<Option<Seq<char>>, Seq<char>>(
                found.deep_view(),
            ),
        decreases items@.len() - i,
    {
        proof {
            assert(all.take(i + 1).drop_last() =~= all.take(i as int));
            assert(all.take(i + 1).last() == chunk_view(items@[i as int]));
        }
        match &items[i] {
            Err(err) => {
                proof {
                    lemma_error_stays(all, i + 1);
                }
                return Err(err.dup());
            },
            Ok(LlmChunk::Completed { content, .. }) => {
                found = Some(content.dup());
            },
            Ok(_) => {},
        }
        i = i + 1;
    }
    assert(all.take(all.len() as int) =~= all);
    match found {
        Some(text) => {
            if trim(text.as_str()).as_str().is_empty() {
                Err("empty summary".to_owned())
            } else {
                Ok(text)
            }
        },
        None => Err("empty summary".to_owned()),
    }
}

proof fn lemma_error_stays(items: Seq<ChunkResultView>, k: int)
    requires
        0 <= k <= items.len(),
        last_completed(items.take(k)) is Err,
    ensures
        last_completed(items) == last_completed(items.take(k)),
    decreases items.len() - k,
{
    if k == items.len() {
        assert(items.take(k) =~= items);
    } else {
        assert(items.take(k + 1).drop_last() =~= items.take(k));
        lemma_error_stays(items, k + 1);
    }
}

/// What became of a context.
#[derive(Debug, PartialEq)]
pub enum SummarizeOutcome {
    Unchanged,
    Summarized {
        context: Vec<WireMessage>,
        before_tokens: u64,
        after_tokens: u64,
        kept_prefix: usize,
        kept_suffix: usize,
    },
}

/// What `SummarizeOutcome` is.
#[verifier::ext_equal]
pub enum SummarizeOutcomeView {
    Unchanged,
    Summarized {
        context: Seq<WireMessageView>,
        before_tokens: u64,
        after_tokens: u64,
        kept_prefix: usize,
        kept_suffix: usize,
    },
}

impl DeepView for SummarizeOutcome {
    type V = SummarizeOutcomeView;

    open spec fn deep_view(&self) -> SummarizeOutcomeView {
        match self {
            SummarizeOutcome::Unchanged => SummarizeOutcomeView::Unchanged,
            SummarizeOutcome::Summarized {
                context,
                before_tokens,
                after_tokens,
                kept_prefix,
                kept_suffix,
            } => SummarizeOutcomeView::Summarized {
                context: context.deep_view(),
                before_tokens: *before_tokens,
                after_tokens: *after_tokens,
                kept_prefix: *kept_prefix,
                kept_suffix: *kept_suffix,
            },
        }
    }
}

/// Why a context cannot be used.
#[derive(Debug, Clone, Copy, PartialEq, Eq, Structural)]
pub enum SummarizeError {
    ContextOverflow {
        before_tokens: u64,
        after_tokens: u64,
    },
}

/// The outcome of leaving a context as it is: an overflow if it has `max` tokens or more.
pub open spec fn kept(
    before: u64,
    messages: Seq<WireMessageView>,
    max: u64,
) -> Result<SummarizeOutcomeView, SummarizeError> {
    if tokens(messages) >= max {
        Err(
            SummarizeError::ContextOverflow {
                before_tokens: before,
                after_tokens: tokens(messages),
            },
        )
    } else {
        Ok(SummarizeOutcomeView::Unchanged)
    }
}

/// The context with `summary` in place of its middle.
pub open spec fn replaced(split: ContextSplitView, summary: Seq<char>) -> Seq<WireMessageView> {
    split.prefix.push(plain(Role::System, SUMMARY_PREFIX@ + "\n"@ + summary)) + split.suffix
}

/// Whether the model is to be asked for a summary.
pub open spec fn wants_summary(
    context: Seq<WireMessageView>,
    cfg: ContextConfig,
    pending: Option<PendingToolView>,
) -> bool {
    tokens(context) >= cfg.summarize_threshold_tokens && split_of(
        context,
        cfg.keep_last_messages,
        pending,
    ).middle.len() > 0
}

/// The outcome, given what the model replied where it was asked.
pub open spec fn summarized(
    context: Seq<WireMessageView>,
    cfg: ContextConfig,
    pending: Option<PendingToolView>,
    reply: Result<Seq<char>, Seq<char>>,
) -> Result<SummarizeOutcomeView, SummarizeError> {
    let before = tokens(context);
    let split = split_of(context, cfg.keep_last_messages, pending);
    if !wants_summary(context, cfg, pending) {
        kept(before, context, cfg.max_context_tokens)
    } else {
        match reply {
            Err(_) => kept(before, context, cfg.max_context_tokens),
            Ok(summary) => {
                let shorter = replaced(split, summary);
                if tokens(shorter) >= cfg.max_context_tokens {
                    Err(
                        SummarizeError::ContextOverflow {
                            before_tokens: before,
                            after_tokens: tokens(shorter),
                        },
                    )
                } else {
                    Ok(
                        SummarizeOutcomeView::Summarized {
                            context: shorter,
                            before_tokens: before,
                            after_tokens: tokens(shorter),
                            kept_prefix: split.prefix.len() as usize,
                            kept_suffix: split.suffix.len() as usize,
                        },
                    )
                }
            },
        }
    }
}

pub open spec fn outcome_view(r: Result<SummarizeOutcome, SummarizeError>) -> Result<
    SummarizeOutcomeView,
    SummarizeError,
> {
    match r {
        Ok(outcome) => Ok(outcome.deep_view()),
        Err(err) => Err(err),
    }
}

fn overflow_on_context(before: u64, messages: &[WireMessage], max: u64) -> (r: Result<
    SummarizeOutcome,
    SummarizeError,
>)
    ensures
        outcome_view(r) == kept(before, messages.deep_view(), max),
{
    let after: u64 = estimate_tokens(messages);
    if after >= max {
        Err(SummarizeError::ContextOverflow { before_tokens: before, after_tokens: after })
    } else {
        Ok(SummarizeOutcome::Unchanged)
    }
}

/// What the model is asked before `maybe_summarize`; `None` where it need not be asked.
pub open spec fn asked_for(
    context: Seq<WireMessageView>,
    cfg: ContextConfig,
    pending: Option<PendingToolView>,
) -> Option<Seq<WireMessageView>> {
    if wants_summary(context, cfg, pending) {
        Some(summarizer_prompt(split_of(context, cfg.keep_last_messages, pending).middle))
    } else {
        None
    }
}

/// What to ask the model before `maybe_summarize`; `None` where it need not be asked.
pub fn summary_request(
    context: &Vec<WireMessage>,
    cfg: &ContextConfig,
    pending: Option<&PendingTool>,
) -> (r: Option<Vec<WireMessage>>)
    ensures
        r.deep_view() == asked_for(context.deep_view(), *cfg, pending.deep_view()),
{
    if estimate_tokens(context.as_slice()) < cfg.summarize_threshold_tokens {
        return None;
    }
    let split = split_context(context.as_slice(), cfg.keep_last_messages, pending);
    assert(split.middle@.len() == split.middle.deep_view().len());
    if split.middle.len() == 0 {
        return None;
    }
    Some(build_summarizer_prompt(split.middle.as_slice()))
}

/// Summarises a context that has grown over the threshold. `reply` is the text with which the
/// model answered `summary_request`, or why there is none; it is not read where the model need
/// not be asked.
pub fn maybe_summarize(
    context: &Vec<WireMessage>,
    cfg: &ContextConfig,
    pending: Option<&PendingTool>,
    reply: Result<String, String>,
) -> (r: Result<SummarizeOutcome, SummarizeError>)
    ensures
        outcome_view(r) == summarized(
            context.deep_view(),
            *cfg,
            pending.deep_view(),
            text_view(reply),
        ),
{
    let before: u64 = estimate_tokens(context.as_slice());
    let max: u64 = cfg.max_context_tokens;
    if before < cfg.summarize_threshold_tokens {
        return overflow_on_context(before, context.as_slice(), max);
    }
    let split = split_context(context.as_slice(), cfg.keep_last_messages, pending);
    assert(split.middle@.len() == split.middle.deep_view().len());
    assert(split.prefix@.len() == split.prefix.deep_view().len());
    assert(split.suffix@.len() == split.suffix.deep_view().len());
    if split.middle.len() == 0 {
        return overflow_on_context(before, context.as_slice(), max);
    }
    match reply {
        Err(_) => overflow_on_context(before, context.as_slice(), max),
        Ok(summary) => {
            let kept_prefix: usize = split.prefix.len();
            let kept_suffix: usize = split.suffix.len();
            let mut shorter = split.prefix;
            let content = concat3(SUMMARY_PREFIX, "\n", summary.as_str());
            push_last(&mut shorter, plain_message(Role::System, content));
            push_all(&mut shorter, split.suffix);
            let after: u64 = estimate_tokens(shorter.as_slice());
            if after >= max {
                return Err(
                    SummarizeError::ContextOverflow { before_tokens: before, after_tokens: after },
                );
            }
            Ok(
                SummarizeOutcome::Summarized {
                    context: shorter,
                    before_tokens: before,
                    after_tokens: after,
                    kept_prefix,
                    kept_suffix,
                },
            )
        },
    }
}

/// A context that comes out of summarising is under the hard cap, and one that is left as it is
/// was under it.
pub proof fn law_summarized_is_under_cap(
    context: Seq<WireMessageView>,
    cfg: ContextConfig,
    pending: Option<PendingToolView>,
    reply: Result<Seq<char>, Seq<char>>,
)
    ensures
        match summarized(context, cfg, pending, reply) {
            Ok(SummarizeOutcomeView::Unchanged) => tokens(context) < cfg.max_context_tokens,
            Ok(SummarizeOutcomeView::Summarized { context: shorter, after_tokens, .. }) => tokens(
                shorter,
            ) == after_tokens && after_tokens < cfg.max_context_tokens,
            Err(SummarizeError::ContextOverflow { before_tokens, after_tokens }) => before_tokens
                == tokens(context) && after_tokens >= cfg.max_context_tokens,
        },
{
}

/// A summary keeps the leading system messages and the suffix as they were, with one message
/// between them that starts with the summary prefix.
pub proof fn law_summary_keeps_ends(
    context: Seq<WireMessageView>,
    cfg: ContextConfig,
    pending: Option<PendingToolView>,
    reply: Result<Seq<char>, Seq<char>>,
)
    ensures
        summarized(context, cfg, pending, reply) matches Ok(
            SummarizeOutcomeView::Summarized { context: shorter, kept_prefix, kept_suffix, .. },
        ) ==> {
            let split = split_of(context, cfg.keep_last_messages, pending);
            &&& shorter.len() == split.prefix.len() + 1 + split.suffix.len()
            &&& shorter.take(split.prefix.len() as int) == split.prefix
            &&& shorter.skip(split.prefix.len() as int + 1) == split.suffix
            &&& shorter[split.prefix.len() as int].role == Role::System
            &&& has_prefix(shorter[split.prefix.len() as int].content, SUMMARY_PREFIX@)
        },
{
    let split = split_of(context, cfg.keep_last_messages, pending);
    if let Ok(summary) = reply {
        let shorter = replaced(split, summary);
        assert(shorter.take(split.prefix.len() as int) =~= split.prefix);
        assert(shorter.skip(split.prefix.len() as int + 1) =~= split.suffix);
        let content = SUMMARY_PREFIX@ + "\n"@ + summary;
        assert(content.take(SUMMARY_PREFIX@.len() as int) =~= SUMMARY_PREFIX@);
    }
}

} // verus!
