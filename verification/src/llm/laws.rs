//! What holds of every stream of a provider and of every request to one.

use vstd::prelude::*;

use crate::json::{json_parsed, json_text, Json};
use crate::llm::chat::{chat_request_of, ChatMessageView};
use crate::llm::stream::{
    arguments_of, ascending, fresh_acc, law_fragments_keep_order, ok_items, with_fragment,
    with_fragments, MappedStreamView, PartialCallView, StreamAccView, StreamChoiceView,
    StreamInputView, StreamOutputView, StreamToolCallView,
};
use crate::llm::{turn_chunks, ChunkResultView, LlmChunkView, MockLlmView, MockTurnView};
use crate::protocol::{Role, ToolCallView, ToolDefView, WireMessageView};

verus! {

/// The text of an item that a reader sees.
pub open spec fn text_in(item: LlmChunkView) -> Seq<char> {
    match item {
        LlmChunkView::TextDelta(text) => text,
        _ => Seq::empty(),
    }
}

/// The text deltas among the items, one after the other.
pub open spec fn spoken(items: Seq<LlmChunkView>) -> Seq<char>
    decreases items.len(),
{
    if items.len() == 0 {
        Seq::empty()
    } else {
        spoken(items.drop_last()) + text_in(items.last())
    }
}

/// The text that a choice hands over.
pub open spec fn text_of(choice: StreamChoiceView) -> Seq<char> {
    match choice.content {
        Some(text) => text,
        None => Seq::empty(),
    }
}

/// The text that the choices hand over, one after the other.
pub open spec fn said(choices: Seq<StreamChoiceView>) -> Seq<char>
    decreases choices.len(),
{
    if choices.len() == 0 {
        Seq::empty()
    } else {
        said(choices.drop_last()) + text_of(choices.last())
    }
}

/// The fragments of tool calls that a choice hands over.
pub open spec fn fragments_of(choice: StreamChoiceView) -> Seq<StreamToolCallView> {
    match choice.tool_calls {
        Some(fragments) => fragments,
        None => Seq::empty(),
    }
}

/// The fragments of tool calls that the choices hand over, in order.
pub open spec fn fragments_in(choices: Seq<StreamChoiceView>) -> Seq<StreamToolCallView>
    decreases choices.len(),
{
    if choices.len() == 0 {
        Seq::empty()
    } else {
        fragments_in(choices.drop_last()) + fragments_of(choices.last())
    }
}

proof fn lemma_spoken_concat(a: Seq<LlmChunkView>, b: Seq<LlmChunkView>)
    ensures
        spoken(a + b) == spoken(a) + spoken(b),
    decreases b.len(),
{
    if b.len() == 0 {
        assert(a + b =~= a);
        assert(spoken(a) + spoken(b) =~= spoken(a));
    } else {
        assert((a + b).drop_last() =~= a + b.drop_last());
        lemma_spoken_concat(a, b.drop_last());
        assert(spoken(a) + spoken(b.drop_last()) + text_in(b.last()) =~= spoken(a) + (spoken(
            b.drop_last(),
        ) + text_in(b.last())));
    }
}

/// What is handed over and what is gathered of one choice: its text comes out once, unless it is
/// empty; its finish reason completes the message, once; and the message has every call of which a
/// fragment came.
pub proof fn law_choice_comes_out(acc: StreamAccView, choice: StreamChoiceView)
    ensures
        ({
            let (end, items) = acc.choice(choice);
            let completes = choice.finish_reason is Some && !acc.completed;
            &&& spoken(items) == text_of(choice)
            &&& end.content == acc.content + text_of(choice)
            &&& end.completed == (acc.completed || completes)
            &&& end.tools == with_fragments(acc.tools, fragments_of(choice))
            &&& items.len() == (if text_of(choice).len() > 0 {
                1int
            } else {
                0
            }) + (if completes {
                1int
            } else {
                0
            })
            &&& completes ==> is_message_of(
                items.last(),
                end.content,
                end.tools,
            )
            &&& forall|i: int|
                0 <= i < items.len() - (if completes {
                    1int
                } else {
                    0
                }) ==> #[trigger] items[i] == LlmChunkView::TextDelta(text_of(choice))
        }),
{
    let (end, items) = acc.choice(choice);
    reveal_with_fuel(spoken, 3);
    assert(with_fragments(acc.tools, Seq::empty()) == acc.tools);
    if items.len() == 1 {
        assert(items.drop_last() =~= Seq::<LlmChunkView>::empty());
    } else if items.len() == 2 {
        assert(items.drop_last() =~= seq![items[0]]);
        assert(items.drop_last().drop_last() =~= Seq::<LlmChunkView>::empty());
    }
    assert(spoken(items) =~= text_of(choice));
    assert(acc.content + text_of(choice) =~= end.content);
}

/// Whether an item is the completed message of a text and of gathered calls: it has them all, each
/// in its place, with the arguments that its text stands for.
pub open spec fn is_message_of(
    item: LlmChunkView,
    text: Seq<char>,
    gathered: Seq<PartialCallView>,
) -> bool {
    match item {
        LlmChunkView::Completed { content, tool_calls, reasoning_content } => {
            &&& content == text
            &&& reasoning_content is None
            &&& tool_calls.len() == gathered.len()
            &&& forall|k: int|
                0 <= k < gathered.len() ==> {
                    &&& (#[trigger] tool_calls[k]).id == gathered[k].id
                    &&& tool_calls[k].name == gathered[k].name
                    &&& reads_as(gathered[k].arguments, tool_calls[k].arguments)
                }
        },
        _ => false,
    }
}

/// Whether a text of arguments stands for a value: an empty text for an empty object, JSON for what
/// it says, and anything else for itself.
pub open spec fn reads_as(raw: Seq<char>, value: Json) -> bool {
    if raw.len() == 0 {
        value == Json::Obj(Seq::empty())
    } else if json_parsed(raw) is Some {
        json_parsed(raw) == Some(value)
    } else {
        value == Json::Str(raw)
    }
}

/// The arguments of a call are what its text stands for.
pub proof fn law_arguments_read(raw: Seq<char>)
    ensures
        reads_as(raw, arguments_of(raw)),
{
}

/// The completed message has all the text and all the calls that were gathered.
pub proof fn law_message_has_all(acc: StreamAccView)
    ensures
        is_message_of(acc.message(), acc.content, acc.tools),
{
}

/// Whether each completed message among the items has the text that came out before it, after
/// `before`.
pub open spec fn messages_have_their_text(before: Seq<char>, items: Seq<LlmChunkView>) -> bool {
    forall|i: int|
        0 <= i < items.len() ==> ((#[trigger] items[i]) matches LlmChunkView::Completed {
            content,
            ..
        } ==> content == before + spoken(items.take(i)))
}

/// All the text that the choices hand over comes out, in order, and the content of a completed
/// message is the text that came out before it, whatever tool calls came with it.
pub proof fn law_content_is_the_text(acc: StreamAccView, choices: Seq<StreamChoiceView>)
    ensures
        ({
            let (end, items) = acc.choices(choices);
            &&& spoken(items) == said(choices)
            &&& end.content == acc.content + spoken(items)
            &&& end.tools == with_fragments(acc.tools, fragments_in(choices))
            &&& messages_have_their_text(acc.content, items)
        }),
    decreases choices.len(),
{
    let (end, items) = acc.choices(choices);
    if choices.len() == 0 {
        assert(acc.content + spoken(items) =~= acc.content);
    } else {
        let (mid, before) = acc.choices(choices.drop_last());
        let (_, more) = mid.choice(choices.last());
        law_content_is_the_text(acc, choices.drop_last());
        law_choice_comes_out(mid, choices.last());
        lemma_spoken_concat(before, more);
        law_fragments_are_gathered_in_order(
            acc.tools,
            fragments_in(choices.drop_last()),
            fragments_of(choices.last()),
        );
        assert(acc.content + spoken(before) + text_of(choices.last()) =~= acc.content + (spoken(
            before,
        ) + text_of(choices.last())));
        assert forall|i: int| 0 <= i < items.len() implies ((#[trigger] items[i]) matches LlmChunkView::Completed {
            content,
            ..
        } ==> content == acc.content + spoken(items.take(i))) by {
            if i < before.len() {
                assert(items[i] == before[i]);
                assert(items.take(i) =~= before.take(i));
            } else {
                let k = i - before.len();
                assert(items[i] == more[k]);
                assert(items.take(i) =~= before + more.take(k));
                lemma_spoken_concat(before, more.take(k));
                if items[i] is Completed {
                    assert(k == more.len() - 1);
                    assert(more.take(k) =~= more.drop_last());
                    assert(spoken(more) =~= spoken(more.drop_last()));
                }
            }
        }
    }
}

/// Fragments that come in two parts make the calls that they make together.
pub proof fn law_fragments_are_gathered_in_order(
    calls: Seq<PartialCallView>,
    a: Seq<StreamToolCallView>,
    b: Seq<StreamToolCallView>,
)
    ensures
        with_fragments(with_fragments(calls, a), b) == with_fragments(calls, a + b),
    decreases b.len(),
{
    if b.len() == 0 {
        assert(a + b =~= a);
    } else {
        assert((a + b).drop_last() =~= a + b.drop_last());
        law_fragments_are_gathered_in_order(calls, a, b.drop_last());
    }
}

/// The arguments that the fragments with an index hand over, one after the other.
pub open spec fn arguments_for(fragments: Seq<StreamToolCallView>, index: u32) -> Seq<char>
    decreases fragments.len(),
{
    if fragments.len() == 0 {
        Seq::empty()
    } else {
        let before = arguments_for(fragments.drop_last(), index);
        if fragments.last().index != index {
            before
        } else {
            match fragments.last().arguments {
                Some(more) => before + more,
                None => before,
            }
        }
    }
}

/// The last id that a fragment with an index hands over, or an empty one.
pub open spec fn id_for(fragments: Seq<StreamToolCallView>, index: u32) -> Seq<char>
    decreases fragments.len(),
{
    if fragments.len() == 0 {
        Seq::empty()
    } else if fragments.last().index == index && fragments.last().id is Some {
        fragments.last().id->0
    } else {
        id_for(fragments.drop_last(), index)
    }
}

/// The last name that a fragment with an index hands over, or an empty one.
pub open spec fn name_for(fragments: Seq<StreamToolCallView>, index: u32) -> Seq<char>
    decreases fragments.len(),
{
    if fragments.len() == 0 {
        Seq::empty()
    } else if fragments.last().index == index && fragments.last().name is Some {
        fragments.last().name->0
    } else {
        name_for(fragments.drop_last(), index)
    }
}

/// Whether a fragment with an index is among the fragments.
pub open spec fn mentions(fragments: Seq<StreamToolCallView>, index: u32) -> bool {
    exists|j: int| 0 <= j < fragments.len() && (#[trigger] fragments[j]).index == index
}

/// Whether there is a call with an index.
pub open spec fn has_index(calls: Seq<PartialCallView>, index: u32) -> bool {
    exists|k: int| 0 <= k < calls.len() && (#[trigger] calls[k]).index == index
}

/// A fragment changes the call with its index, or makes it, and no other.
proof fn lemma_fragment_goes_to_its_call(
    calls: Seq<PartialCallView>,
    fragment: StreamToolCallView,
)
    requires
        ascending(calls),
    ensures
        forall|index: u32| #[trigger]
            has_index(with_fragment(calls, fragment), index) <==> has_index(calls, index) || index
                == fragment.index,
        forall|k: int|
            0 <= k < with_fragment(calls, fragment).len() && (#[trigger] with_fragment(
                calls,
                fragment,
            )[k]).index != fragment.index ==> calls.contains(with_fragment(calls, fragment)[k]),
        forall|k: int|
            0 <= k < with_fragment(calls, fragment).len() && (#[trigger] with_fragment(
                calls,
                fragment,
            )[k]).index == fragment.index ==> {
                let got = with_fragment(calls, fragment)[k];
                ||| exists|m: int|
                    0 <= m < calls.len() && (#[trigger] calls[m]).index == fragment.index && got
                        == grown(calls[m], fragment)
                ||| !has_index(calls, fragment.index) && got == grown(blank(fragment.index), fragment)
            },
    decreases calls.len(),
{
    let r = with_fragment(calls, fragment);
    if calls.len() == 0 || fragment.index < calls[0].index {
        assert(!has_index(calls, fragment.index)) by {
            if has_index(calls, fragment.index) {
                let k = choose|k: int|
                    0 <= k < calls.len() && (#[trigger] calls[k]).index == fragment.index;
                assert(calls[0].index <= calls[k].index);
            }
        }
        assert(r[0] == grown(blank(fragment.index), fragment));
        assert forall|k: int| 0 < k < r.len() implies #[trigger] r[k] == calls[k - 1] && calls.contains(
            r[k],
        ) && r[k].index != fragment.index by {
            assert(calls[0].index <= calls[k - 1].index);
        }
        assert forall|index: u32| #[trigger] has_index(r, index) <==> has_index(calls, index)
            || index == fragment.index by {
            if has_index(calls, index) {
                let k = choose|k: int| 0 <= k < calls.len() && (#[trigger] calls[k]).index == index;
                assert(r[k + 1].index == index);
            }
            if index == fragment.index {
                assert(r[0].index == index);
            }
            if has_index(r, index) {
                let k = choose|k: int| 0 <= k < r.len() && (#[trigger] r[k]).index == index;
                if k > 0 {
                    assert(calls[k - 1].index == index);
                }
            }
        }
    } else if calls[0].index == fragment.index {
        assert(r[0] == grown(calls[0], fragment));
        assert forall|k: int| 0 < k < r.len() implies #[trigger] r[k] == calls[k] && calls.contains(
            r[k],
        ) && r[k].index != fragment.index by {
            assert(calls.skip(1)[k - 1] == calls[k]);
            assert(calls[0].index < calls[k].index);
        }
        assert forall|index: u32| #[trigger] has_index(r, index) <==> has_index(calls, index)
            || index == fragment.index by {
            if has_index(calls, index) {
                let k = choose|k: int| 0 <= k < calls.len() && (#[trigger] calls[k]).index == index;
                assert(r[k].index == index);
            }
            if has_index(r, index) {
                let k = choose|k: int| 0 <= k < r.len() && (#[trigger] r[k]).index == index;
                assert(calls[k].index == index);
            }
            if index == fragment.index {
                assert(r[0].index == index);
            }
        }
    } else {
        let tail = calls.skip(1);
        let rest = with_fragment(tail, fragment);
        assert(ascending(tail)) by {
            assert forall|i: int, j: int| 0 <= i < j < tail.len() implies tail[i].index
                < tail[j].index by {
                assert(tail[i] == calls[i + 1] && tail[j] == calls[j + 1]);
            }
        }
        lemma_fragment_goes_to_its_call(tail, fragment);
        assert(has_index(calls, fragment.index) ==> has_index(tail, fragment.index)) by {
            if has_index(calls, fragment.index) {
                let k = choose|k: int|
                    0 <= k < calls.len() && (#[trigger] calls[k]).index == fragment.index;
                assert(tail[k - 1].index == fragment.index);
            }
        }
        assert forall|k: int| 0 <= k < r.len() && (#[trigger] r[k]).index != fragment.index implies calls.contains(
            r[k],
        ) by {
            if k == 0 {
                assert(calls[0] == r[0]);
            } else {
                assert(r[k] == rest[k - 1]);
                assert(tail.contains(rest[k - 1]));
                let m = choose|m: int| 0 <= m < tail.len() && tail[m] == rest[k - 1];
                assert(calls[m + 1] == r[k]);
            }
        }
        assert forall|k: int| 0 <= k < r.len() && (#[trigger] r[k]).index == fragment.index implies {
            ||| exists|m: int|
                0 <= m < calls.len() && (#[trigger] calls[m]).index == fragment.index && r[k]
                    == grown(calls[m], fragment)
            ||| !has_index(calls, fragment.index) && r[k] == grown(blank(fragment.index), fragment)
        } by {
            assert(r[k] == rest[k - 1]);
            if has_index(tail, fragment.index) {
                let m = choose|m: int|
                    0 <= m < tail.len() && (#[trigger] tail[m]).index == fragment.index
                        && rest[k - 1] == grown(tail[m], fragment);
                assert(calls[m + 1].index == fragment.index && r[k] == grown(
                    calls[m + 1],
                    fragment,
                ));
            }
        }
        assert forall|index: u32| #[trigger] has_index(r, index) <==> has_index(calls, index)
            || index == fragment.index by {
            if has_index(calls, index) {
                let k = choose|k: int| 0 <= k < calls.len() && (#[trigger] calls[k]).index == index;
                if k == 0 {
                    assert(r[0].index == index);
                } else {
                    assert(tail[k - 1].index == index);
                    assert(has_index(tail, index));
                    assert(has_index(rest, index));
                }
            }
            if has_index(rest, index) {
                let k = choose|k: int| 0 <= k < rest.len() && (#[trigger] rest[k]).index == index;
                assert(r[k + 1].index == index);
            }
            if index == fragment.index {
                assert(has_index(rest, index));
            }
            if has_index(r, index) {
                let k = choose|k: int| 0 <= k < r.len() && (#[trigger] r[k]).index == index;
                if k == 0 {
                    assert(calls[0].index == index);
                } else {
                    assert(rest[k - 1].index == index);
                    assert(has_index(rest, index));
                    if has_index(tail, index) {
                        let m = choose|m: int|
                            0 <= m < tail.len() && (#[trigger] tail[m]).index == index;
                        assert(calls[m + 1].index == index);
                    }
                }
            }
        }
    }
}

/// A call of which nothing has come.
spec fn blank(index: u32) -> PartialCallView {
    PartialCallView {
        index,
        id: Seq::empty(),
        name: Seq::empty(),
        arguments: Seq::empty(),
    }
}

/// A call with one more fragment.
spec fn grown(call: PartialCallView, fragment: StreamToolCallView) -> PartialCallView {
    call.plus(fragment)
}

/// The gathered calls are exactly those of which a fragment came, in ascending order of their
/// indices; each has the last id and the last name that came for it, and all the arguments that
/// came for it, in order.
pub proof fn law_fragments_make_calls(fragments: Seq<StreamToolCallView>)
    ensures
        ({
            let calls = with_fragments(Seq::empty(), fragments);
            &&& ascending(calls)
            &&& forall|index: u32| #[trigger] has_index(calls, index) <==> mentions(fragments, index)
            &&& forall|k: int|
                0 <= k < calls.len() ==> {
                    &&& (#[trigger] calls[k]).id == id_for(fragments, calls[k].index)
                    &&& calls[k].name == name_for(fragments, calls[k].index)
                    &&& calls[k].arguments == arguments_for(fragments, calls[k].index)
                }
        }),
    decreases fragments.len(),
{
    let calls = with_fragments(Seq::empty(), fragments);
    if fragments.len() == 0 {
        assert forall|index: u32| #[trigger] has_index(calls, index) <==> mentions(fragments, index) by {}
    } else {
        let less = fragments.drop_last();
        let fragment = fragments.last();
        let before = with_fragments(Seq::empty(), less);
        law_fragments_make_calls(less);
        law_fragments_keep_order(before, fragment);
        lemma_fragment_goes_to_its_call(before, fragment);
        assert forall|index: u32| #[trigger] has_index(calls, index) <==> mentions(
            fragments,
            index,
        ) by {
            if mentions(less, index) {
                let j = choose|j: int| 0 <= j < less.len() && (#[trigger] less[j]).index == index;
                assert(fragments[j].index == index);
            }
            if mentions(fragments, index) && index != fragment.index {
                let j = choose|j: int|
                    0 <= j < fragments.len() && (#[trigger] fragments[j]).index == index;
                assert(less[j].index == index);
            }
            if index == fragment.index {
                assert(fragments[fragments.len() - 1].index == index);
            }
            assert(has_index(before, index) <==> mentions(less, index));
        }
        lemma_unmentioned(less, fragment.index);
        assert forall|k: int| 0 <= k < calls.len() implies {
            &&& (#[trigger] calls[k]).id == id_for(fragments, calls[k].index)
            &&& calls[k].name == name_for(fragments, calls[k].index)
            &&& calls[k].arguments == arguments_for(fragments, calls[k].index)
        } by {
            let call = calls[k];
            if call.index != fragment.index {
                assert(before.contains(call));
                let m = choose|m: int| 0 <= m < before.len() && before[m] == call;
                assert(before[m].id == id_for(less, call.index));
            } else if has_index(before, fragment.index) {
                let m = choose|m: int|
                    0 <= m < before.len() && (#[trigger] before[m]).index == fragment.index && call
                        == grown(before[m], fragment);
                assert(before[m].id == id_for(less, call.index));
            } else {
                assert(!mentions(less, fragment.index)) by {
                    assert(has_index(before, fragment.index) <==> mentions(less, fragment.index));
                }
                assert(call == grown(blank(fragment.index), fragment));
                if let Some(more) = fragment.arguments {
                    assert(Seq::<char>::empty() + more =~= more);
                }
            }
        }
    }
}

proof fn lemma_unmentioned(fragments: Seq<StreamToolCallView>, index: u32)
    ensures
        !mentions(fragments, index) ==> id_for(fragments, index) == Seq::<char>::empty()
            && name_for(fragments, index) == Seq::<char>::empty() && arguments_for(fragments, index)
            == Seq::<char>::empty(),
    decreases fragments.len(),
{
    if fragments.len() > 0 && !mentions(fragments, index) {
        let less = fragments.drop_last();
        assert(fragments[fragments.len() - 1].index != index);
        assert(!mentions(less, index)) by {
            if mentions(less, index) {
                let j = choose|j: int| 0 <= j < less.len() && (#[trigger] less[j]).index == index;
                assert(fragments[j].index == index);
            }
        }
        lemma_unmentioned(less, index);
    }
}

/// The text deltas among what a stream gives, one after the other.
pub open spec fn heard(items: Seq<ChunkResultView>) -> Seq<char>
    decreases items.len(),
{
    if items.len() == 0 {
        Seq::empty()
    } else {
        heard(items.drop_last()) + match items.last() {
            Ok(item) => text_in(item),
            Err(_) => Seq::empty(),
        }
    }
}

/// The choices that a provider hands over.
pub open spec fn handed_over(inputs: Seq<StreamInputView>) -> Seq<StreamChoiceView>
    decreases inputs.len(),
{
    if inputs.len() == 0 {
        Seq::empty()
    } else {
        handed_over(inputs.drop_last()) + match inputs.last() {
            StreamInputView::Chunk(chunk) => chunk.choices,
            _ => Seq::empty(),
        }
    }
}

/// A stream after the provider has handed over `inputs`, before anything is read.
pub open spec fn streamed(inputs: Seq<StreamInputView>) -> MappedStreamView
    decreases inputs.len(),
{
    if inputs.len() == 0 {
        MappedStreamView { acc: fresh_acc(), pending: Seq::empty(), ended: false }
    } else {
        streamed(inputs.drop_last()).fed(inputs.last())
    }
}

proof fn lemma_heard_concat(a: Seq<ChunkResultView>, b: Seq<ChunkResultView>)
    ensures
        heard(a + b) == heard(a) + heard(b),
    decreases b.len(),
{
    if b.len() == 0 {
        assert(a + b =~= a);
        assert(heard(a) + heard(b) =~= heard(a));
    } else {
        assert((a + b).drop_last() =~= a + b.drop_last());
        lemma_heard_concat(a, b.drop_last());
        let last = match b.last() {
            Ok(item) => text_in(item),
            Err(_) => Seq::empty(),
        };
        assert(heard(a) + heard(b.drop_last()) + last =~= heard(a) + (heard(b.drop_last()) + last));
    }
}

proof fn lemma_heard_items(items: Seq<LlmChunkView>)
    ensures
        heard(ok_items(items)) == spoken(items),
    decreases items.len(),
{
    if items.len() > 0 {
        let all = ok_items(items);
        assert(all.drop_last() =~= ok_items(items.drop_last()));
        lemma_heard_items(items.drop_last());
    }
}

proof fn lemma_said_concat(a: Seq<StreamChoiceView>, b: Seq<StreamChoiceView>)
    ensures
        said(a + b) == said(a) + said(b),
        fragments_in(a + b) == fragments_in(a) + fragments_in(b),
    decreases b.len(),
{
    if b.len() == 0 {
        assert(a + b =~= a);
        assert(said(a) + said(b) =~= said(a));
        assert(fragments_in(a) + fragments_in(b) =~= fragments_in(a));
    } else {
        assert((a + b).drop_last() =~= a + b.drop_last());
        lemma_said_concat(a, b.drop_last());
        assert(said(a) + said(b.drop_last()) + text_of(b.last()) =~= said(a) + (said(b.drop_last())
            + text_of(b.last())));
        assert(fragments_in(a) + fragments_in(b.drop_last()) + fragments_of(b.last())
            =~= fragments_in(a) + (fragments_in(b.drop_last()) + fragments_of(b.last())));
    }
}

/// Whether each completed message among the items has the text that came out before it.
pub open spec fn completed_with_their_text(items: Seq<ChunkResultView>) -> bool {
    forall|i: int|
        0 <= i < items.len() ==> ((#[trigger] items[i]) matches Ok(
            LlmChunkView::Completed { content, .. },
        ) ==> content == heard(items.take(i)))
}

/// A stream hands on all the text of its provider, in order, and completes with exactly the text
/// that it handed on before, whatever tool calls came with it. It gathers every fragment.
pub proof fn law_stream_completes_with_its_text(inputs: Seq<StreamInputView>)
    ensures
        heard(streamed(inputs).pending) == said(handed_over(inputs)),
        completed_with_their_text(streamed(inputs).pending),
        streamed(inputs).acc.content == said(handed_over(inputs)),
        streamed(inputs).acc.tools == with_fragments(
            Seq::empty(),
            fragments_in(handed_over(inputs)),
        ),
    decreases inputs.len(),
{
    let end = streamed(inputs);
    if inputs.len() > 0 {
        let less = inputs.drop_last();
        let before = streamed(less);
        law_stream_completes_with_its_text(less);
        match inputs.last() {
            StreamInputView::Chunk(chunk) => {
                let items = before.acc.choices(chunk.choices).1;
                let more = ok_items(items);
                law_content_is_the_text(before.acc, chunk.choices);
                lemma_heard_concat(before.pending, more);
                lemma_heard_items(items);
                lemma_said_concat(handed_over(less), chunk.choices);
                law_fragments_are_gathered_in_order(
                    Seq::empty(),
                    fragments_in(handed_over(less)),
                    fragments_in(chunk.choices),
                );
                assert forall|i: int| 0 <= i < end.pending.len() implies ((
                #[trigger] end.pending[i]) matches Ok(LlmChunkView::Completed { content, .. })
                    ==> content == heard(end.pending.take(i))) by {
                    if i < before.pending.len() {
                        assert(end.pending[i] == before.pending[i]);
                        assert(end.pending.take(i) =~= before.pending.take(i));
                    } else {
                        let k = i - before.pending.len();
                        assert(end.pending[i] == more[k]);
                        assert(more[k] == Ok::<LlmChunkView, Seq<char>>(items[k]));
                        assert(end.pending.take(i) =~= before.pending + more.take(k));
                        assert(more.take(k) =~= ok_items(items.take(k)));
                        lemma_heard_concat(before.pending, more.take(k));
                        lemma_heard_items(items.take(k));
                    }
                }
            },
            _ => {
                assert(handed_over(less) + Seq::<StreamChoiceView>::empty() =~= handed_over(less));
                assert(end.pending.len() > before.pending.len() ==> end.pending.drop_last()
                    =~= before.pending);
                assert(heard(before.pending) + Seq::<char>::empty() =~= heard(before.pending));
                assert forall|i: int| 0 <= i < end.pending.len() implies ((
                #[trigger] end.pending[i]) matches Ok(LlmChunkView::Completed { content, .. })
                    ==> content == heard(end.pending.take(i))) by {
                    assert(end.pending.take(i) =~= before.pending.take(i));
                    if i == before.pending.len() {
                        assert(before.pending.take(i) =~= before.pending);
                    } else {
                        assert(end.pending[i] == before.pending[i]);
                    }
                }
            },
        }
    }
}

/// The end of the provider ends the stream, and so does its failure, which is told; nothing else
/// does. What was ready stays ready, in front.
pub proof fn law_provider_ends_the_stream(stream: MappedStreamView, input: StreamInputView)
    ensures
        stream.fed(input).ended == (stream.ended || !(input is Chunk)),
        stream.pending.is_prefix_of(stream.fed(input).pending),
        input matches StreamInputView::Failed(err) ==> stream.fed(input).pending.len()
            == stream.pending.len() + 1 && stream.fed(input).pending.last() == Err::<
            LlmChunkView,
            Seq<char>,
        >(err),
        input is End && !stream.acc.completed ==> stream.fed(input).pending.len()
            == stream.pending.len() + 1 && (stream.fed(input).pending.last() matches Ok(item)
            && is_message_of(item, stream.acc.content, stream.acc.tools)),
        input is End && stream.acc.completed ==> stream.fed(input).pending == stream.pending,
{
}

/// Items are read in the order in which they came, each once, and reading one makes no difference
/// to what comes later.
pub proof fn law_items_are_read_in_order(stream: MappedStreamView, input: StreamInputView)
    ensures
        stream.pending.len() > 0 ==> {
            &&& stream.output() matches StreamOutputView::Item(item)
            &&& seq![item] + stream.read().pending == stream.pending
            &&& stream.read().fed(input) == stream.fed(input).read()
        },
        stream.pending.len() == 0 ==> stream.output() == if stream.ended {
            StreamOutputView::End
        } else {
            StreamOutputView::Wait
        },
        stream.read().ended == stream.ended,
        stream.read().acc == stream.acc,
{
    if stream.pending.len() > 0 {
        assert(seq![stream.pending[0]] + stream.read().pending =~= stream.pending);
        assert(stream.read().fed(input).pending =~= stream.fed(input).read().pending);
    }
}

/// Who speaks in a chat message.
pub open spec fn speaker(m: ChatMessageView) -> Role {
    match m {
        ChatMessageView::System { .. } => Role::System,
        ChatMessageView::User { .. } => Role::User,
        ChatMessageView::Assistant { .. } => Role::Assistant,
        ChatMessageView::Tool { .. } => Role::Tool,
    }
}

/// What a chat message says.
pub open spec fn wording(m: ChatMessageView) -> Option<Seq<char>> {
    match m {
        ChatMessageView::System { content, .. } => Some(content),
        ChatMessageView::User { content, .. } => Some(content),
        ChatMessageView::Assistant { content, .. } => content,
        ChatMessageView::Tool { content, .. } => Some(content),
    }
}

/// The name in a chat message.
pub open spec fn name_in(m: ChatMessageView) -> Option<Seq<char>> {
    match m {
        ChatMessageView::System { name, .. } => name,
        ChatMessageView::User { name, .. } => name,
        ChatMessageView::Assistant { name, .. } => name,
        ChatMessageView::Tool { name, .. } => name,
    }
}

/// A request has the model that was named and one chat message for each message, at its place:
/// with the same speaker, the same words and the same name. A tool result names its call, and an
/// assistant message has its calls, each with its id, its name and its arguments as JSON, and its
/// thinking exactly where it made calls.
pub proof fn law_request_has_the_conversation(
    model: Seq<char>,
    messages: Seq<WireMessageView>,
    tools: Seq<ToolDefView>,
)
    ensures
        ({
            let request = chat_request_of(model, messages, tools);
            &&& request.model == model
            &&& request.messages.len() == messages.len()
            &&& forall|i: int|
                0 <= i < messages.len() ==> {
                    &&& speaker(#[trigger] request.messages[i]) == messages[i].role
                    &&& wording(request.messages[i]) == Some(messages[i].content)
                    &&& name_in(request.messages[i]) == messages[i].name
                    &&& request.messages[i] matches ChatMessageView::Tool { tool_call_id, .. }
                        ==> (messages[i].tool_call_id matches Some(id) ==> tool_call_id == id) && (
                    messages[i].tool_call_id is None ==> tool_call_id.len() == 0)
                    &&& request.messages[i] matches ChatMessageView::Assistant {
                        tool_calls,
                        reasoning_content,
                        ..
                    } ==> (match (messages[i].tool_calls, tool_calls) {
                        (None, None) => reasoning_content is None,
                        (Some(calls), Some(sent)) => {
                            &&& reasoning_content == messages[i].reasoning_content
                            &&& sent.len() == calls.len()
                            &&& forall|k: int|
                                0 <= k < calls.len() ==> (#[trigger] sent[k]).id == calls[k].id
                                    && sent[k].name == calls[k].name && sent[k].arguments
                                    == json_text(calls[k].arguments)
                        },
                        _ => false,
                    })
                }
        }),
{
}

/// A request names the functions of its tools: as many as there are tools, and at each place the
/// name, the description and the parameters of the tool at that place. Without tools it names none.
pub proof fn law_request_names_the_tools(
    model: Seq<char>,
    messages: Seq<WireMessageView>,
    tools: Seq<ToolDefView>,
)
    ensures
        match chat_request_of(model, messages, tools).tools {
            None => tools.len() == 0,
            Some(functions) => {
                &&& functions.len() > 0
                &&& functions.len() == tools.len()
                &&& forall|i: int|
                    0 <= i < tools.len() ==> (#[trigger] functions[i]).name == tools[i].name
                        && functions[i].description == Some(tools[i].description)
                        && functions[i].parameters == tools[i].parameters
            },
        },
{
}

/// A scripted turn streams its deltas, in order, and then one message with its content and its
/// calls.
pub proof fn law_scripted_turn_is_played(
    content: Seq<char>,
    deltas: Seq<Seq<char>>,
    tool_calls: Seq<ToolCallView>,
)
    ensures
        ({
            let items = turn_chunks(MockTurnView::WithToolCalls { content, deltas, tool_calls });
            &&& items.len() == deltas.len() + 1
            &&& forall|i: int|
                0 <= i < deltas.len() ==> #[trigger] items[i] == Ok::<LlmChunkView, Seq<char>>(
                    LlmChunkView::TextDelta(deltas[i]),
                )
            &&& items.last() matches Ok(item)
            &&& item matches LlmChunkView::Completed {
                content: told,
                tool_calls: made,
                reasoning_content,
            }
            &&& told == content
            &&& made == tool_calls
            &&& reasoning_content is None
        }),
        turn_chunks(MockTurnView::TextOnly { content, deltas }) == turn_chunks(
            MockTurnView::WithToolCalls { content, deltas, tool_calls: Seq::empty() },
        ),
{
}

/// A scripted model plays its turns in order, each once, then repeats the one that it has for
/// that, or fails; and it records every call.
pub proof fn law_script_is_played_in_order(model: MockLlmView, messages: Seq<WireMessageView>)
    ensures
        model.after(messages).recorded == model.recorded.push(messages),
        model.after(messages).repeat == model.repeat,
        match model.next_turn() {
            Some(turn) if model.turns.len() > 0 => seq![turn] + model.after(messages).turns
                == model.turns,
            turn => turn == model.repeat && model.after(messages).turns.len() == 0,
        },
        match model.reply() {
            Ok(items) => model.next_turn() matches Some(turn) && !(turn is Fail) && items
                == turn_chunks(turn),
            Err(err) => model.next_turn() is None || model.next_turn() == Some(
                MockTurnView::Fail { message: err },
            ),
        },
{
    if model.turns.len() > 0 {
        assert(seq![model.turns[0]] + model.after(messages).turns =~= model.turns);
    }
}

} // verus!
