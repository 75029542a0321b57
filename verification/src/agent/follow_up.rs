//! What the agent adds by itself once it would stop.

use vstd::prelude::*;

use crate::protocol::{plain, plain_message, Role, WireMessage, WireMessageView};
use crate::text::{has_prefix, same, starts_with};

verus! {

/// A rule that may add messages when the model has nothing more to do.
pub trait FollowUpPolicy {
    /// The messages that the rule adds to a context.
    spec fn follow_ups(&self, context: Seq<WireMessageView>) -> Seq<WireMessageView>;

    fn next(&self, context: &[WireMessage]) -> (r: Vec<WireMessage>)
        ensures
            r.deep_view() == self.follow_ups(context.deep_view()),
    ;
}

/// Adds nothing.
pub struct NoopFollowUp;

impl FollowUpPolicy for NoopFollowUp {
    open spec fn follow_ups(&self, context: Seq<WireMessageView>) -> Seq<WireMessageView> {
        Seq::empty()
    }

    fn next(&self, _context: &[WireMessage]) -> (r: Vec<WireMessage>) {
        let r: Vec<WireMessage> = Vec::new();
        assert(r.deep_view() =~= Seq::<WireMessageView>::empty());
        r
    }
}

/// Whether a message is the result of a tool that succeeded.
pub open spec fn tool_succeeded(m: WireMessageView, tool_name: Seq<char>) -> bool {
    m.role == Role::Tool && m.name == Some(tool_name) && !has_prefix(m.content, "tool_error:"@)
}

pub open spec fn any_succeeded(context: Seq<WireMessageView>, tool_name: Seq<char>) -> bool {
    exists|i: int| 0 <= i < context.len() && tool_succeeded(#[trigger] context[i], tool_name)
}

/// Whether a message is the result of a tool that succeeded. The result of one that failed starts
/// with `tool_error:`.
pub fn successful_tool(msg: &WireMessage, tool_name: &str) -> (r: bool)
    ensures
        r == tool_succeeded(msg.deep_view(), tool_name@),
{
    if msg.role != Role::Tool {
        return false;
    }
    match &msg.name {
        Some(name) => same(name.as_str(), tool_name) && !starts_with(
            msg.content.as_str(),
            "tool_error:",
        ),
        None => false,
    }
}

fn any_successful(context: &[WireMessage], tool_name: &str) -> (r: bool)
    ensures
        r == any_succeeded(context.deep_view(), tool_name@),
{
    let ghost all = context.deep_view();
    let mut i: usize = 0;
    while i < context.len()
        invariant
            i <= context@.len(),
            all == context.deep_view(),
            forall|k: int| 0 <= k < i ==> !tool_succeeded(#[trigger] all[k], tool_name@),
        decreases context@.len() - i,
    {
        assert(all[i as int] == context@[i as int].deep_view());
        if successful_tool(&context[i], tool_name) {
            return true;
        }
        i = i + 1;
    }
    false
}

/// After an order, asks for the message with the pick-up code, unless it was sent.
pub struct ExampleOrderFollowUp;

impl FollowUpPolicy for ExampleOrderFollowUp {
    open spec fn follow_ups(&self, context: Seq<WireMessageView>) -> Seq<WireMessageView> {
        if any_succeeded(context, "place_order"@) && !any_succeeded(context, "send_sms"@) {
            seq![plain(Role::System, "请调用 send_sms 发送取餐码"@)]
        } else {
            Seq::empty()
        }
    }

    fn next(&self, context: &[WireMessage]) -> (r: Vec<WireMessage>) {
        let mut r: Vec<WireMessage> = Vec::new();
        if any_successful(context, "place_order") && !any_successful(context, "send_sms") {
            r.push(plain_message(Role::System, "请调用 send_sms 发送取餐码".to_owned()));
        }
        assert(r.deep_view() =~= self.follow_ups(context.deep_view()));
        r
    }
}

/// A rule that the configuration can name.
pub enum NamedFollowUp {
    Noop(NoopFollowUp),
    ExampleOrder(ExampleOrderFollowUp),
}

impl FollowUpPolicy for NamedFollowUp {
    open spec fn follow_ups(&self, context: Seq<WireMessageView>) -> Seq<WireMessageView> {
        match self {
            NamedFollowUp::Noop(policy) => policy.follow_ups(context),
            NamedFollowUp::ExampleOrder(policy) => policy.follow_ups(context),
        }
    }

    fn next(&self, context: &[WireMessage]) -> (r: Vec<WireMessage>) {
        match self {
            NamedFollowUp::Noop(policy) => policy.next(context),
            NamedFollowUp::ExampleOrder(policy) => policy.next(context),
        }
    }
}

/// The rule of that name; the rule that adds nothing for any other name.
pub fn policy_from_name(name: &str) -> (r: NamedFollowUp)
    ensures
        name@ == "example_order"@ ==> r is ExampleOrder,
        name@ != "example_order"@ ==> r is Noop,
{
    if same(name, "example_order") {
        NamedFollowUp::ExampleOrder(ExampleOrderFollowUp)
    } else {
        NamedFollowUp::Noop(NoopFollowUp)
    }
}

/// Once the message was sent, the order rule adds nothing more.
pub proof fn law_order_rule_is_satisfied(context: Seq<WireMessageView>, more: WireMessageView)
    requires
        tool_succeeded(more, "send_sms"@),
    ensures
        ExampleOrderFollowUp.follow_ups(context.push(more)) == Seq::<WireMessageView>::empty(),
{
    assert(context.push(more)[context.len() as int] == more);
    assert(any_succeeded(context.push(more), "send_sms"@));
}

/// A failed order asks for nothing.
pub proof fn law_failed_order_adds_nothing(context: Seq<WireMessageView>)
    requires
        forall|i: int|
            0 <= i < context.len() && (#[trigger] context[i]).name == Some("place_order"@)
                ==> has_prefix(context[i].content, "tool_error:"@),
    ensures
        ExampleOrderFollowUp.follow_ups(context) == Seq::<WireMessageView>::empty(),
{
}

} // verus!
