//! Tool approval guardrail: blocks tool calls that need human approval.

use vstd::prelude::*;
use crate::guardrail::{GuardrailResult, Verdict};
use crate::message::{ContentPart, Message, MessageView, PartView};

verus! {

/// A guardrail that blocks the tool calls whose tool requires human approval.
pub struct ToolApproval {
    /// Names of the tools that require approval before execution.
    require_approval: Vec<String>,
}

/// The name of the first tool call among `parts` whose tool is in `restricted`.
pub open spec fn first_restricted_call(parts: Seq<PartView>, restricted: Seq<Seq<char>>) -> Option<
    Seq<char>,
>
    decreases parts.len(),
{
    if parts.len() == 0 {
        None
    } else {
        match parts[0] {
            PartView::ToolCall { name, .. } => if restricted.contains(name) {
                Some(name)
            } else {
                first_restricted_call(parts.drop_first(), restricted)
            },
            _ => first_restricted_call(parts.drop_first(), restricted),
        }
    }
}

/// The verdict on an output: a block on its first restricted tool call.
pub open spec fn approval_verdict(output: MessageView, restricted: Seq<Seq<char>>) -> Verdict {
    match first_restricted_call(output.content, restricted) {
        Some(name) => Verdict::Block(
            "Tool '"@ + name + "' requires human approval before execution"@,
        ),
        None => Verdict::Pass,
    }
}

/// An output is blocked exactly when one of its tool calls, at any
/// position, names a restricted tool; the block names the first such call.
pub proof fn law_blocked_iff_some_call_restricted(output: MessageView, restricted: Seq<Seq<char>>)
    ensures
        (approval_verdict(output, restricted) is Block) <==> exists|i: int|
            0 <= i < output.content.len() && (match #[trigger] output.content[i] {
                PartView::ToolCall { name, .. } => restricted.contains(name),
                _ => false,
            }),
        approval_verdict(output, restricted) is Block ==> exists|i: int|
            0 <= i < output.content.len() && (match #[trigger] output.content[i] {
                PartView::ToolCall { name, .. } => restricted.contains(name)
                    && approval_verdict(output, restricted) == Verdict::Block(
                    "Tool '"@ + name + "' requires human approval before execution"@,
                ),
                _ => false,
            }) && forall|j: int|
                0 <= j < i ==> !(match #[trigger] output.content[j] {
                    PartView::ToolCall { name, .. } => restricted.contains(name),
                    _ => false,
                }),
        !(approval_verdict(output, restricted) is Block) ==> approval_verdict(output, restricted)
            == Verdict::Pass,
{
    lemma_first_restricted(output.content, restricted);
}

/// The first restricted call is the first call in order that is
/// restricted.
proof fn lemma_first_restricted(parts: Seq<PartView>, restricted: Seq<Seq<char>>)
    ensures
        first_restricted_call(parts, restricted) is Some <==> exists|i: int|
            0 <= i < parts.len() && (match #[trigger] parts[i] {
                PartView::ToolCall { name, .. } => restricted.contains(name),
                _ => false,
            }),
        first_restricted_call(parts, restricted) matches Some(n) ==> exists|i: int|
            0 <= i < parts.len() && (match #[trigger] parts[i] {
                PartView::ToolCall { name, .. } => restricted.contains(name) && n == name,
                _ => false,
            }) && forall|j: int|
                0 <= j < i ==> !(match #[trigger] parts[j] {
                    PartView::ToolCall { name, .. } => restricted.contains(name),
                    _ => false,
                }),
    decreases parts.len(),
{
    if parts.len() > 0 {
        let rest = parts.drop_first();
        lemma_first_restricted(rest, restricted);
        if exists|i: int|
            0 <= i < parts.len() && (match #[trigger] parts[i] {
                PartView::ToolCall { name, .. } => restricted.contains(name),
                _ => false,
            }) {
            let i = choose|i: int|
                0 <= i < parts.len() && (match #[trigger] parts[i] {
                    PartView::ToolCall { name, .. } => restricted.contains(name),
                    _ => false,
                });
            if i > 0 {
                assert(rest[i - 1] == parts[i]);
            }
        }
        let first_is = match parts[0] {
            PartView::ToolCall { name, .. } => restricted.contains(name),
            _ => false,
        };
        if !first_is {
            match first_restricted_call(rest, restricted) {
                Some(n) => {
                    let k = choose|i: int|
                        0 <= i < rest.len() && (match #[trigger] rest[i] {
                            PartView::ToolCall { name, .. } => restricted.contains(name) && n == name,
                            _ => false,
                        }) && forall|j: int|
                            0 <= j < i ==> !(match #[trigger] rest[j] {
                                PartView::ToolCall { name, .. } => restricted.contains(name),
                                _ => false,
                            });
                    assert(parts[k + 1] == rest[k]);
                    assert forall|j: int| 0 <= j < k + 1 implies !(match #[trigger] parts[j] {
                        PartView::ToolCall { name, .. } => restricted.contains(name),
                        _ => false,
                    }) by {
                        if j > 0 {
                            assert(parts[j] == rest[j - 1]);
                        }
                    }
                },
                None => {},
            }
        } else {
            assert(0 < parts.len());
        }
    }
}

impl View for ToolApproval {
    type V = Seq<Seq<char>>;

    /// The names of the restricted tools, in insertion order.
    closed spec fn view(&self) -> Seq<Seq<char>> {
        self.require_approval@.map_values(|t: String| t@)
    }
}

impl ToolApproval {
    /// A guardrail restricting the given tools.
    pub fn new(tools: Vec<String>) -> (r: ToolApproval)
        ensures
            r@ == tools@.map_values(|t: String| t@),
    {
        ToolApproval { require_approval: tools }
    }

    /// The guardrail with one more restricted tool.
    pub fn add_tool(self, tool_name: &str) -> (r: ToolApproval)
        ensures
            r@ == self@.push(tool_name@),
    {
        let mut g = self;
        g.require_approval.push(String::from_str(tool_name));
        assert(g@ =~= self@.push(tool_name@));
        g
    }

    /// The guardrail's name.
    pub fn name(&self) -> (r: &'static str)
        ensures
            r@ == "tool_approval"@,
    {
        "tool_approval"
    }

    /// Input always passes: approval applies to tool calls in the output.
    pub fn check_input(&self, messages: &[Message]) -> (r: GuardrailResult)
        ensures
            r@ == Verdict::Pass,
    {
        GuardrailResult::Pass
    }

    /// Whether `name` is a restricted tool.
    fn is_restricted(&self, name: &String) -> (r: bool)
        ensures
            r == self@.contains(name@),
    {
        let mut i: usize = 0;
        while i < self.require_approval.len()
            invariant
                0 <= i <= self.require_approval@.len(),
                forall|j: int| 0 <= j < i ==> self@[j] != name@,
            decreases self.require_approval@.len() - i,
        {
            if self.require_approval[i] == *name {
                assert(self@[i as int] == name@);
                return true;
            }
            assert(self@[i as int] == self.require_approval@[i as int]@);
            i = i + 1;
        }
        false
    }

    /// Blocks the output on its first tool call that needs approval.
    pub fn check_output(&self, output: &Message) -> (r: GuardrailResult)
        ensures
            r@ == approval_verdict(output@, self@),
    {
        let ghost parts = output@.content;
        let mut i: usize = 0;
        assert(parts.subrange(0, parts.len() as int) =~= parts);
        while i < output.content.len()
            invariant
                0 <= i <= output.content@.len(),
                parts == output@.content,
                first_restricted_call(parts, self@) == first_restricted_call(
                    parts.subrange(i as int, parts.len() as int),
                    self@,
                ),
            decreases output.content@.len() - i,
        {
            assert(parts.subrange(i as int, parts.len() as int).drop_first() =~= parts.subrange(
                i + 1,
                parts.len() as int,
            ));
            match &output.content[i] {
                ContentPart::ToolCall { name, .. } => {
                    if self.is_restricted(name) {
                        let message = String::from_str("Tool '").concat(name.as_str()).concat(
                            "' requires human approval before execution",
                        );
                        return GuardrailResult::Block { message };
                    }
                },
                _ => {},
            }
            i = i + 1;
        }
        GuardrailResult::Pass
    }
}

} // verus!
