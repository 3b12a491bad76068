//! Content filter guardrail: blocks messages that contain a prohibited
//! pattern, compared case-insensitively.

use vstd::prelude::*;
use crate::guardrail::{GuardrailResult, Verdict};
use crate::message::{first_text, Message, MessageView};
use crate::text::{has_substring, lowercase, str_contains, to_lowercase};

verus! {

/// A guardrail that filters messages on blocked words or phrases.
pub struct ContentFilter {
    /// Blocked patterns, stored lowercased.
    blocked_patterns: Vec<String>,
}

/// The first pattern of `patterns`, in order, that occurs in `text`.
pub open spec fn first_match(patterns: Seq<Seq<char>>, text: Seq<char>) -> Option<Seq<char>>
    decreases patterns.len(),
{
    if patterns.len() == 0 {
        None
    } else if has_substring(text, patterns[0]) {
        Some(patterns[0])
    } else {
        first_match(patterns.drop_first(), text)
    }
}

/// The message of a block on `pattern`.
pub open spec fn blocked_message(pattern: Seq<char>) -> Seq<char> {
    "Content blocked: contains prohibited pattern '"@ + pattern + "'"@
}

/// The verdict on one text: blocked on the first pattern found in its
/// lowercase form, passed otherwise.
pub open spec fn text_verdict(patterns: Seq<Seq<char>>, text: Seq<char>) -> Verdict {
    match first_match(patterns, lowercase(text)) {
        Some(p) => Verdict::Block(blocked_message(p)),
        None => Verdict::Pass,
    }
}

/// The verdict on input messages: the block of the first message whose text
/// is blocked, or a pass.
pub open spec fn input_verdict(patterns: Seq<Seq<char>>, msgs: Seq<MessageView>) -> Verdict
    decreases msgs.len(),
{
    if msgs.len() == 0 {
        Verdict::Pass
    } else {
        match first_text(msgs[0].content) {
            Some(t) => if text_verdict(patterns, t) is Block {
                text_verdict(patterns, t)
            } else {
                input_verdict(patterns, msgs.drop_first())
            },
            None => input_verdict(patterns, msgs.drop_first()),
        }
    }
}

/// The verdict on an output message: the verdict on its text, if any.
pub open spec fn output_verdict(patterns: Seq<Seq<char>>, msg: MessageView) -> Verdict {
    match first_text(msg.content) {
        Some(t) => text_verdict(patterns, t),
        None => Verdict::Pass,
    }
}

/// A text is blocked exactly when one of the patterns occurs in its
/// lowercase form, and the block names the first such pattern in order.
pub proof fn law_text_blocked_iff_pattern_occurs(patterns: Seq<Seq<char>>, text: Seq<char>)
    ensures
        (text_verdict(patterns, text) is Block) <==> exists|k: int|
            0 <= k < patterns.len() && has_substring(lowercase(text), #[trigger] patterns[k]),
        text_verdict(patterns, text) is Block ==> exists|k: int|
            0 <= k < patterns.len() && has_substring(lowercase(text), #[trigger] patterns[k])
                && text_verdict(patterns, text) == Verdict::Block(
                "Content blocked: contains prohibited pattern '"@ + patterns[k] + "'"@,
            ) && forall|j: int| 0 <= j < k ==> !has_substring(lowercase(text), #[trigger] patterns[j]),
        !(text_verdict(patterns, text) is Block) ==> text_verdict(patterns, text) == Verdict::Pass,
{
    lemma_first_match(patterns, lowercase(text));
}

/// The first pattern that occurs is the first in order that does.
proof fn lemma_first_match(patterns: Seq<Seq<char>>, text: Seq<char>)
    ensures
        first_match(patterns, text) is Some <==> exists|k: int|
            0 <= k < patterns.len() && has_substring(text, #[trigger] patterns[k]),
        first_match(patterns, text) matches Some(p) ==> exists|k: int|
            0 <= k < patterns.len() && has_substring(text, #[trigger] patterns[k]) && p == patterns[k]
                && forall|j: int| 0 <= j < k ==> !has_substring(text, #[trigger] patterns[j]),
    decreases patterns.len(),
{
    if patterns.len() > 0 {
        let rest = patterns.drop_first();
        lemma_first_match(rest, text);
        if has_substring(text, patterns[0]) {
            assert(has_substring(text, patterns[0]));
        } else {
            if exists|k: int| 0 <= k < patterns.len() && has_substring(text, #[trigger] patterns[k]) {
                let k = choose|k: int| 0 <= k < patterns.len() && has_substring(text, #[trigger] patterns[k]);
                assert(rest[k - 1] == patterns[k]);
            }
            match first_match(rest, text) {
                Some(p) => {
                    let k = choose|k: int|
                        0 <= k < rest.len() && has_substring(text, #[trigger] rest[k]) && p == rest[k]
                            && forall|j: int| 0 <= j < k ==> !has_substring(text, #[trigger] rest[j]);
                    assert(patterns[k + 1] == rest[k]);
                    assert forall|j: int| 0 <= j < k + 1 implies !has_substring(
                        text,
                        #[trigger] patterns[j],
                    ) by {
                        if j > 0 {
                            assert(patterns[j] == rest[j - 1]);
                        }
                    }
                },
                None => {},
            }
        }
    }
}

/// Input is blocked exactly when the text of some message is blocked, and
/// then with the block of the first such message: no message is skipped,
/// whatever its position.
pub proof fn law_input_blocked_iff_some_message_blocked(
    patterns: Seq<Seq<char>>,
    msgs: Seq<MessageView>,
)
    ensures
        (input_verdict(patterns, msgs) is Block) <==> exists|i: int, k: int|
            0 <= i < msgs.len() && 0 <= k < patterns.len() && (match first_text(
                (#[trigger] msgs[i]).content,
            ) {
                Some(t) => has_substring(lowercase(t), #[trigger] patterns[k]),
                None => false,
            }),
        input_verdict(patterns, msgs) is Block ==> exists|i: int|
            0 <= i < msgs.len() && (match first_text((#[trigger] msgs[i]).content) {
                Some(t) => input_verdict(patterns, msgs) == text_verdict(patterns, t),
                None => false,
            }) && forall|j: int|
                0 <= j < i ==> match first_text((#[trigger] msgs[j]).content) {
                    Some(t) => !(text_verdict(patterns, t) is Block),
                    None => true,
                },
        !(input_verdict(patterns, msgs) is Block) ==> input_verdict(patterns, msgs) == Verdict::Pass,
    decreases msgs.len(),
{
    if msgs.len() > 0 {
        let rest = msgs.drop_first();
        law_input_blocked_iff_some_message_blocked(patterns, rest);
        match first_text(msgs[0].content) {
            Some(t) => {
                law_text_blocked_iff_pattern_occurs(patterns, t);
            },
            None => {},
        }
        if exists|i: int, k: int|
            0 <= i < msgs.len() && 0 <= k < patterns.len() && (match first_text(
                (#[trigger] msgs[i]).content,
            ) {
                Some(t) => has_substring(lowercase(t), #[trigger] patterns[k]),
                None => false,
            }) {
            let (i, k) = choose|i: int, k: int|
                0 <= i < msgs.len() && 0 <= k < patterns.len() && (match first_text(
                    (#[trigger] msgs[i]).content,
                ) {
                    Some(t) => has_substring(lowercase(t), #[trigger] patterns[k]),
                    None => false,
                });
            if i > 0 {
                assert(rest[i - 1] == msgs[i]);
            }
        }
        let first_blocked = match first_text(msgs[0].content) {
            Some(t) => text_verdict(patterns, t) is Block,
            None => false,
        };
        if input_verdict(patterns, rest) is Block && !first_blocked {
            let i = choose|i: int|
                0 <= i < rest.len() && (match first_text((#[trigger] rest[i]).content) {
                    Some(t) => input_verdict(patterns, rest) == text_verdict(patterns, t),
                    None => false,
                }) && forall|j: int|
                    0 <= j < i ==> match first_text((#[trigger] rest[j]).content) {
                        Some(t) => !(text_verdict(patterns, t) is Block),
                        None => true,
                    };
            assert(msgs[i + 1] == rest[i]);
            assert forall|j: int| 0 <= j < i + 1 implies match first_text((#[trigger] msgs[j]).content) {
                Some(t) => !(text_verdict(patterns, t) is Block),
                None => true,
            } by {
                if j > 0 {
                    assert(msgs[j] == rest[j - 1]);
                }
            }
        }
        if input_verdict(patterns, rest) is Block {
            let (i2, k2) = choose|i: int, k: int|
                0 <= i < rest.len() && 0 <= k < patterns.len() && (match first_text(
                    (#[trigger] rest[i]).content,
                ) {
                    Some(t) => has_substring(lowercase(t), #[trigger] patterns[k]),
                    None => false,
                });
            assert(msgs[i2 + 1] == rest[i2]);
        }
        match first_text(msgs[0].content) {
            Some(t) => {
                if text_verdict(patterns, t) is Block {
                    let k = choose|k: int|
                        0 <= k < patterns.len() && has_substring(lowercase(t), #[trigger] patterns[k]);
                    assert(has_substring(lowercase(t), patterns[k]));
                }
            },
            None => {},
        }
    }
}

impl View for ContentFilter {
    type V = Seq<Seq<char>>;

    /// The blocked patterns, lowercased, in insertion order.
    closed spec fn view(&self) -> Seq<Seq<char>> {
        self.blocked_patterns@.map_values(|p: String| p@)
    }
}

impl ContentFilter {
    /// A content filter blocking the given patterns (case-insensitively).
    pub fn new(patterns: Vec<String>) -> (r: ContentFilter)
        ensures
            r@ == patterns@.map_values(|p: String| lowercase(p@)),
    {
        let mut lowered: Vec<String> = Vec::new();
        let mut i: usize = 0;
        while i < patterns.len()
            invariant
                0 <= i <= patterns@.len(),
                lowered@.len() == i,
                forall|k: int| 0 <= k < i ==> (#[trigger] lowered@[k])@ == lowercase(patterns@[k]@),
            decreases patterns@.len() - i,
        {
            lowered.push(to_lowercase(patterns[i].as_str()));
            i = i + 1;
        }
        let r = ContentFilter { blocked_patterns: lowered };
        assert(r@ =~= patterns@.map_values(|p: String| lowercase(p@)));
        r
    }

    /// A content filter with the default pattern set, which is empty.
    pub fn default_filter() -> (r: ContentFilter)
        ensures
            r@ == Seq::<Seq<char>>::empty(),
    {
        let r = ContentFilter { blocked_patterns: Vec::new() };
        assert(r@ =~= Seq::<Seq<char>>::empty());
        r
    }

    /// The filter with one more blocked pattern.
    pub fn add_pattern(self, pattern: &str) -> (r: ContentFilter)
        ensures
            r@ == self@.push(lowercase(pattern@)),
    {
        let mut f = self;
        f.blocked_patterns.push(to_lowercase(pattern));
        assert(f@ =~= self@.push(lowercase(pattern@)));
        f
    }

    /// The guardrail's name.
    pub fn name(&self) -> (r: &'static str)
        ensures
            r@ == "content_filter"@,
    {
        "content_filter"
    }

    /// Checks one text against the blocked patterns.
    pub fn check_text(&self, text: &str) -> (r: GuardrailResult)
        ensures
            r@ == text_verdict(self@, text@),
    {
        let lower = to_lowercase(text);
        let ghost pats = self@;
        let mut i: usize = 0;
        assert(pats.subrange(0, pats.len() as int) =~= pats);
        while i < self.blocked_patterns.len()
            invariant
                0 <= i <= self.blocked_patterns@.len(),
                pats == self@,
                lower@ == lowercase(text@),
                first_match(pats, lower@) == first_match(pats.subrange(i as int, pats.len() as int), lower@),
            decreases self.blocked_patterns@.len() - i,
        {
            assert(pats.subrange(i as int, pats.len() as int).drop_first() =~= pats.subrange(
                i + 1,
                pats.len() as int,
            ));
            assert(pats[i as int] == self.blocked_patterns@[i as int]@);
            let pattern = &self.blocked_patterns[i];
            if str_contains(lower.as_str(), pattern.as_str()) {
                let message = String::from_str("Content blocked: contains prohibited pattern '").concat(
                    pattern.as_str(),
                ).concat("'");
                return GuardrailResult::Block { message };
            }
            i = i + 1;
        }
        GuardrailResult::Pass
    }

    /// Checks input messages: the first message whose text is blocked blocks
    /// the input.
    pub fn check_input(&self, messages: &[Message]) -> (r: GuardrailResult)
        ensures
            r@ == input_verdict(self@, messages@.map_values(|m: Message| m@)),
    {
        let ghost msgs = messages@.map_values(|m: Message| m@);
        let mut i: usize = 0;
        assert(msgs.subrange(0, msgs.len() as int) =~= msgs);
        while i < messages.len()
            invariant
                0 <= i <= messages@.len(),
                msgs == messages@.map_values(|m: Message| m@),
                input_verdict(self@, msgs) == input_verdict(
                    self@,
                    msgs.subrange(i as int, msgs.len() as int),
                ),
            decreases messages@.len() - i,
        {
            assert(msgs.subrange(i as int, msgs.len() as int).drop_first() =~= msgs.subrange(
                i + 1,
                msgs.len() as int,
            ));
            assert(msgs.subrange(i as int, msgs.len() as int)[0] == messages@[i as int]@);
            match messages[i].text() {
                Some(text) => {
                    let result = self.check_text(text);
                    if result.is_block() {
                        return result;
                    }
                },
                None => {},
            }
            i = i + 1;
        }
        GuardrailResult::Pass
    }

    /// Checks an output message: its text, if any, must not be blocked.
    pub fn check_output(&self, output: &Message) -> (r: GuardrailResult)
        ensures
            r@ == output_verdict(self@, output@),
    {
        match output.text() {
            Some(text) => self.check_text(text),
            None => GuardrailResult::Pass,
        }
    }
}

} // verus!
