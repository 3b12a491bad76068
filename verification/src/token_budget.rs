//! Token budget guardrail: tracks and limits token consumption.
//!
//! Tokens are estimated at about four bytes of UTF-8 text per token.

use vstd::prelude::*;
use vstd::utf8::encode_utf8;
use crate::guardrail::{GuardrailResult, Verdict};
use crate::message::{first_text, Message, MessageView};
use crate::text::{decimal, u64_to_decimal};

verus! {

/// A guardrail that tracks and limits token consumption.
pub struct TokenBudget {
    /// Maximum allowed tokens.
    max_tokens: u32,
    /// Tokens consumed so far.
    consumed: u32,
}

/// The UTF-8 length of a text, in bytes.
pub open spec fn byte_len(t: Seq<char>) -> nat {
    encode_utf8(t).len()
}

/// The token estimate of a text of `n` bytes: `ceil(n / 4)`, capped at
/// `u32::MAX`.
pub open spec fn token_estimate(n: nat) -> nat {
    let q = (n + 3) / 4;
    if q > u32::MAX {
        u32::MAX as nat
    } else {
        q
    }
}

/// The tokens of one message: the estimate of its text, or 0 without text.
pub open spec fn message_tokens(m: MessageView) -> nat {
    match first_text(m.content) {
        Some(t) => token_estimate(byte_len(t)),
        None => 0,
    }
}

/// The tokens of a list of messages.
pub open spec fn input_tokens(msgs: Seq<MessageView>) -> nat
    decreases msgs.len(),
{
    if msgs.len() == 0 {
        0
    } else {
        input_tokens(msgs.drop_last()) + message_tokens(msgs.last())
    }
}

/// The verdict on a running total of `total` tokens against `max`: blocked
/// above the budget, warned above 80% of it, passed otherwise.
pub open spec fn budget_verdict(total: nat, max: nat) -> Verdict {
    if total > max {
        Verdict::Block(
            "Token budget exceeded: "@ + decimal(total) + " / "@ + decimal(max) + " tokens used"@,
        )
    } else if 5 * total > 4 * max {
        Verdict::Warn(
            "Token budget warning: "@ + decimal(total) + " / "@ + decimal(max)
                + " tokens used (80%+)"@,
        )
    } else {
        Verdict::Pass
    }
}

impl TokenBudget {
    /// The budget's limit.
    pub closed spec fn limit(&self) -> nat {
        self.max_tokens as nat
    }

    /// The tokens consumed so far.
    pub closed spec fn used(&self) -> nat {
        self.consumed as nat
    }

    /// A budget of `max_tokens` tokens, none consumed.
    pub fn new(max_tokens: u32) -> (r: TokenBudget)
        ensures
            r.limit() == max_tokens,
            r.used() == 0,
    {
        TokenBudget { max_tokens, consumed: 0 }
    }

    /// Estimates the tokens of a text: `ceil(bytes / 4)`, capped at `u32::MAX`.
    pub fn estimate_tokens(text: &str) -> (r: u32)
        ensures
            r == token_estimate(byte_len(text@)),
    {
        let n: usize = text.as_bytes().len();
        let q: usize = n / 4 + if n % 4 != 0 {
            1
        } else {
            0
        };
        assert(q == (n + 3) / 4);
        if q as u64 > u32::MAX as u64 {
            u32::MAX
        } else {
            q as u32
        }
    }

    /// The remaining budget (0 once the budget is spent).
    pub fn remaining(&self) -> (r: u32)
        ensures
            r == (if self.used() >= self.limit() {
                0
            } else {
                self.limit() - self.used()
            }),
    {
        self.max_tokens.saturating_sub(self.consumed)
    }

    /// The tokens consumed so far.
    pub fn consumed(&self) -> (r: u32)
        ensures
            r == self.used(),
    {
        self.consumed
    }

    /// Resets the consumed counter.
    pub fn reset(&mut self)
        ensures
            final(self).used() == 0,
            final(self).limit() == old(self).limit(),
    {
        self.consumed = 0;
    }

    /// The guardrail's name.
    pub fn name(&self) -> (r: &'static str)
        ensures
            r@ == "token_budget"@,
    {
        "token_budget"
    }

    /// Charges the input messages' tokens and judges the new total.
    pub fn check_input(&mut self, messages: &[Message]) -> (r: GuardrailResult)
        requires
            old(self).used() + input_tokens(messages@.map_values(|m: Message| m@)) <= u32::MAX,
        ensures
            final(self).limit() == old(self).limit(),
            final(self).used() == old(self).used() + input_tokens(
                messages@.map_values(|m: Message| m@),
            ),
            r@ == budget_verdict(final(self).used(), final(self).limit()),
    {
        let ghost msgs = messages@.map_values(|m: Message| m@);
        let mut total: u32 = 0;
        let mut i: usize = 0;
        while i < messages.len()
            invariant
                0 <= i <= messages@.len(),
                msgs == messages@.map_values(|m: Message| m@),
                total == input_tokens(msgs.subrange(0, i as int)),
                self.consumed + input_tokens(msgs) <= u32::MAX,
            decreases messages@.len() - i,
        {
            proof {
                assert(msgs.subrange(0, i + 1).drop_last() =~= msgs.subrange(0, i as int));
                assert(msgs.subrange(0, i + 1).last() == messages@[i as int]@);
                lemma_input_tokens_prefix(msgs, i + 1);
            }
            match messages[i].text() {
                Some(text) => {
                    total = total + Self::estimate_tokens(text);
                },
                None => {},
            }
            i = i + 1;
        }
        assert(msgs.subrange(0, msgs.len() as int) =~= msgs);
        self.consumed = self.consumed + total;
        let new_total = self.consumed;
        if new_total > self.max_tokens {
            let message = String::from_str("Token budget exceeded: ").concat(
                u64_to_decimal(new_total as u64).as_str(),
            ).concat(" / ").concat(u64_to_decimal(self.max_tokens as u64).as_str()).concat(
                " tokens used",
            );
            GuardrailResult::Block { message }
        } else if 5 * (new_total as u64) > 4 * (self.max_tokens as u64) {
            let message = String::from_str("Token budget warning: ").concat(
                u64_to_decimal(new_total as u64).as_str(),
            ).concat(" / ").concat(u64_to_decimal(self.max_tokens as u64).as_str()).concat(
                " tokens used (80%+)",
            );
            GuardrailResult::Warn { message }
        } else {
            GuardrailResult::Pass
        }
    }

    /// Charges the output's tokens (wrapping at `u32::MAX`, as the counter
    /// does); the output itself always passes.
    pub fn check_output(&mut self, output: &Message) -> (r: GuardrailResult)
        ensures
            final(self).limit() == old(self).limit(),
            final(self).used() == (old(self).used() + message_tokens(output@)) % 0x1_0000_0000,
            r@ == Verdict::Pass,
    {
        match output.text() {
            Some(text) => {
                let tokens = Self::estimate_tokens(text);
                self.consumed = self.consumed.wrapping_add(tokens);
            },
            None => {},
        }
        GuardrailResult::Pass
    }
}

/// The tokens of a prefix never exceed those of the whole list.
pub proof fn lemma_input_tokens_prefix(msgs: Seq<MessageView>, k: int)
    requires
        0 <= k <= msgs.len(),
    ensures
        input_tokens(msgs.subrange(0, k)) <= input_tokens(msgs),
    decreases msgs.len() - k,
{
    if k < msgs.len() {
        lemma_input_tokens_prefix(msgs, k + 1);
        assert(msgs.subrange(0, k + 1).drop_last() =~= msgs.subrange(0, k));
    } else {
        assert(msgs.subrange(0, k) =~= msgs);
    }
}

} // verus!
