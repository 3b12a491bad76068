//! Rate limiter guardrail: limits the number of calls per minute.
//!
//! Call times are nanoseconds on a monotonic clock; the caller reads the
//! clock and hands the current time to [`RateLimiter::check_rate`].

use vstd::prelude::*;
use crate::guardrail::{GuardrailResult, Verdict};
use crate::message::Message;
use crate::text::{decimal, u64_to_decimal};

verus! {

/// The length of the rate window: one minute, in nanoseconds.
pub const WINDOW_NANOS: u64 = 60_000_000_000;

/// A guardrail that enforces a limit of calls per minute.
pub struct RateLimiter {
    /// Maximum calls per minute.
    max_per_minute: u32,
    /// Times of the calls accepted so far, oldest first.
    calls: Vec<u64>,
}

/// Whether a call at time `t` lies within the window that ends at `now`.
pub open spec fn in_window(t: u64, now: u64) -> bool {
    t > now - WINDOW_NANOS
}

/// The calls of `calls` that lie within the window ending at `now`, in order.
pub open spec fn kept(calls: Seq<u64>, now: u64) -> Seq<u64>
    decreases calls.len(),
{
    if calls.len() == 0 {
        Seq::empty()
    } else if in_window(calls.last(), now) {
        kept(calls.drop_last(), now).push(calls.last())
    } else {
        kept(calls.drop_last(), now)
    }
}

/// The verdict when `count` calls, including the current one, lie within the
/// window: a warning above 80% of `max`.
pub open spec fn accepted_verdict(count: nat, max: nat) -> Verdict {
    if 5 * count > 4 * max {
        Verdict::Warn(
            "Rate limit warning: "@ + decimal(count) + " / "@ + decimal(max)
                + " calls in the last minute (80%+)"@,
        )
    } else {
        Verdict::Pass
    }
}

/// The verdict when `count` calls within the window already reach `max`.
pub open spec fn rejected_verdict(count: nat, max: nat) -> Verdict {
    Verdict::Block(
        "Rate limit exceeded: "@ + decimal(count) + " calls in the last minute (max: "@
            + decimal(max) + ")"@,
    )
}

/// The calls kept are a subset of the calls, so never more of them.
pub proof fn lemma_kept_len(calls: Seq<u64>, now: u64)
    ensures
        kept(calls, now).len() <= calls.len(),
        forall|i: int| 0 <= i < kept(calls, now).len() ==> in_window(#[trigger] kept(calls, now)[i], now),
    decreases calls.len(),
{
    if calls.len() > 0 {
        lemma_kept_len(calls.drop_last(), now);
    }
}

/// A recorded call is forgotten only once it is a minute old: the calls
/// counted at `now` are exactly the recorded calls made less than
/// 60 seconds (60,000,000,000 ns) before `now`, in order.
pub proof fn law_calls_counted_for_a_minute(calls: Seq<u64>, now: u64)
    ensures
        kept(calls, now) == calls.filter(|t: u64| t + 60_000_000_000 > now),
    decreases calls.len(),
{
    reveal(Seq::filter);
    if calls.len() > 0 {
        law_calls_counted_for_a_minute(calls.drop_last(), now);
    }
}

/// When at least `max` of the recorded calls were made in the minute
/// before `now`, the limit is reached: at least `max` calls are counted.
pub proof fn law_full_minute_reaches_limit(calls: Seq<u64>, now: u64, max: nat)
    requires
        calls.filter(|t: u64| t + 60_000_000_000 > now).len() >= max,
    ensures
        kept(calls, now).len() >= max,
{
    law_calls_counted_for_a_minute(calls, now);
}

impl RateLimiter {
    /// The limit of calls per minute.
    pub closed spec fn limit(&self) -> nat {
        self.max_per_minute as nat
    }

    /// The times of the calls recorded, oldest first.
    pub closed spec fn recent(&self) -> Seq<u64> {
        self.calls@
    }

    /// A limiter allowing `max_per_minute` calls per minute, none recorded.
    pub fn new(max_per_minute: u32) -> (r: RateLimiter)
        ensures
            r.limit() == max_per_minute,
            r.recent() == Seq::<u64>::empty(),
    {
        RateLimiter { max_per_minute, calls: Vec::new() }
    }

    /// The guardrail's name.
    pub fn name(&self) -> (r: &'static str)
        ensures
            r@ == "rate_limiter"@,
    {
        "rate_limiter"
    }

    /// Records a call at time `now` unless the limit is reached. Calls older
    /// than a minute are forgotten first.
    pub fn check_rate(&mut self, now: u64) -> (r: GuardrailResult)
        ensures
            final(self).limit() == old(self).limit(),
            kept(old(self).recent(), now).len() >= old(self).limit() ==> {
                &&& final(self).recent() == kept(old(self).recent(), now)
                &&& r@ == rejected_verdict(kept(old(self).recent(), now).len(), old(self).limit())
            },
            kept(old(self).recent(), now).len() < old(self).limit() ==> {
                &&& final(self).recent() == kept(old(self).recent(), now).push(now)
                &&& r@ == accepted_verdict(final(self).recent().len(), old(self).limit())
            },
            // The limit is never exceeded, and only calls of the last minute are kept.
            old(self).recent().len() <= old(self).limit() ==> final(self).recent().len()
                <= final(self).limit(),
            forall|i: int|
                0 <= i < final(self).recent().len() ==> in_window(
                    #[trigger] final(self).recent()[i],
                    now,
                ),
    {
        proof {
            lemma_kept_len(self.calls@, now);
        }
        let ghost old_calls = self.calls@;
        let mut fresh: Vec<u64> = Vec::new();
        let mut i: usize = 0;
        while i < self.calls.len()
            invariant
                0 <= i <= self.calls@.len(),
                self.calls@ == old_calls,
                fresh@ == kept(old_calls.subrange(0, i as int), now),
            decreases self.calls@.len() - i,
        {
            assert(old_calls.subrange(0, i + 1).drop_last() =~= old_calls.subrange(0, i as int));
            let t = self.calls[i];
            if now < WINDOW_NANOS || t > now - WINDOW_NANOS {
                fresh.push(t);
            }
            i = i + 1;
        }
        assert(old_calls.subrange(0, old_calls.len() as int) =~= old_calls);
        self.calls = fresh;
        let count = self.calls.len();
        if count as u64 >= self.max_per_minute as u64 {
            let message = String::from_str("Rate limit exceeded: ").concat(
                u64_to_decimal(count as u64).as_str(),
            ).concat(" calls in the last minute (max: ").concat(
                u64_to_decimal(self.max_per_minute as u64).as_str(),
            ).concat(")");
            return GuardrailResult::Block { message };
        }
        self.calls.push(now);
        let count = self.calls.len();
        if 5 * (count as u64) > 4 * (self.max_per_minute as u64) {
            let message = String::from_str("Rate limit warning: ").concat(
                u64_to_decimal(count as u64).as_str(),
            ).concat(" / ").concat(u64_to_decimal(self.max_per_minute as u64).as_str()).concat(
                " calls in the last minute (80%+)",
            );
            GuardrailResult::Warn { message }
        } else {
            GuardrailResult::Pass
        }
    }

    /// Checks input at time `now`: the rate check.
    pub fn check_input(&mut self, messages: &[Message], now: u64) -> (r: GuardrailResult)
        ensures
            final(self).limit() == old(self).limit(),
            kept(old(self).recent(), now).len() >= old(self).limit() ==> {
                &&& final(self).recent() == kept(old(self).recent(), now)
                &&& r@ == rejected_verdict(kept(old(self).recent(), now).len(), old(self).limit())
            },
            kept(old(self).recent(), now).len() < old(self).limit() ==> {
                &&& final(self).recent() == kept(old(self).recent(), now).push(now)
                &&& r@ == accepted_verdict(final(self).recent().len(), old(self).limit())
            },
    {
        self.check_rate(now)
    }

    /// Output always passes.
    pub fn check_output(&self, output: &Message) -> (r: GuardrailResult)
        ensures
            r@ == Verdict::Pass,
    {
        GuardrailResult::Pass
    }
}

} // verus!
