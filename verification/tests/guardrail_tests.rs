use lortex::content_filter::ContentFilter;
use lortex::json::Json;
use lortex::message::{ContentPart, Message};
use lortex::rate_limiter::RateLimiter;
use lortex::token_budget::TokenBudget;
use lortex::tool_approval::ToolApproval;

fn empty_object() -> Json {
    Json::Object(vec![])
}

fn make_tool_call_message(tool_name: &str) -> Message {
    let mut msg = Message::assistant("");
    msg.content = vec![ContentPart::ToolCall { id: "call_1".into(), name: tool_name.into(), arguments: empty_object() }];
    msg
}

#[test]
fn name_returns_content_filter() {
    let filter = ContentFilter::new(vec![]);
    assert_eq!(filter.name(), "content_filter");
}

#[test]
fn pass_when_no_blocked_patterns() {
    let filter = ContentFilter::new(vec![]);
    assert!(filter.check_input(&[Message::user("anything goes")]).is_pass());
}

#[test]
fn blocks_matching_pattern() {
    let filter = ContentFilter::new(vec!["forbidden".into()]);
    assert!(filter.check_input(&[Message::user("this is forbidden content")]).is_block());
}

#[test]
fn case_insensitive_matching() {
    let filter = ContentFilter::new(vec!["blocked".into()]);
    assert!(filter.check_input(&[Message::user("This is BLOCKED text")]).is_block());
}

#[test]
fn pass_when_no_match() {
    let filter = ContentFilter::new(vec!["forbidden".into()]);
    assert!(filter.check_input(&[Message::user("perfectly fine content")]).is_pass());
}

#[test]
fn checks_all_messages_in_input() {
    let filter = ContentFilter::new(vec!["bad".into()]);
    let result = filter.check_input(&[Message::user("good message"), Message::user("this is bad")]);
    assert!(result.is_block());
}

#[test]
fn check_output_blocks_matching() {
    let filter = ContentFilter::new(vec!["secret".into()]);
    assert!(filter.check_output(&Message::assistant("this contains a secret")).is_block());
}

#[test]
fn check_output_passes_clean() {
    let filter = ContentFilter::new(vec!["secret".into()]);
    assert!(filter.check_output(&Message::assistant("nothing wrong here")).is_pass());
}

#[test]
fn check_output_passes_no_text() {
    let filter = ContentFilter::new(vec!["secret".into()]);
    let msg = Message::tool_result("call_1", Json::Str("ok".into()), false);
    assert!(filter.check_output(&msg).is_pass());
}

#[test]
fn add_pattern_builder() {
    let filter = ContentFilter::new(vec![]).add_pattern("bad").add_pattern("evil");
    assert!(filter.check_input(&[Message::user("evil plan")]).is_block());
}

#[test]
fn default_filter_has_no_patterns() {
    let filter = ContentFilter::default_filter();
    assert!(filter.check_input(&[Message::user("anything")]).is_pass());
}

#[test]
fn content_filter_block_message_names_pattern() {
    let filter = ContentFilter::new(vec!["Secret".into()]);
    match filter.check_text("a SECRET plan") {
        lortex::guardrail::GuardrailResult::Block { message } => {
            assert_eq!(message, "Content blocked: contains prohibited pattern 'secret'")
        }
        _ => panic!("expected a block"),
    }
}

#[test]
fn name_returns_token_budget() {
    let budget = TokenBudget::new(1000);
    assert_eq!(budget.name(), "token_budget");
}

#[test]
fn remaining_starts_at_max() {
    let budget = TokenBudget::new(1000);
    assert_eq!(budget.remaining(), 1000);
}

#[test]
fn passes_under_budget() {
    let mut budget = TokenBudget::new(1000);
    let result = budget.check_input(&[Message::user("short")]);
    assert!(result.is_pass());
    assert!(budget.remaining() < 1000);
}

#[test]
fn token_budget_warns_at_80_percent() {
    let mut budget = TokenBudget::new(100);
    let long_text = "a".repeat(324);
    let result = budget.check_input(&[Message::user(&long_text)]);
    assert!(result.is_warn());
}

#[test]
fn blocks_over_budget() {
    let mut budget = TokenBudget::new(10);
    let long_text = "a".repeat(100);
    assert!(budget.check_input(&[Message::user(&long_text)]).is_block());
}

#[test]
fn accumulates_across_calls() {
    let mut budget = TokenBudget::new(100);
    budget.check_input(&[Message::user(&"a".repeat(200))]);
    budget.check_input(&[Message::user(&"b".repeat(200))]);
    let result = budget.check_input(&[Message::user(&"c".repeat(100))]);
    assert!(result.is_block());
}

#[test]
fn check_output_tracks_tokens() {
    let mut budget = TokenBudget::new(1000);
    let initial = budget.remaining();
    budget.check_output(&Message::assistant("some output text"));
    assert!(budget.remaining() < initial);
}

#[test]
fn token_budget_check_output_always_passes() {
    let mut budget = TokenBudget::new(1);
    budget.check_input(&[Message::user(&"a".repeat(100))]);
    let result = budget.check_output(&Message::assistant("more text"));
    assert!(result.is_pass());
}

#[test]
fn reset_clears_consumed() {
    let mut budget = TokenBudget::new(1000);
    budget.check_input(&[Message::user(&"a".repeat(400))]);
    assert!(budget.remaining() < 1000);
    budget.reset();
    assert_eq!(budget.remaining(), 1000);
}

#[test]
fn multiple_messages_in_single_check() {
    let mut budget = TokenBudget::new(1000);
    let msgs = vec![Message::user(&"a".repeat(100)), Message::user(&"b".repeat(100))];
    budget.check_input(&msgs);
    assert!(budget.remaining() <= 950);
    assert_eq!(budget.remaining(), 950);
}

#[test]
fn token_estimate_rounds_up() {
    assert_eq!(TokenBudget::estimate_tokens(""), 0);
    assert_eq!(TokenBudget::estimate_tokens("abc"), 1);
    assert_eq!(TokenBudget::estimate_tokens("abcd"), 1);
    assert_eq!(TokenBudget::estimate_tokens("abcde"), 2);
    // Bytes are counted, not characters: "é" takes two.
    assert_eq!(TokenBudget::estimate_tokens("éé"), 1);
    assert_eq!(TokenBudget::estimate_tokens("ééé"), 2);
}

#[test]
fn token_budget_messages() {
    let mut budget = TokenBudget::new(10);
    match budget.check_input(&[Message::user(&"a".repeat(36))]) {
        lortex::guardrail::GuardrailResult::Warn { message } => {
            assert_eq!(message, "Token budget warning: 9 / 10 tokens used (80%+)")
        }
        _ => panic!("expected a warning"),
    }
    match budget.check_input(&[Message::user("abcdefgh")]) {
        lortex::guardrail::GuardrailResult::Block { message } => {
            assert_eq!(message, "Token budget exceeded: 11 / 10 tokens used")
        }
        _ => panic!("expected a block"),
    }
    assert_eq!(budget.remaining(), 0);
}

#[test]
fn name_returns_tool_approval() {
    let guard = ToolApproval::new(vec![]);
    assert_eq!(guard.name(), "tool_approval");
}

#[test]
fn check_input_always_passes() {
    let guard = ToolApproval::new(vec!["dangerous".into()]);
    assert!(guard.check_input(&[Message::user("anything")]).is_pass());
}

#[test]
fn blocks_restricted_tool() {
    let guard = ToolApproval::new(vec!["shell".into()]);
    assert!(guard.check_output(&make_tool_call_message("shell")).is_block());
}

#[test]
fn passes_unrestricted_tool() {
    let guard = ToolApproval::new(vec!["shell".into()]);
    assert!(guard.check_output(&make_tool_call_message("read_file")).is_pass());
}

#[test]
fn passes_text_only_output() {
    let guard = ToolApproval::new(vec!["shell".into()]);
    assert!(guard.check_output(&Message::assistant("just text")).is_pass());
}

#[test]
fn blocks_first_restricted_in_multi_tool() {
    let guard = ToolApproval::new(vec!["shell".into()]);
    let mut msg = Message::assistant("");
    msg.content = vec![
        ContentPart::ToolCall { id: "c1".into(), name: "read_file".into(), arguments: empty_object() },
        ContentPart::ToolCall { id: "c2".into(), name: "shell".into(), arguments: empty_object() },
    ];
    assert!(guard.check_output(&msg).is_block());
}

#[test]
fn add_tool_builder() {
    let guard = ToolApproval::new(vec![]).add_tool("shell").add_tool("delete");
    assert!(guard.check_output(&make_tool_call_message("delete")).is_block());
}

#[test]
fn empty_approval_list_passes_all() {
    let guard = ToolApproval::new(vec![]);
    assert!(guard.check_output(&make_tool_call_message("anything")).is_pass());
}

#[test]
fn name_returns_rate_limiter() {
    let limiter = RateLimiter::new(10);
    assert_eq!(limiter.name(), "rate_limiter");
}

const SECOND: u64 = 1_000_000_000;

#[test]
fn passes_under_limit() {
    let mut limiter = RateLimiter::new(10);
    let result = limiter.check_input(&[Message::user("hi")], 100 * SECOND);
    assert!(result.is_pass());
}

#[test]
fn rate_limiter_warns_at_80_percent() {
    let mut limiter = RateLimiter::new(5);
    let mut last = None;
    for i in 0..5 {
        last = Some(limiter.check_input(&[Message::user("hi")], 100 * SECOND + i));
    }
    assert!(last.unwrap().is_warn());
}

#[test]
fn blocks_at_limit() {
    let mut limiter = RateLimiter::new(3);
    for i in 0..3 {
        limiter.check_input(&[Message::user("hi")], 100 * SECOND + i);
    }
    let result = limiter.check_input(&[Message::user("hi")], 100 * SECOND + 3);
    assert!(result.is_block());
}

#[test]
fn rate_limiter_check_output_always_passes() {
    let mut limiter = RateLimiter::new(1);
    limiter.check_input(&[Message::user("hi")], 100 * SECOND);
    limiter.check_input(&[Message::user("hi")], 100 * SECOND + 1);
    assert!(limiter.check_output(&Message::assistant("x")).is_pass());
}

#[test]
fn limit_of_one() {
    let mut limiter = RateLimiter::new(1);
    let first = limiter.check_input(&[Message::user("hi")], 100 * SECOND);
    // 1 call out of 1 is above 80%.
    assert!(first.is_warn());
    let second = limiter.check_input(&[Message::user("hi")], 100 * SECOND + 1);
    assert!(second.is_block());
}

#[test]
fn calls_older_than_a_minute_expire() {
    let mut limiter = RateLimiter::new(1);
    limiter.check_rate(100 * SECOND);
    assert!(limiter.check_rate(100 * SECOND + 1).is_block());
    assert!(!limiter.check_rate(161 * SECOND).is_block());
}

#[test]
fn rate_limiter_messages() {
    let mut limiter = RateLimiter::new(2);
    limiter.check_rate(100 * SECOND);
    match limiter.check_rate(100 * SECOND + 1) {
        lortex::guardrail::GuardrailResult::Warn { message } => {
            assert_eq!(message, "Rate limit warning: 2 / 2 calls in the last minute (80%+)")
        }
        _ => panic!("expected a warning"),
    }
    match limiter.check_rate(100 * SECOND + 2) {
        lortex::guardrail::GuardrailResult::Block { message } => {
            assert_eq!(message, "Rate limit exceeded: 2 calls in the last minute (max: 2)")
        }
        _ => panic!("expected a block"),
    }
}

#[test]
fn token_budget_reports_consumed() {
    let mut budget = TokenBudget::new(100);
    assert_eq!(budget.consumed(), 0);
    budget.check_input(&[Message::user("abcdefgh")]);
    assert_eq!(budget.consumed(), 2);
    assert_eq!(budget.remaining(), 98);
}
