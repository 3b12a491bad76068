//! Execution strategies: how an agent processes a task.
//!
//! The ReAct strategy is the runner's own loop, limited to the strategy's
//! iterations. The plan-and-execute strategy first asks a planner agent for
//! a plan, then asks the agent to carry it out with the runner as given;
//! this module builds the inputs and configurations of these runs.

use vstd::prelude::*;
use crate::agent::RunInput;
use crate::message::{first_text, Message, MessageView, Role};
use crate::runner::{is_text_message, RunnerConfig};
use crate::session_table::{clone_messages, views};

verus! {

/// ReAct strategy: reason, act, observe, until the LLM gives a final answer
/// or the iteration limit is reached.
#[derive(Debug, Clone, Copy, PartialEq, Eq, Structural)]
pub struct ReActStrategy {
    /// Maximum number of reason-act-observe iterations.
    pub max_iterations: usize,
}

impl ReActStrategy {
    /// A ReAct strategy with at most `max_iterations` iterations.
    pub fn new(max_iterations: usize) -> (r: ReActStrategy)
        ensures
            r.max_iterations == max_iterations,
    {
        ReActStrategy { max_iterations }
    }

    /// The configuration the agent runs under: `base` with at most
    /// `max_iterations` iterations.
    pub fn runner_config(&self, base: RunnerConfig) -> (r: RunnerConfig)
        ensures
            r == (RunnerConfig { max_iterations: self.max_iterations, ..base }),
    {
        RunnerConfig { max_iterations: self.max_iterations, ..base }
    }
}

impl Default for ReActStrategy {
    /// Ten iterations.
    fn default() -> (r: ReActStrategy)
        ensures
            r.max_iterations == 10,
    {
        ReActStrategy { max_iterations: 10 }
    }
}

/// Plan-and-execute strategy: a planner agent writes a plan, then the agent
/// executes it. Generic over the handle `A` of the planner agent.
#[derive(Debug)]
pub struct PlanAndExecuteStrategy<A> {
    /// The planner agent that writes the plan.
    pub planner: A,
    /// Maximum number of steps in the plan.
    pub max_steps: usize,
}

impl<A> PlanAndExecuteStrategy<A> {
    /// A plan-and-execute strategy with `planner` and at most `max_steps`
    /// steps.
    pub fn new(planner: A, max_steps: usize) -> (r: PlanAndExecuteStrategy<A>)
        ensures
            r.planner == planner,
            r.max_steps == max_steps,
    {
        PlanAndExecuteStrategy { planner, max_steps }
    }
}

/// The request to the planner for `task`.
pub open spec fn plan_prompt(task: Seq<char>) -> Seq<char> {
    "Create a step-by-step plan to accomplish the following task. Return the plan as a numbered list.\n\nTask: "@
        + task
}

/// The request to the agent to execute `plan` for `task`.
pub open spec fn execution_prompt(task: Seq<char>, plan: Seq<char>) -> Seq<char> {
    "Execute the following plan step by step. Use the available tools as needed.\n\nOriginal task: "@
        + task + "\n\nPlan:\n"@ + plan
}

/// The text of the last message, if it has any text.
pub open spec fn last_text(msgs: Seq<MessageView>) -> Option<Seq<char>> {
    if msgs.len() == 0 {
        None
    } else {
        first_text(msgs.last().content)
    }
}

fn plan_request(task: &str) -> (r: String)
    ensures
        r@ == plan_prompt(task@),
{
    String::from_str(
        "Create a step-by-step plan to accomplish the following task. Return the plan as a numbered list.\n\nTask: ",
    ).concat(task)
}

/// The planner's input: a text task is wrapped in the planning request; of
/// messages, the last one, when it has text, is replaced by a user message
/// carrying the planning request for that text, and the others are kept.
pub fn plan_input(input: &RunInput) -> (r: RunInput)
    ensures
        match *input {
            RunInput::Text(t) => r matches RunInput::Text(p) && p@ == plan_prompt(t@),
            RunInput::Messages(ms) => r matches RunInput::Messages(out) && match last_text(
                views(ms@),
            ) {
                None => views(out@) == views(ms@),
                Some(t) => {
                    &&& out@.len() == ms@.len()
                    &&& views(out@).drop_last() == views(ms@).drop_last()
                    &&& is_text_message(out@.last()@, Role::User, plan_prompt(t))
                },
            },
        },
{
    match input {
        RunInput::Text(t) => RunInput::Text(plan_request(t.as_str())),
        RunInput::Messages(ms) => {
            let mut out = clone_messages(ms.as_slice());
            let n = out.len();
            if n > 0 {
                let replaced = match out[n - 1].text() {
                    Some(text) => Some(Message::user(plan_request(text).as_str())),
                    None => None,
                };
                match replaced {
                    Some(m) => {
                        let ghost prev = out@;
                        out.set(n - 1, m);
                        assert(views(out@).drop_last() =~= views(prev).drop_last());
                    },
                    None => {},
                }
            }
            RunInput::Messages(out)
        },
    }
}

/// The plan: the text of the planner's final message, or "No plan
/// generated" when it has none.
pub fn plan_text(planner_message: &Message) -> (r: String)
    ensures
        r@ == match first_text(planner_message@.content) {
            Some(t) => t,
            None => "No plan generated"@,
        },
{
    match planner_message.text() {
        Some(t) => String::from_str(t),
        None => String::from_str("No plan generated"),
    }
}

/// The agent's input once the plan is known: the execution request for the
/// original task (a text input, or the text of the last message, or empty)
/// and the plan.
pub fn execution_input(input: &RunInput, plan: &str) -> (r: RunInput)
    ensures
        r matches RunInput::Text(p) && p@ == execution_prompt(
            match *input {
                RunInput::Text(t) => t@,
                RunInput::Messages(ms) => match last_text(views(ms@)) {
                    Some(t) => t,
                    None => Seq::empty(),
                },
            },
            plan@,
        ),
{
    let task: String = match input {
        RunInput::Text(t) => t.clone(),
        RunInput::Messages(ms) => {
            let n = ms.len();
            if n == 0 {
                String::new()
            } else {
                assert(views(ms@).last() == ms@[n - 1]@);
                match ms[n - 1].text() {
                    Some(t) => String::from_str(t),
                    None => String::new(),
                }
            }
        },
    };
    let p = String::from_str(
        "Execute the following plan step by step. Use the available tools as needed.\n\nOriginal task: ",
    ).concat(task.as_str()).concat("\n\nPlan:\n").concat(plan);
    RunInput::Text(p)
}

} // verus!
