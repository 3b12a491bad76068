//! A2A (Agent-to-Agent) protocol: agent cards, tasks and messages, and the
//! JSON-RPC requests of the client.
//!
//! The HTTP exchange and the typed decoding of cards and tasks happen
//! outside; this module shapes the requests and reads the responses.

use vstd::prelude::*;
use vstd::string::StrSliceExecFns;
use crate::json::{entry_views, field, jstr, jviews, lemma_array_view, lemma_object_view, Json, JsonView};
use crate::message::{fresh_message_id, is_uuid_v4_text};

verus! {

/// Agent card: an agent's capabilities and endpoint.
#[derive(Debug)]
pub struct AgentCard {
    pub name: String,
    pub description: String,
    pub url: String,
    pub version: Option<String>,
    pub capabilities: AgentCapabilities,
    pub skills: Vec<AgentSkill>,
}

/// Capabilities of an A2A agent.
#[derive(Debug, Clone, Copy, PartialEq, Eq, Structural)]
pub struct AgentCapabilities {
    pub streaming: bool,
    pub push_notifications: bool,
    pub state_transition_history: bool,
}

impl Default for AgentCapabilities {
    /// No capability.
    fn default() -> (r: AgentCapabilities)
        ensures
            !r.streaming && !r.push_notifications && !r.state_transition_history,
    {
        AgentCapabilities { streaming: false, push_notifications: false, state_transition_history: false }
    }
}

/// A skill an agent can perform.
#[derive(Debug)]
pub struct AgentSkill {
    pub id: String,
    pub name: String,
    pub description: String,
    pub tags: Vec<String>,
}

/// A unit of work between agents.
#[derive(Debug)]
pub struct A2ATask {
    pub id: String,
    pub session_id: String,
    pub status: TaskStatus,
    pub messages: Vec<A2AMessage>,
    pub artifacts: Vec<A2AArtifact>,
}

/// Status of a task.
#[derive(Debug)]
pub struct TaskStatus {
    pub state: TaskState,
    pub message: Option<A2AMessage>,
}

/// Task states.
#[derive(Debug, Clone, Copy, PartialEq, Eq, Structural)]
pub enum TaskState {
    Submitted,
    Working,
    InputRequired,
    Completed,
    Canceled,
    Failed,
}

/// A message between agents.
#[derive(Debug)]
pub struct A2AMessage {
    pub role: String,
    pub parts: Vec<A2APart>,
}

/// A part of a message.
#[derive(Debug)]
pub enum A2APart {
    Text { text: String },
    File { file: A2AFile },
    Data { data: Json },
}

/// A file exchanged between agents.
#[derive(Debug)]
pub struct A2AFile {
    pub name: Option<String>,
    pub mime_type: Option<String>,
    pub uri: Option<String>,
    pub bytes: Option<String>,
}

/// An artifact produced by a task.
#[derive(Debug)]
pub struct A2AArtifact {
    pub name: Option<String>,
    pub description: Option<String>,
    pub parts: Vec<A2APart>,
}

/// Client of remote A2A agents.
#[derive(Debug)]
pub struct A2AClient {}

impl A2AClient {
    /// A client.
    pub fn new() -> (r: A2AClient) {
        A2AClient {}
    }
}

impl Default for A2AClient {
    fn default() -> (r: A2AClient) {
        A2AClient {}
    }
}

/// `s` without its trailing slashes.
pub open spec fn trim_slashes(s: Seq<char>) -> Seq<char>
    decreases s.len(),
{
    if s.len() > 0 && s.last() == '/' {
        trim_slashes(s.drop_last())
    } else {
        s
    }
}

/// The URL of an agent's card: its URL without trailing slashes, then
/// `/.well-known/agent.json`.
pub fn card_url(agent_url: &str) -> (r: String)
    ensures
        r@ == trim_slashes(agent_url@) + "/.well-known/agent.json"@,
{
    let mut end = agent_url.unicode_len();
    assert(agent_url@.subrange(0, end as int) =~= agent_url@);
    while end > 0 && agent_url.get_char(end - 1) == '/'
        invariant
            0 <= end <= agent_url@.len(),
            trim_slashes(agent_url@) == trim_slashes(agent_url@.subrange(0, end as int)),
        decreases end,
    {
        assert(agent_url@.subrange(0, end as int).drop_last() =~= agent_url@.subrange(0, end - 1));
        end = end - 1;
    }
    String::from_str(agent_url.substring_char(0, end)).concat("/.well-known/agent.json")
}

/// A task request: a JSON-RPC 2.0 call of `method` for task `task_id`,
/// under request id `rid`.
pub open spec fn task_request_json(rid: Seq<char>, method: Seq<char>, params: JsonView) -> JsonView {
    JsonView::Object(
        seq![
            ("id"@, JsonView::Str(rid)),
            ("jsonrpc"@, JsonView::Str("2.0"@)),
            ("method"@, JsonView::Str(method)),
            ("params"@, params),
        ],
    )
}

fn rpc_call(method: &str, params: Json) -> (r: Json)
    ensures
        exists|rid: Seq<char>| is_uuid_v4_text(rid) && r@ == task_request_json(rid, method@, params@),
{
    let ghost pv = params@;
    let rid = fresh_message_id();
    let mut o: Vec<(String, Json)> = Vec::new();
    o.push((String::from_str("id"), Json::Str(rid.clone())));
    o.push((String::from_str("jsonrpc"), jstr("2.0")));
    o.push((String::from_str("method"), jstr(method)));
    o.push((String::from_str("params"), params));
    proof {
        lemma_object_view(o);
        assert(entry_views(o@) =~= task_request_json(rid@, method@, pv)->Object_0);
    }
    Json::Object(o)
}

/// The request getting the status of task `task_id`.
pub fn get_task_request(task_id: &str) -> (r: Json)
    ensures
        exists|rid: Seq<char>| is_uuid_v4_text(rid) && r@ == task_request_json(
            rid,
            "tasks/get"@,
            JsonView::Object(seq![("id"@, JsonView::Str(task_id@))]),
        ),
{
    rpc_call("tasks/get", id_params(task_id))
}

/// The request canceling task `task_id`.
pub fn cancel_task_request(task_id: &str) -> (r: Json)
    ensures
        exists|rid: Seq<char>| is_uuid_v4_text(rid) && r@ == task_request_json(
            rid,
            "tasks/cancel"@,
            JsonView::Object(seq![("id"@, JsonView::Str(task_id@))]),
        ),
{
    rpc_call("tasks/cancel", id_params(task_id))
}

fn id_params(task_id: &str) -> (r: Json)
    ensures
        r@ == JsonView::Object(seq![("id"@, JsonView::Str(task_id@))]),
{
    let mut o: Vec<(String, Json)> = Vec::new();
    o.push((String::from_str("id"), jstr(task_id)));
    proof {
        lemma_object_view(o);
        assert(entry_views(o@) =~= seq![("id"@, JsonView::Str(task_id@))]);
    }
    Json::Object(o)
}

/// The request sending `message` (already in its JSON form) as a new task.
pub fn send_task_request(message: Json) -> (r: Json)
    ensures
        exists|rid: Seq<char>, tid: Seq<char>| is_uuid_v4_text(rid) && is_uuid_v4_text(tid) && r@ == task_request_json(
            rid,
            "tasks/send"@,
            JsonView::Object(seq![("id"@, JsonView::Str(tid)), ("message"@, message@)]),
        ),
{
    let ghost mv = message@;
    let tid = fresh_message_id();
    let mut o: Vec<(String, Json)> = Vec::new();
    o.push((String::from_str("id"), Json::Str(tid.clone())));
    o.push((String::from_str("message"), message));
    proof {
        lemma_object_view(o);
        assert(entry_views(o@) =~= seq![("id"@, JsonView::Str(tid@)), ("message"@, mv)]);
    }
    rpc_call("tasks/send", Json::Object(o))
}

/// The task in a response: its `result`.
pub fn task_result(body: &Json) -> (r: Result<Json, String>)
    ensures
        match field(body@, "result"@) {
            Some(t) => r matches Ok(v) && v@ == t,
            None => r matches Err(m) && m@ == "No result in response"@,
        },
{
    match body.get("result") {
        Some(t) => Ok(t.clone()),
        None => Err(String::from_str("No result in response")),
    }
}

} // verus!
