//! The unified message format exchanged between agents, tools and providers.
//!
//! A message carries one or more content parts (text, images, tool calls,
//! tool results); its [`Role`] tells who sent it.

use vstd::prelude::*;
use crate::json::{Json, JsonView};

verus! {

/// The role of a message participant.
#[derive(Debug, Clone, Copy, PartialEq, Eq, Structural)]
pub enum Role {
    System,
    User,
    Assistant,
    Tool,
}

/// A single part of message content.
#[derive(Debug)]
pub enum ContentPart {
    /// Plain text content.
    Text { text: String },
    /// Image content, referenced by URL or base64.
    Image { url: String, media_type: Option<String> },
    /// A tool call request from the assistant.
    ToolCall { id: String, name: String, arguments: Json },
    /// A tool result returned after execution.
    ToolResult { call_id: String, content: Json, is_error: bool },
}

/// The mathematical value of a [`ContentPart`].
pub enum PartView {
    Text { text: Seq<char> },
    Image { url: Seq<char>, media_type: Option<Seq<char>> },
    ToolCall { id: Seq<char>, name: Seq<char>, arguments: JsonView },
    ToolResult { call_id: Seq<char>, content: JsonView, is_error: bool },
}

impl View for ContentPart {
    type V = PartView;

    open spec fn view(&self) -> PartView {
        match self {
            ContentPart::Text { text } => PartView::Text { text: text@ },
            ContentPart::Image { url, media_type } => PartView::Image {
                url: url@,
                media_type: match media_type {
                    Some(m) => Some(m@),
                    None => None,
                },
            },
            ContentPart::ToolCall { id, name, arguments } => PartView::ToolCall {
                id: id@,
                name: name@,
                arguments: arguments@,
            },
            ContentPart::ToolResult { call_id, content, is_error } => PartView::ToolResult {
                call_id: call_id@,
                content: content@,
                is_error: *is_error,
            },
        }
    }
}

impl Clone for ContentPart {
    /// A deep copy of the part.
    fn clone(&self) -> (r: ContentPart)
        ensures
            r@ == self@,
    {
        match self {
            ContentPart::Text { text } => ContentPart::Text { text: text.clone() },
            ContentPart::Image { url, media_type } => ContentPart::Image {
                url: url.clone(),
                media_type: match media_type {
                    Some(m) => Some(m.clone()),
                    None => None,
                },
            },
            ContentPart::ToolCall { id, name, arguments } => ContentPart::ToolCall {
                id: id.clone(),
                name: name.clone(),
                arguments: arguments.clone(),
            },
            ContentPart::ToolResult { call_id, content, is_error } => ContentPart::ToolResult {
                call_id: call_id.clone(),
                content: content.clone(),
                is_error: *is_error,
            },
        }
    }
}

/// A point in time: seconds since the Unix epoch and the nanoseconds within
/// that second (beyond 999,999,999 during a leap second).
#[derive(Debug, Clone, Copy, PartialEq, Eq, Structural, PartialOrd, Ord)]
pub struct Timestamp {
    pub secs: i64,
    pub nanos: u32,
}

/// Whether `a` is at or after `b`.
pub open spec fn at_or_after(a: Timestamp, b: Timestamp) -> bool {
    a.secs > b.secs || (a.secs == b.secs && a.nanos >= b.nanos)
}

impl Timestamp {
    /// Whether this time is at or after `other`.
    pub fn is_at_or_after(&self, other: &Timestamp) -> (r: bool)
        ensures
            r == at_or_after(*self, *other),
    {
        self.secs > other.secs || (self.secs == other.secs && self.nanos >= other.nanos)
    }
}

/// A message in a conversation.
#[derive(Debug)]
pub struct Message {
    /// Unique identifier of the message.
    pub id: String,
    /// Role of the sender.
    pub role: Role,
    /// Content parts of the message.
    pub content: Vec<ContentPart>,
    /// Arbitrary metadata attached to the message, as (key, value) entries.
    pub metadata: Vec<(String, Json)>,
    /// Creation time.
    pub timestamp: Timestamp,
}

/// The mathematical value of a [`Message`].
pub struct MessageView {
    pub id: Seq<char>,
    pub role: Role,
    pub content: Seq<PartView>,
    pub metadata: Seq<(Seq<char>, JsonView)>,
    pub timestamp: Timestamp,
}

impl View for Message {
    type V = MessageView;

    open spec fn view(&self) -> MessageView {
        MessageView {
            id: self.id@,
            role: self.role,
            content: self.content@.map_values(|p: ContentPart| p@),
            metadata: self.metadata@.map_values(|e: (String, Json)| (e.0@, e.1@)),
            timestamp: self.timestamp,
        }
    }
}

/// The text of the first text part of `parts`, if any.
pub open spec fn first_text(parts: Seq<PartView>) -> Option<Seq<char>>
    decreases parts.len(),
{
    if parts.len() == 0 {
        None
    } else {
        match parts[0] {
            PartView::Text { text } => Some(text),
            _ => first_text(parts.drop_first()),
        }
    }
}

/// The (id, name, arguments) of every tool call among `parts`, in order.
pub open spec fn tool_calls_of(parts: Seq<PartView>) -> Seq<(Seq<char>, Seq<char>, JsonView)>
    decreases parts.len(),
{
    if parts.len() == 0 {
        Seq::empty()
    } else {
        let rest = tool_calls_of(parts.drop_last());
        match parts.last() {
            PartView::ToolCall { id, name, arguments } => rest.push((id, name, arguments)),
            _ => rest,
        }
    }
}

/// The index of the first metadata entry with key `k`, if any.
pub open spec fn meta_index(m: Seq<(Seq<char>, JsonView)>, k: Seq<char>) -> Option<int> {
    if exists|i: int| 0 <= i < m.len() && m[i].0 == k {
        Some(
            choose|i: int|
                0 <= i < m.len() && m[i].0 == k && forall|j: int| 0 <= j < i ==> m[j].0 != k,
        )
    } else {
        None
    }
}

/// Metadata `m` with `k` set to `v`: the first entry with key `k` is replaced,
/// or the entry is appended when there is none.
pub open spec fn meta_insert(m: Seq<(Seq<char>, JsonView)>, k: Seq<char>, v: JsonView) -> Seq<
    (Seq<char>, JsonView),
> {
    match meta_index(m, k) {
        Some(i) => m.update(i, (k, v)),
        None => m.push((k, v)),
    }
}

/// Whether `c` is a lowercase hexadecimal digit.
pub open spec fn is_lower_hex(c: char) -> bool {
    ('0' <= c && c <= '9') || ('a' <= c && c <= 'f')
}

/// Whether `s` is the hyphenated lowercase text of a version 4 UUID:
/// 8-4-4-4-12 hexadecimal digits, the version digit `4` opening the third
/// group.
pub open spec fn is_uuid_v4_text(s: Seq<char>) -> bool {
    &&& s.len() == 36
    &&& forall|i: int|
        0 <= i < 36 ==> if i == 8 || i == 13 || i == 18 || i == 23 {
            s[i] == '-'
        } else {
            is_lower_hex(#[trigger] s[i])
        }
    &&& s[14] == '4'
}

/// A fresh, random message identifier: `uuid::Uuid::new_v4`, rendered by
/// its `Display` (hyphenated, lowercase). Which random value comes out is
/// not stated.
#[verifier::external_body]
pub(crate) fn fresh_message_id() -> (r: String)
    ensures
        is_uuid_v4_text(r@),
{
    uuid::Uuid::new_v4().to_string()
}

/// The current wall-clock time, by `chrono::Utc::now`, as its
/// `timestamp` and `timestamp_subsec_nanos`. Which time is read is not
/// stated.
#[verifier::external_body]
pub(crate) fn now() -> (r: Timestamp) {
    let t = chrono::Utc::now();
    Timestamp { secs: t.timestamp(), nanos: t.timestamp_subsec_nanos() }
}

/// Clones every part of a content list.
pub fn clone_parts(parts: &Vec<ContentPart>) -> (r: Vec<ContentPart>)
    ensures
        r@.map_values(|p: ContentPart| p@) == parts@.map_values(|p: ContentPart| p@),
{
    let mut out: Vec<ContentPart> = Vec::new();
    let mut i: usize = 0;
    while i < parts.len()
        invariant
            0 <= i <= parts@.len(),
            out@.len() == i,
            forall|k: int| 0 <= k < i ==> (#[trigger] out@[k])@ == parts@[k]@,
        decreases parts@.len() - i,
    {
        out.push(parts[i].clone());
        i = i + 1;
    }
    assert(out@.map_values(|p: ContentPart| p@) =~= parts@.map_values(|p: ContentPart| p@));
    out
}

/// Clones every entry of a metadata list.
pub fn clone_metadata(m: &Vec<(String, Json)>) -> (r: Vec<(String, Json)>)
    ensures
        r@.map_values(|e: (String, Json)| (e.0@, e.1@)) == m@.map_values(
            |e: (String, Json)| (e.0@, e.1@),
        ),
{
    let mut out: Vec<(String, Json)> = Vec::new();
    let mut i: usize = 0;
    while i < m.len()
        invariant
            0 <= i <= m@.len(),
            out@.len() == i,
            forall|k: int| 0 <= k < i ==> (#[trigger] out@[k]).0@ == m@[k].0@ && out@[k].1@ == m@[k].1@,
        decreases m@.len() - i,
    {
        out.push((m[i].0.clone(), m[i].1.clone()));
        i = i + 1;
    }
    assert(out@.map_values(|e: (String, Json)| (e.0@, e.1@)) =~= m@.map_values(
        |e: (String, Json)| (e.0@, e.1@),
    ));
    out
}

impl Clone for Message {
    /// A deep copy of the message.
    fn clone(&self) -> (r: Message)
        ensures
            r@ == self@,
    {
        Message {
            id: self.id.clone(),
            role: self.role,
            content: clone_parts(&self.content),
            metadata: clone_metadata(&self.metadata),
            timestamp: self.timestamp,
        }
    }
}

impl Message {
    /// A new text message with the given role, a fresh id and the current time.
    pub fn new(role: Role, text: &str) -> (m: Message)
        ensures
            m@.role == role,
            m@.content == seq![PartView::Text { text: text@ }],
            m@.metadata.len() == 0,
            is_uuid_v4_text(m@.id),
    {
        let mut content: Vec<ContentPart> = Vec::new();
        content.push(ContentPart::Text { text: text.to_string() });
        let m = Message {
            id: fresh_message_id(),
            role,
            content,
            metadata: Vec::new(),
            timestamp: now(),
        };
        assert(m@.content =~= seq![PartView::Text { text: text@ }]);
        m
    }

    /// A system message.
    pub fn system(text: &str) -> (m: Message)
        ensures
            m@.role == Role::System,
            m@.content == seq![PartView::Text { text: text@ }],
            m@.metadata.len() == 0,
            is_uuid_v4_text(m@.id),
    {
        Self::new(Role::System, text)
    }

    /// A user message.
    pub fn user(text: &str) -> (m: Message)
        ensures
            m@.role == Role::User,
            m@.content == seq![PartView::Text { text: text@ }],
            m@.metadata.len() == 0,
            is_uuid_v4_text(m@.id),
    {
        Self::new(Role::User, text)
    }

    /// An assistant message.
    pub fn assistant(text: &str) -> (m: Message)
        ensures
            m@.role == Role::Assistant,
            m@.content == seq![PartView::Text { text: text@ }],
            m@.metadata.len() == 0,
            is_uuid_v4_text(m@.id),
    {
        Self::new(Role::Assistant, text)
    }

    /// A tool result message for the call `call_id`.
    pub fn tool_result(call_id: &str, content: Json, is_error: bool) -> (m: Message)
        ensures
            m@.role == Role::Tool,
            m@.content == seq![
                PartView::ToolResult { call_id: call_id@, content: content@, is_error },
            ],
            m@.metadata.len() == 0,
            is_uuid_v4_text(m@.id),
    {
        let ghost cv = content@;
        let mut parts: Vec<ContentPart> = Vec::new();
        parts.push(ContentPart::ToolResult { call_id: call_id.to_string(), content, is_error });
        let m = Message {
            id: fresh_message_id(),
            role: Role::Tool,
            content: parts,
            metadata: Vec::new(),
            timestamp: now(),
        };
        assert(m@.content =~= seq![
            PartView::ToolResult { call_id: call_id@, content: cv, is_error },
        ]);
        m
    }

    /// The text of the first text part, if any.
    pub fn text(&self) -> (r: Option<&str>)
        ensures
            match r {
                Some(t) => first_text(self@.content) == Some(t@),
                None => first_text(self@.content) is None,
            },
    {
        let ghost parts = self@.content;
        let mut i: usize = 0;
        assert(parts.subrange(0, parts.len() as int) =~= parts);
        while i < self.content.len()
            invariant
                0 <= i <= self.content@.len(),
                parts == self@.content,
                first_text(parts) == first_text(parts.subrange(i as int, parts.len() as int)),
            decreases self.content@.len() - i,
        {
            assert(parts.subrange(i as int, parts.len() as int).drop_first() =~= parts.subrange(
                i + 1,
                parts.len() as int,
            ));
            match &self.content[i] {
                ContentPart::Text { text } => {
                    return Some(text.as_str());
                },
                _ => {},
            }
            i = i + 1;
        }
        None
    }

    /// Every tool call of the message, as (id, name, arguments), in order.
    pub fn tool_calls(&self) -> (r: Vec<(&str, &str, &Json)>)
        ensures
            r@.map_values(|c: (&str, &str, &Json)| (c.0@, c.1@, c.2@)) == tool_calls_of(
                self@.content,
            ),
    {
        let ghost parts = self@.content;
        let mut out: Vec<(&str, &str, &Json)> = Vec::new();
        let mut i: usize = 0;
        while i < self.content.len()
            invariant
                0 <= i <= self.content@.len(),
                parts == self@.content,
                out@.map_values(|c: (&str, &str, &Json)| (c.0@, c.1@, c.2@)) == tool_calls_of(
                    parts.subrange(0, i as int),
                ),
            decreases self.content@.len() - i,
        {
            assert(parts.subrange(0, i + 1).drop_last() =~= parts.subrange(0, i as int));
            match &self.content[i] {
                ContentPart::ToolCall { id, name, arguments } => {
                    out.push((id.as_str(), name.as_str(), arguments));
                    assert(out@.map_values(|c: (&str, &str, &Json)| (c.0@, c.1@, c.2@))
                        =~= tool_calls_of(parts.subrange(0, i as int)).push(
                        (id@, name@, arguments@),
                    ));
                },
                _ => {},
            }
            i = i + 1;
        }
        assert(parts.subrange(0, parts.len() as int) =~= parts);
        out
    }

    /// The message with metadata `key` set to `value`.
    pub fn with_metadata(self, key: &str, value: Json) -> (r: Message)
        ensures
            r@ == (MessageView { metadata: meta_insert(self@.metadata, key@, value@), ..self@ }),
    {
        let ghost m = self@.metadata;
        let ghost vv = value@;
        let mut msg = self;
        let ghost orig = msg@;
        let ghost old_vec = msg.metadata@;
        let k = String::from_str(key);
        let mut i: usize = 0;
        while i < msg.metadata.len()
            invariant
                0 <= i <= msg.metadata@.len(),
                msg@.metadata == m,
                msg@ == orig,
                msg.metadata@ == old_vec,
                m == self@.metadata,
                orig == self@,
                vv == value@,
                k@ == key@,
                forall|j: int| 0 <= j < i ==> m[j].0 != key@,
            decreases msg.metadata@.len() - i,
        {
            assert(m[i as int].0 == msg.metadata@[i as int].0@);
            if msg.metadata[i].0 == k {
                assert(meta_index(m, key@) == Some(i as int));
                msg.metadata.set(i, (k, value));
                assert(msg.metadata@ == old_vec.update(i as int, (msg.metadata@[i as int].0, msg.metadata@[i as int].1)));
                assert(msg@.metadata =~= m.update(i as int, (key@, vv)));
                return msg;
            }
            i = i + 1;
        }
        msg.metadata.push((k, value));
        assert(msg@.metadata =~= meta_insert(m, key@, vv));
        msg
    }
}

} // verus!
