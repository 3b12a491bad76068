//! Automatic prompt-cache breakpoints.
//!
//! A cache strategy says where `cache_control: {"type": "ephemeral"}` marks
//! go in a chat request body: on the system prompt, on the last tool, and on
//! the second-to-last user message. Anthropic models accept at most four
//! breakpoints; other models ignore the extra field.

use vstd::prelude::*;
use crate::json::{
    array_of, field, jstr, jviews, lemma_array_view, lemma_object_view, set_entry, str_of,
    entry_views, Json, JsonView,
};
use crate::text::text_eq;

verus! {

/// Where cache breakpoints are injected.
#[derive(Debug, Clone, Copy, PartialEq, Eq, Structural)]
pub enum CacheStrategy {
    /// None: the client places them itself.
    NoCache,
    /// The system prompt only (one breakpoint).
    SystemOnly,
    /// The system prompt and the tools (two breakpoints).
    Standard,
    /// The system prompt, the tools and the second-to-last user message
    /// (three breakpoints).
    Full,
}

impl Default for CacheStrategy {
    /// The full strategy.
    fn default() -> (r: CacheStrategy)
        ensures
            r == CacheStrategy::Full,
    {
        CacheStrategy::Full
    }
}

/// The strategy a name stands for; unknown names mean the full strategy.
pub open spec fn strategy_named(s: Seq<char>) -> CacheStrategy {
    if s == "none"@ {
        CacheStrategy::NoCache
    } else if s == "system_only"@ {
        CacheStrategy::SystemOnly
    } else if s == "standard"@ {
        CacheStrategy::Standard
    } else {
        CacheStrategy::Full
    }
}

/// The name of a strategy.
pub open spec fn strategy_name(c: CacheStrategy) -> Seq<char> {
    match c {
        CacheStrategy::NoCache => "none"@,
        CacheStrategy::SystemOnly => "system_only"@,
        CacheStrategy::Standard => "standard"@,
        CacheStrategy::Full => "full"@,
    }
}

impl CacheStrategy {
    /// The strategy named `s`: "none", "system_only", "standard" or "full";
    /// any other name means the full strategy.
    pub fn from_str(s: &str) -> (r: CacheStrategy)
        ensures
            r == strategy_named(s@),
    {
        if text_eq(s, "none") {
            CacheStrategy::NoCache
        } else if text_eq(s, "system_only") {
            CacheStrategy::SystemOnly
        } else if text_eq(s, "standard") {
            CacheStrategy::Standard
        } else {
            CacheStrategy::Full
        }
    }

    /// The strategy's name.
    pub fn as_str(&self) -> (r: &'static str)
        ensures
            r@ == strategy_name(*self),
    {
        match self {
            CacheStrategy::NoCache => "none",
            CacheStrategy::SystemOnly => "system_only",
            CacheStrategy::Standard => "standard",
            CacheStrategy::Full => "full",
        }
    }
}

/// The cache mark: `{"type": "ephemeral"}`.
pub open spec fn ephemeral() -> JsonView {
    JsonView::Object(seq![("type"@, JsonView::Str("ephemeral"@))])
}

/// `v` with `key` set to `value` when it is an object; other values are
/// kept.
pub open spec fn with_field(v: JsonView, key: Seq<char>, value: JsonView) -> JsonView {
    match v {
        JsonView::Object(e) => JsonView::Object(set_entry(e, key, value)),
        _ => v,
    }
}

/// Whether a value can take a cache mark: an object, or null (which
/// becomes an object).
pub open spec fn taggable(v: JsonView) -> bool {
    v is Object || v is Null
}

/// `v` with a cache mark, unless it has one already.
pub open spec fn tag(v: JsonView) -> JsonView {
    match v {
        JsonView::Object(e) => if field(v, "cache_control"@) is Some {
            v
        } else {
            JsonView::Object(set_entry(e, "cache_control"@, ephemeral()))
        },
        JsonView::Null => JsonView::Object(seq![("cache_control"@, ephemeral())]),
        _ => v,
    }
}

/// `a` with its last element marked.
pub open spec fn tag_last(a: Seq<JsonView>) -> Seq<JsonView> {
    if a.len() == 0 {
        a
    } else {
        a.update(a.len() - 1, tag(a.last()))
    }
}

/// A text block carrying a cache mark.
pub open spec fn marked_text_block(text: Seq<char>) -> JsonView {
    JsonView::Object(
        seq![
            ("cache_control"@, ephemeral()),
            ("text"@, JsonView::Str(text)),
            ("type"@, JsonView::Str("text"@)),
        ],
    )
}

/// A message with its content marked: a text content becomes one marked
/// text block; of block content, the last block is marked.
pub open spec fn tag_content(m: JsonView) -> JsonView {
    match field(m, "content"@) {
        Some(JsonView::Str(t)) => with_field(
            m,
            "content"@,
            JsonView::Array(seq![marked_text_block(t)]),
        ),
        Some(JsonView::Array(blocks)) => with_field(
            m,
            "content"@,
            JsonView::Array(tag_last(blocks)),
        ),
        _ => m,
    }
}

/// Whether the content of message `m` can be marked without fault.
pub open spec fn content_taggable(m: JsonView) -> bool {
    match field(m, "content"@) {
        Some(JsonView::Array(blocks)) => blocks.len() == 0 || taggable(blocks.last()),
        _ => true,
    }
}

/// Whether message `m` has role `role`.
pub open spec fn has_role(m: JsonView, role: Seq<char>) -> bool {
    str_of(field(m, "role"@)) == Some(role)
}

/// The index of the last message with role `role`.
pub open spec fn last_with_role(ms: Seq<JsonView>, role: Seq<char>) -> Option<int>
    decreases ms.len(),
{
    if ms.len() == 0 {
        None
    } else if has_role(ms.last(), role) {
        Some(ms.len() - 1)
    } else {
        last_with_role(ms.drop_last(), role)
    }
}

/// The indices of the user messages, in order.
pub open spec fn user_indices(ms: Seq<JsonView>) -> Seq<int>
    decreases ms.len(),
{
    if ms.len() == 0 {
        Seq::empty()
    } else if has_role(ms.last(), "user"@) {
        user_indices(ms.drop_last()).push(ms.len() - 1)
    } else {
        user_indices(ms.drop_last())
    }
}

/// The messages of a request body.
pub open spec fn messages_of(body: JsonView) -> Option<Seq<JsonView>> {
    array_of(field(body, "messages"@))
}

/// The body with the content of message `i` marked.
pub open spec fn tag_message(body: JsonView, ms: Seq<JsonView>, i: int) -> JsonView {
    with_field(body, "messages"@, JsonView::Array(ms.update(i, tag_content(ms[i]))))
}

/// Step one: the last system message is marked.
pub open spec fn mark_system(body: JsonView) -> JsonView {
    match messages_of(body) {
        Some(ms) => match last_with_role(ms, "system"@) {
            Some(i) => tag_message(body, ms, i),
            None => body,
        },
        None => body,
    }
}

/// Step two: the last tool is marked.
pub open spec fn mark_tools(body: JsonView) -> JsonView {
    match array_of(field(body, "tools"@)) {
        Some(ts) => if ts.len() > 0 {
            with_field(body, "tools"@, JsonView::Array(tag_last(ts)))
        } else {
            body
        },
        None => body,
    }
}

/// The user message that the full strategy marks: the second-to-last user
/// message, or the only one when a system message or tools precede it.
pub open spec fn history_target(body: JsonView) -> Option<int> {
    match messages_of(body) {
        Some(ms) => {
            let u = user_indices(ms);
            let has_system = exists|j: int| 0 <= j < ms.len() && has_role(ms[j], "system"@);
            let has_tools = field(body, "tools"@) is Some;
            if u.len() >= 2 {
                Some(u[u.len() - 2])
            } else if u.len() == 1 && (has_system || has_tools) {
                Some(u[0])
            } else {
                None
            }
        },
        None => None,
    }
}

/// Step three: the history target is marked.
pub open spec fn mark_history(body: JsonView) -> JsonView {
    match history_target(body) {
        Some(i) => tag_message(body, messages_of(body).unwrap(), i),
        None => body,
    }
}

/// The body with the breakpoints of `strategy` injected.
pub open spec fn injected(body: JsonView, strategy: CacheStrategy) -> JsonView {
    match strategy {
        CacheStrategy::NoCache => body,
        CacheStrategy::SystemOnly => mark_system(body),
        CacheStrategy::Standard => mark_tools(mark_system(body)),
        CacheStrategy::Full => mark_history(mark_tools(mark_system(body))),
    }
}

/// Whether each element that `strategy` marks can take a mark.
pub open spec fn injectable(body: JsonView, strategy: CacheStrategy) -> bool {
    &&& strategy != CacheStrategy::NoCache ==> match messages_of(body) {
        Some(ms) => match last_with_role(ms, "system"@) {
            Some(i) => content_taggable(ms[i]),
            None => true,
        },
        None => true,
    }
    &&& (strategy == CacheStrategy::Standard || strategy == CacheStrategy::Full) ==> match array_of(
        field(mark_system(body), "tools"@),
    ) {
        Some(ts) => ts.len() == 0 || taggable(ts.last()),
        None => true,
    }
    &&& strategy == CacheStrategy::Full ==> match history_target(
        mark_tools(mark_system(body)),
    ) {
        Some(i) => content_taggable(
            messages_of(mark_tools(mark_system(body))).unwrap()[i],
        ),
        None => true,
    }
}

/// The cache mark.
fn ephemeral_value() -> (r: Json)
    ensures
        r@ == ephemeral(),
{
    let mut o: Vec<(String, Json)> = Vec::new();
    o.push((String::from_str("type"), jstr("ephemeral")));
    proof {
        lemma_object_view(o);
        assert(entry_views(o@) =~= seq![("type"@, JsonView::Str("ephemeral"@))]);
    }
    Json::Object(o)
}

/// Marks a value, unless it has a mark.
fn tag_value(v: Json) -> (r: Json)
    requires
        taggable(v@),
    ensures
        r@ == tag(v@),
{
    match v {
        Json::Null => {
            let mut o: Vec<(String, Json)> = Vec::new();
            o.push((String::from_str("cache_control"), ephemeral_value()));
            proof {
                lemma_object_view(o);
                assert(entry_views(o@) =~= seq![("cache_control"@, ephemeral())]);
            }
            Json::Object(o)
        },
        _ => {
            if v.get("cache_control").is_some() {
                v
            } else {
                let mut w = v;
                w.set("cache_control", ephemeral_value());
                w
            }
        },
    }
}

/// Marks the last element of `a`.
fn tag_last_element(a: Vec<Json>) -> (r: Vec<Json>)
    requires
        a@.len() == 0 || taggable(a@.last()@),
    ensures
        jviews(r@) == tag_last(jviews(a@)),
{
    let mut a = a;
    let n = a.len();
    if n == 0 {
        return a;
    }
    let ghost before = jviews(a@);
    let mut last = Json::Null;
    std::mem::swap(&mut last, &mut a[n - 1]);
    let tagged = tag_value(last);
    a.set(n - 1, tagged);
    assert(jviews(a@) =~= before.update(n - 1, tag(before.last())));
    a
}

/// A marked text block.
fn marked_block(text: String) -> (r: Json)
    ensures
        r@ == marked_text_block(text@),
{
    let mut o: Vec<(String, Json)> = Vec::new();
    o.push((String::from_str("cache_control"), ephemeral_value()));
    o.push((String::from_str("text"), Json::Str(text)));
    o.push((String::from_str("type"), jstr("text")));
    proof {
        lemma_object_view(o);
        assert(entry_views(o@) =~= marked_text_block(text@)->Object_0);
    }
    Json::Object(o)
}

/// Marks the content of a message.
fn tag_message_content(m: Json) -> (r: Json)
    requires
        content_taggable(m@),
    ensures
        r@ == tag_content(m@),
{
    let replacement: Option<Json> = match m.get("content") {
        Some(Json::Str(t)) => {
            let mut blocks: Vec<Json> = Vec::new();
            blocks.push(marked_block(t.clone()));
            proof {
                lemma_array_view(blocks);
                assert(jviews(blocks@) =~= seq![marked_text_block(t@)]);
            }
            Some(Json::Array(blocks))
        },
        Some(Json::Array(blocks)) => {
            proof {
                lemma_array_view(*blocks);
            }
            let mut copy: Vec<Json> = Vec::new();
            let mut i: usize = 0;
            while i < blocks.len()
                invariant
                    0 <= i <= blocks@.len(),
                    jviews(copy@) == jviews(blocks@).subrange(0, i as int),
                decreases blocks@.len() - i,
            {
                let ghost prev = copy@;
                copy.push(blocks[i].clone());
                assert(jviews(copy@) =~= jviews(prev).push(blocks@[i as int]@));
                assert(jviews(blocks@).subrange(0, i + 1) =~= jviews(blocks@).subrange(
                    0,
                    i as int,
                ).push(blocks@[i as int]@));
                i = i + 1;
            }
            assert(jviews(blocks@).subrange(0, blocks@.len() as int) =~= jviews(blocks@));
            assert(copy@.len() == 0 || copy@.last()@ == jviews(copy@).last());
            let tagged = tag_last_element(copy);
            proof {
                lemma_array_view(tagged);
            }
            Some(Json::Array(tagged))
        },
        _ => None,
    };
    match replacement {
        Some(c) => {
            let mut w = m;
            w.set("content", c);
            w
        },
        None => m,
    }
}

/// Whether message `m` has role `role`.
fn message_has_role(m: &Json, role: &str) -> (r: bool)
    ensures
        r == has_role(m@, role@),
{
    match m.get("role") {
        Some(v) => match v.as_str() {
            Some(s) => text_eq(s, role),
            None => false,
        },
        None => false,
    }
}

/// The index of the last message with role `role`.
fn last_role_index(ms: &Vec<Json>, role: &str) -> (r: Option<usize>)
    ensures
        match last_with_role(jviews(ms@), role@) {
            Some(i) => r matches Some(j) && j == i,
            None => r is None,
        },
        r matches Some(j) ==> j < ms@.len(),
{
    let ghost v = jviews(ms@);
    let mut i: usize = ms.len();
    assert(v.subrange(0, i as int) =~= v);
    while i > 0
        invariant
            0 <= i <= ms@.len(),
            v == jviews(ms@),
            last_with_role(v, role@) == last_with_role(v.subrange(0, i as int), role@),
        decreases i,
    {
        let ghost w = v.subrange(0, i as int);
        assert(w.last() == ms@[i - 1]@);
        assert(w.drop_last() =~= v.subrange(0, i - 1));
        if message_has_role(&ms[i - 1], role) {
            return Some(i - 1);
        }
        i = i - 1;
    }
    None
}

/// One step of `user_indices` along a prefix.
proof fn lemma_user_indices_step(v: Seq<JsonView>, i: int)
    requires
        0 <= i < v.len(),
    ensures
        user_indices(v.subrange(0, i + 1)) == if has_role(v[i], "user"@) {
            user_indices(v.subrange(0, i)).push(i)
        } else {
            user_indices(v.subrange(0, i))
        },
{
    let w = v.subrange(0, i + 1);
    assert(w.drop_last() =~= v.subrange(0, i));
    assert(w.last() == v[i]);
}

/// The indices of the user messages, in order.
fn user_positions(ms: &Vec<Json>) -> (r: Vec<usize>)
    ensures
        r@.len() == user_indices(jviews(ms@)).len(),
        forall|k: int| 0 <= k < r@.len() ==> r@[k] as int == user_indices(jviews(ms@))[k],
{
    let ghost v = jviews(ms@);
    let mut out: Vec<usize> = Vec::new();
    let mut i: usize = 0;
    while i < ms.len()
        invariant
            0 <= i <= ms@.len(),
            v == jviews(ms@),
            out@.len() == user_indices(v.subrange(0, i as int)).len(),
            forall|k: int| 0 <= k < out@.len() ==> out@[k] as int == user_indices(v.subrange(0, i as int))[k],
        decreases ms@.len() - i,
    {
        proof {
            lemma_user_indices_step(v, i as int);
        }
        assert(v[i as int] == ms@[i as int]@);
        if message_has_role(&ms[i], "user") {
            out.push(i);
        }
        i = i + 1;
    }
    assert(v.subrange(0, ms@.len() as int) =~= v);
    out
}

/// A copy of a list of values.
fn copy_values(a: &Vec<Json>) -> (r: Vec<Json>)
    ensures
        jviews(r@) == jviews(a@),
        r@.len() == a@.len(),
{
    let mut copy: Vec<Json> = Vec::new();
    let mut i: usize = 0;
    while i < a.len()
        invariant
            0 <= i <= a@.len(),
            copy@.len() == i,
            jviews(copy@) == jviews(a@).subrange(0, i as int),
        decreases a@.len() - i,
    {
        let ghost prev = copy@;
        copy.push(a[i].clone());
        assert(jviews(copy@) =~= jviews(prev).push(a@[i as int]@));
        assert(jviews(a@).subrange(0, i + 1) =~= jviews(a@).subrange(0, i as int).push(
            a@[i as int]@,
        ));
        i = i + 1;
    }
    assert(jviews(a@).subrange(0, a@.len() as int) =~= jviews(a@));
    copy
}

/// The messages of a body, copied.
fn body_messages(body: &Json) -> (r: Option<Vec<Json>>)
    ensures
        match messages_of(body@) {
            Some(ms) => r matches Some(v) && jviews(v@) == ms,
            None => r is None,
        },
{
    match body.get("messages") {
        Some(m) => match m.as_array() {
            Some(a) => Some(copy_values(a)),
            None => None,
        },
        None => None,
    }
}

/// Marks the content of message `i` of the body.
fn mark_message_at(body: &mut Json, ms: Vec<Json>, i: usize)
    requires
        messages_of(old(body)@) == Some(jviews(ms@)),
        i < ms@.len(),
        content_taggable(ms@[i as int]@),
    ensures
        final(body)@ == tag_message(old(body)@, jviews(ms@), i as int),
{
    let ghost v = jviews(ms@);
    let mut ms2 = ms;
    let mut m = Json::Null;
    std::mem::swap(&mut m, &mut ms2[i]);
    ms2.set(i, tag_message_content(m));
    assert(jviews(ms2@) =~= v.update(i as int, tag_content(v[i as int])));
    proof {
        lemma_array_view(ms2);
    }
    body.set("messages", Json::Array(ms2));
}

/// Step one: marks the last system message.
fn mark_system_exec(body: &mut Json)
    requires
        match messages_of(old(body)@) {
            Some(ms) => match last_with_role(ms, "system"@) {
                Some(i) => content_taggable(ms[i]),
                None => true,
            },
            None => true,
        },
    ensures
        final(body)@ == mark_system(old(body)@),
{
    match body_messages(body) {
        Some(ms) => match last_role_index(&ms, "system") {
            Some(i) => mark_message_at(body, ms, i),
            None => {},
        },
        None => {},
    }
}

/// Step two: marks the last tool.
fn mark_tools_exec(body: &mut Json)
    requires
        match array_of(field(old(body)@, "tools"@)) {
            Some(ts) => ts.len() == 0 || taggable(ts.last()),
            None => true,
        },
    ensures
        final(body)@ == mark_tools(old(body)@),
{
    let tools: Option<Vec<Json>> = match body.get("tools") {
        Some(t) => match t.as_array() {
            Some(a) => Some(copy_values(a)),
            None => None,
        },
        None => None,
    };
    match tools {
        Some(ts) => {
            if ts.len() > 0 {
                assert(ts@.last()@ == jviews(ts@).last());
                let tagged = tag_last_element(ts);
                proof {
                    lemma_array_view(tagged);
                }
                body.set("tools", Json::Array(tagged));
            }
        },
        None => {},
    }
}

/// Whether some message has role `role`.
fn any_with_role(ms: &Vec<Json>, role: &str) -> (r: bool)
    ensures
        r == exists|j: int| 0 <= j < ms@.len() && has_role(jviews(ms@)[j], role@),
{
    let ghost v = jviews(ms@);
    let mut i: usize = 0;
    while i < ms.len()
        invariant
            0 <= i <= ms@.len(),
            v == jviews(ms@),
            forall|j: int| 0 <= j < i ==> !has_role(v[j], role@),
        decreases ms@.len() - i,
    {
        assert(v[i as int] == ms@[i as int]@);
        if message_has_role(&ms[i], role) {
            return true;
        }
        i = i + 1;
    }
    false
}

/// Step three: marks the history target.
fn mark_history_exec(body: &mut Json)
    requires
        match history_target(old(body)@) {
            Some(i) => content_taggable(messages_of(old(body)@).unwrap()[i]),
            None => true,
        },
    ensures
        final(body)@ == mark_history(old(body)@),
{
    match body_messages(body) {
        Some(ms) => {
            let ghost v = jviews(ms@);
            let users = user_positions(&ms);
            let ghost u = user_indices(v);
            let has_system = any_with_role(&ms, "system");
            let has_tools = body.get("tools").is_some();
            let n = users.len();
            let target: Option<usize> = if n >= 2 {
                Some(users[n - 2])
            } else if n == 1 && (has_system || has_tools) {
                Some(users[0])
            } else {
                None
            };
            assert(n >= 2 ==> u[n - 2] == users@[n - 2] as int);
            assert(n == 1 ==> u[0] == users@[0] as int);
            match target {
                Some(i) => {
                    proof {
                        lemma_user_indices_bound(v);
                    }
                    assert(0 <= i < ms@.len());
                    assert(ms@[i as int]@ == v[i as int]);
                    mark_message_at(body, ms, i);
                },
                None => {},
            }
        },
        None => {},
    }
}

/// User indices are indices of the messages.
proof fn lemma_user_indices_bound(ms: Seq<JsonView>)
    ensures
        forall|k: int| 0 <= k < user_indices(ms).len() ==> 0 <= #[trigger] user_indices(ms)[k] < ms.len(),
    decreases ms.len(),
{
    if ms.len() > 0 {
        lemma_user_indices_bound(ms.drop_last());
        let u = user_indices(ms.drop_last());
        assert forall|k: int| 0 <= k < user_indices(ms).len() implies 0 <= #[trigger] user_indices(
            ms,
        )[k] < ms.len() by {
            if k < u.len() {
                assert(user_indices(ms)[k] == u[k]);
            }
        }
    }
}

/// Injects the cache breakpoints of `strategy` into a chat request body:
/// the last system message, then (standard and full) the last tool, then
/// (full) the second-to-last user message, or the only user message when a
/// system message or tools precede it. A text content becomes one marked
/// text block; of block content, the last block is marked; a value that
/// has a mark keeps it.
pub fn inject_cache_breakpoints(body: &mut Json, strategy: CacheStrategy)
    requires
        injectable(old(body)@, strategy),
    ensures
        final(body)@ == injected(old(body)@, strategy),
{
    if strategy == CacheStrategy::NoCache {
        return ;
    }
    mark_system_exec(body);
    if strategy == CacheStrategy::SystemOnly {
        return ;
    }
    mark_tools_exec(body);
    if strategy == CacheStrategy::Standard {
        return ;
    }
    mark_history_exec(body);
}

/// Whether every message of the body can have its content marked.
pub open spec fn messages_taggable(body: JsonView) -> bool {
    match messages_of(body) {
        Some(ms) => forall|i: int| 0 <= i < ms.len() ==> content_taggable(#[trigger] ms[i]),
        None => true,
    }
}

/// Whether the last tool of the body can take a mark.
pub open spec fn tools_taggable(body: JsonView) -> bool {
    match array_of(field(body, "tools"@)) {
        Some(ts) => ts.len() == 0 || taggable(ts.last()),
        None => true,
    }
}

proof fn lemma_last_with_role_bound(ms: Seq<JsonView>, role: Seq<char>)
    ensures
        last_with_role(ms, role) matches Some(i) ==> 0 <= i < ms.len(),
    decreases ms.len(),
{
    if ms.len() > 0 {
        lemma_last_with_role_bound(ms.drop_last(), role);
    }
}

proof fn lemma_with_field(v: JsonView, key: Seq<char>, value: JsonView, other: Seq<char>)
    requires
        v is Object,
    ensures
        field(with_field(v, key, value), key) == Some(value),
        other != key ==> field(with_field(v, key, value), other) == field(v, other),
{
    crate::json::lemma_set_entry_same(v->Object_0, key, value);
    if other != key {
        crate::json::lemma_set_entry_other(v->Object_0, key, value, other);
    }
}

proof fn lemma_tag_content_taggable(m: JsonView)
    requires
        content_taggable(m),
    ensures
        content_taggable(tag_content(m)),
{
    match field(m, "content"@) {
        Some(JsonView::Str(t)) => {
            lemma_with_field(m, "content"@, JsonView::Array(seq![marked_text_block(t)]), "content"@);
        },
        Some(JsonView::Array(blocks)) => {
            lemma_with_field(m, "content"@, JsonView::Array(tag_last(blocks)), "content"@);
        },
        _ => {},
    }
}

proof fn lemma_mark_system_keeps(body: JsonView)
    requires
        messages_taggable(body),
    ensures
        messages_taggable(mark_system(body)),
        field(mark_system(body), "tools"@) == field(body, "tools"@),
{
    reveal_strlit("tools");
    reveal_strlit("messages");
    assert("tools"@.len() == 5 && "messages"@.len() == 8);
    match messages_of(body) {
        Some(ms) => {
            lemma_last_with_role_bound(ms, "system"@);
            match last_with_role(ms, "system"@) {
                Some(i) => {
                    let updated = ms.update(i, tag_content(ms[i]));
                    lemma_with_field(body, "messages"@, JsonView::Array(updated), "tools"@);
                    lemma_tag_content_taggable(ms[i]);
                    assert forall|j: int| 0 <= j < updated.len() implies content_taggable(
                        #[trigger] updated[j],
                    ) by {
                        if j != i {
                            assert(updated[j] == ms[j]);
                        }
                    }
                },
                None => {},
            }
        },
        None => {},
    }
}

proof fn lemma_mark_tools_keeps(body: JsonView)
    ensures
        messages_of(mark_tools(body)) == messages_of(body),
        field(mark_tools(body), "tools"@) is Some == field(body, "tools"@) is Some,
{
    reveal_strlit("tools");
    reveal_strlit("messages");
    assert("tools"@.len() == 5 && "messages"@.len() == 8);
    match array_of(field(body, "tools"@)) {
        Some(ts) => {
            if ts.len() > 0 {
                lemma_with_field(body, "tools"@, JsonView::Array(tag_last(ts)), "messages"@);
            }
        },
        None => {},
    }
}

/// A body whose messages and last tool can all be marked can take the
/// breakpoints of any strategy.
pub proof fn lemma_injectable(body: JsonView, strategy: CacheStrategy)
    requires
        messages_taggable(body),
        tools_taggable(body),
    ensures
        injectable(body, strategy),
{
    match messages_of(body) {
        Some(ms) => {
            lemma_last_with_role_bound(ms, "system"@);
        },
        None => {},
    }
    lemma_mark_system_keeps(body);
    let b2 = mark_tools(mark_system(body));
    lemma_mark_tools_keeps(mark_system(body));
    match messages_of(b2) {
        Some(ms2) => {
            lemma_user_indices_bound(ms2);
        },
        None => {},
    }
}

/// Setting a key to the value it holds already changes nothing.
proof fn lemma_set_entry_idem(e: Seq<(Seq<char>, JsonView)>, k: Seq<char>, v: JsonView)
    requires
        crate::json::entry(e, k) == Some(v),
    ensures
        set_entry(e, k, v) == e,
{
    crate::text::lemma_first_named(crate::json::keys_of(e), k);
    let i = crate::text::first_named(crate::json::keys_of(e), k).unwrap();
    assert(crate::json::keys_of(e)[i] == e[i].0);
    assert(e.update(i, (k, v)) =~= e);
}

/// Setting a field to the value it holds already changes nothing.
proof fn lemma_with_field_idem(x: JsonView, k: Seq<char>, v: JsonView)
    requires
        field(x, k) == Some(v),
    ensures
        with_field(x, k, v) == x,
{
    lemma_set_entry_idem(x->Object_0, k, v);
}

/// A marked value stays as it is when marked again.
proof fn lemma_tag_idem(v: JsonView)
    ensures
        tag(tag(v)) == tag(v),
{
    match v {
        JsonView::Object(e) => {
            if field(v, "cache_control"@) is None {
                crate::json::lemma_set_entry_same(e, "cache_control"@, ephemeral());
            }
        },
        JsonView::Null => {
            let e = seq![("cache_control"@, ephemeral())];
            crate::text::lemma_first_named(crate::json::keys_of(e), "cache_control"@);
            assert(crate::json::keys_of(e)[0] == "cache_control"@);
        },
        _ => {},
    }
}

/// Marking the last element twice is marking it once.
proof fn lemma_tag_last_idem(a: Seq<JsonView>)
    ensures
        tag_last(tag_last(a)) == tag_last(a),
{
    if a.len() > 0 {
        lemma_tag_idem(a.last());
        assert(tag_last(tag_last(a)) =~= tag_last(a));
    }
}

/// A marked text block is marked already.
proof fn lemma_marked_block_fixed(t: Seq<char>)
    ensures
        tag(marked_text_block(t)) == marked_text_block(t),
{
    let e = marked_text_block(t)->Object_0;
    crate::text::lemma_first_named(crate::json::keys_of(e), "cache_control"@);
    assert(crate::json::keys_of(e)[0] == "cache_control"@);
}

/// Marking a message's content twice is marking it once, and marking
/// keeps its role.
proof fn lemma_tag_content_idem(m: JsonView)
    ensures
        tag_content(tag_content(m)) == tag_content(m),
        field(tag_content(m), "role"@) == field(m, "role"@),
{
    reveal_strlit("content");
    reveal_strlit("role");
    assert("content"@.len() == 7 && "role"@.len() == 4);
    match field(m, "content"@) {
        Some(JsonView::Str(t)) => {
            let c = JsonView::Array(seq![marked_text_block(t)]);
            lemma_with_field(m, "content"@, c, "role"@);
            lemma_marked_block_fixed(t);
            assert(tag_last(seq![marked_text_block(t)]) =~= seq![marked_text_block(t)]);
            lemma_with_field_idem(tag_content(m), "content"@, c);
        },
        Some(JsonView::Array(blocks)) => {
            let c = JsonView::Array(tag_last(blocks));
            lemma_with_field(m, "content"@, c, "role"@);
            lemma_tag_last_idem(blocks);
            lemma_with_field_idem(tag_content(m), "content"@, c);
        },
        _ => {},
    }
}

/// Whether two message lists have the same roles, message by message.
spec fn same_roles(a: Seq<JsonView>, b: Seq<JsonView>) -> bool {
    &&& a.len() == b.len()
    &&& forall|j: int| 0 <= j < a.len() ==> field(#[trigger] a[j], "role"@) == field(b[j], "role"@)
}

/// Lists with the same roles have their messages of a role, and their user
/// messages, in the same places.
proof fn lemma_same_roles(a: Seq<JsonView>, b: Seq<JsonView>, role: Seq<char>)
    requires
        same_roles(a, b),
    ensures
        last_with_role(a, role) == last_with_role(b, role),
        user_indices(a) == user_indices(b),
        (exists|j: int| 0 <= j < a.len() && has_role(a[j], "system"@)) == (exists|j: int|
            0 <= j < b.len() && has_role(b[j], "system"@)),
    decreases a.len(),
{
    if a.len() > 0 {
        assert(field(a.last(), "role"@) == field(b.last(), "role"@));
        assert(same_roles(a.drop_last(), b.drop_last())) by {
            assert forall|j: int| 0 <= j < a.drop_last().len() implies field(
                #[trigger] a.drop_last()[j],
                "role"@,
            ) == field(b.drop_last()[j], "role"@) by {
                assert(field(a[j], "role"@) == field(b[j], "role"@));
            }
        }
        lemma_same_roles(a.drop_last(), b.drop_last(), role);
    }
    if exists|j: int| 0 <= j < a.len() && has_role(a[j], "system"@) {
        let j = choose|j: int| 0 <= j < a.len() && has_role(a[j], "system"@);
        assert(field(a[j], "role"@) == field(b[j], "role"@));
        assert(has_role(b[j], "system"@));
    }
    if exists|j: int| 0 <= j < b.len() && has_role(b[j], "system"@) {
        let j = choose|j: int| 0 <= j < b.len() && has_role(b[j], "system"@);
        assert(field(a[j], "role"@) == field(b[j], "role"@));
        assert(has_role(a[j], "system"@));
    }
}

/// The message found by role has that role.
proof fn lemma_last_with_role_has(ms: Seq<JsonView>, role: Seq<char>)
    ensures
        last_with_role(ms, role) matches Some(i) ==> 0 <= i < ms.len() && has_role(ms[i], role),
    decreases ms.len(),
{
    if ms.len() > 0 {
        lemma_last_with_role_has(ms.drop_last(), role);
    }
}

/// The user indices point at user messages.
proof fn lemma_user_indices_have(ms: Seq<JsonView>)
    ensures
        forall|k: int|
            0 <= k < user_indices(ms).len() ==> 0 <= #[trigger] user_indices(ms)[k] < ms.len()
                && has_role(ms[user_indices(ms)[k]], "user"@),
    decreases ms.len(),
{
    if ms.len() > 0 {
        lemma_user_indices_have(ms.drop_last());
        let u = user_indices(ms.drop_last());
        assert forall|k: int| 0 <= k < user_indices(ms).len() implies 0 <= #[trigger] user_indices(
            ms,
        )[k] < ms.len() && has_role(ms[user_indices(ms)[k]], "user"@) by {
            if k < u.len() {
                assert(user_indices(ms)[k] == u[k]);
                assert(ms.drop_last()[u[k]] == ms[u[k]]);
            }
        }
    }
}

/// What marking message `i` of a body does: the messages are the same but
/// message `i` marked, which then needs no more marking; roles and tools
/// stay.
proof fn lemma_tag_message(x: JsonView, ms: Seq<JsonView>, i: int)
    requires
        messages_of(x) == Some(ms),
        0 <= i < ms.len(),
    ensures
        messages_of(tag_message(x, ms, i)) == Some(ms.update(i, tag_content(ms[i]))),
        same_roles(ms, ms.update(i, tag_content(ms[i]))),
        tag_content(ms.update(i, tag_content(ms[i]))[i]) == ms.update(i, tag_content(ms[i]))[i],
        field(tag_message(x, ms, i), "tools"@) == field(x, "tools"@),
{
    reveal_strlit("tools");
    reveal_strlit("messages");
    assert("tools"@.len() == 5 && "messages"@.len() == 8);
    let u = ms.update(i, tag_content(ms[i]));
    lemma_with_field(x, "messages"@, JsonView::Array(u), "tools"@);
    lemma_tag_content_idem(ms[i]);
    assert forall|j: int| 0 <= j < ms.len() implies field(#[trigger] ms[j], "role"@) == field(
        u[j],
        "role"@,
    ) by {
        if j != i {
            assert(u[j] == ms[j]);
        }
    }
}

/// Marking a message that needs no more marking changes nothing.
proof fn lemma_tag_message_fixed(x: JsonView, ms: Seq<JsonView>, i: int)
    requires
        messages_of(x) == Some(ms),
        0 <= i < ms.len(),
        tag_content(ms[i]) == ms[i],
    ensures
        tag_message(x, ms, i) == x,
{
    assert(ms.update(i, tag_content(ms[i])) =~= ms);
    lemma_with_field_idem(x, "messages"@, JsonView::Array(ms));
}

/// Whether the last system message of a body needs no more marking.
spec fn system_fixed(x: JsonView) -> bool {
    match messages_of(x) {
        Some(ms) => match last_with_role(ms, "system"@) {
            Some(i) => tag_content(ms[i]) == ms[i],
            None => true,
        },
        None => true,
    }
}

/// Whether the last tool of a body needs no more marking.
spec fn tools_fixed(x: JsonView) -> bool {
    match array_of(field(x, "tools"@)) {
        Some(ts) => ts.len() > 0 ==> tag(ts.last()) == ts.last(),
        None => true,
    }
}

/// Whether the history target of a body needs no more marking.
spec fn history_fixed(x: JsonView) -> bool {
    match history_target(x) {
        Some(h) => tag_content(messages_of(x).unwrap()[h]) == messages_of(x).unwrap()[h],
        None => true,
    }
}

proof fn lemma_history_target_bound(x: JsonView)
    ensures
        history_target(x) matches Some(h) ==> messages_of(x) is Some && 0 <= h < messages_of(
            x,
        ).unwrap().len() && has_role(messages_of(x).unwrap()[h], "user"@),
{
    match messages_of(x) {
        Some(ms) => {
            lemma_user_indices_have(ms);
            let u = user_indices(ms);
            if u.len() >= 2 {
                assert(0 <= u[u.len() - 2] < ms.len());
            } else if u.len() == 1 {
                assert(0 <= u[0] < ms.len());
            }
        },
        None => {},
    }
}

/// Marking the system message leaves it needing no more marking.
proof fn lemma_system_fixes(x: JsonView)
    ensures
        system_fixed(mark_system(x)),
        field(mark_system(x), "tools"@) == field(x, "tools"@),
{
    match messages_of(x) {
        Some(ms) => {
            lemma_last_with_role_bound(ms, "system"@);
            match last_with_role(ms, "system"@) {
                Some(i) => {
                    lemma_tag_message(x, ms, i);
                    lemma_same_roles(ms, ms.update(i, tag_content(ms[i])), "system"@);
                },
                None => {},
            }
        },
        None => {},
    }
}

/// A body whose system message needs no more marking is left as it is.
proof fn lemma_system_fixed(x: JsonView)
    requires
        system_fixed(x),
    ensures
        mark_system(x) == x,
{
    match messages_of(x) {
        Some(ms) => {
            lemma_last_with_role_bound(ms, "system"@);
            match last_with_role(ms, "system"@) {
                Some(i) => lemma_tag_message_fixed(x, ms, i),
                None => {},
            }
        },
        None => {},
    }
}

/// Marking the tools leaves the last tool needing no more marking, and
/// keeps the messages.
proof fn lemma_tools_fixes(x: JsonView)
    ensures
        tools_fixed(mark_tools(x)),
        messages_of(mark_tools(x)) == messages_of(x),
        field(mark_tools(x), "tools"@) is Some == field(x, "tools"@) is Some,
{
    lemma_mark_tools_keeps(x);
    match array_of(field(x, "tools"@)) {
        Some(ts) => {
            if ts.len() > 0 {
                lemma_with_field(x, "tools"@, JsonView::Array(tag_last(ts)), "tools"@);
                lemma_tag_idem(ts.last());
            }
        },
        None => {},
    }
}

/// A body whose last tool needs no more marking is left as it is.
proof fn lemma_tools_fixed(x: JsonView)
    requires
        tools_fixed(x),
    ensures
        mark_tools(x) == x,
{
    match array_of(field(x, "tools"@)) {
        Some(ts) => {
            if ts.len() > 0 {
                assert(tag_last(ts) =~= ts);
                lemma_with_field_idem(x, "tools"@, JsonView::Array(ts));
            }
        },
        None => {},
    }
}

/// Marking the history keeps the tools, keeps the system message needing
/// no more marking, and leaves the history target needing none either.
proof fn lemma_history_fixes(x: JsonView)
    ensures
        history_fixed(mark_history(x)),
        field(mark_history(x), "tools"@) == field(x, "tools"@),
        system_fixed(x) ==> system_fixed(mark_history(x)),
{
    lemma_history_target_bound(x);
    match history_target(x) {
        Some(h) => {
            let ms = messages_of(x).unwrap();
            let u = ms.update(h, tag_content(ms[h]));
            lemma_tag_message(x, ms, h);
            lemma_same_roles(ms, u, "system"@);
            let y = mark_history(x);
            assert(history_target(y) == Some(h));
            lemma_last_with_role_has(ms, "system"@);
            match last_with_role(ms, "system"@) {
                Some(i) => {
                    reveal_strlit("user");
                    reveal_strlit("system");
                    assert("user"@.len() == 4 && "system"@.len() == 6);
                    assert(i != h);
                    assert(u[i] == ms[i]);
                },
                None => {},
            }
        },
        None => {},
    }
}

/// A body whose history target needs no more marking is left as it is.
proof fn lemma_history_fixed(x: JsonView)
    requires
        history_fixed(x),
    ensures
        mark_history(x) == x,
{
    lemma_history_target_bound(x);
    match history_target(x) {
        Some(h) => lemma_tag_message_fixed(x, messages_of(x).unwrap(), h),
        None => {},
    }
}

/// Injecting the breakpoints of a strategy twice is injecting them once.
pub proof fn law_injection_idempotent(body: JsonView, strategy: CacheStrategy)
    ensures
        injected(injected(body, strategy), strategy) == injected(body, strategy),
{
    let s = mark_system(body);
    lemma_system_fixes(body);
    match strategy {
        CacheStrategy::NoCache => {},
        CacheStrategy::SystemOnly => {
            lemma_system_fixed(s);
        },
        CacheStrategy::Standard => {
            let b = mark_tools(s);
            lemma_tools_fixes(s);
            assert(system_fixed(b));
            lemma_system_fixed(b);
            lemma_tools_fixed(b);
        },
        CacheStrategy::Full => {
            let t = mark_tools(s);
            lemma_tools_fixes(s);
            assert(system_fixed(t));
            let b = mark_history(t);
            lemma_history_fixes(t);
            assert(tools_fixed(b));
            lemma_system_fixed(b);
            lemma_tools_fixed(b);
            lemma_history_fixed(b);
        },
    }
}

/// Whether the last system message of a body can be marked.
spec fn system_ok(x: JsonView) -> bool {
    match messages_of(x) {
        Some(ms) => match last_with_role(ms, "system"@) {
            Some(i) => content_taggable(ms[i]),
            None => true,
        },
        None => true,
    }
}

/// Whether the last tool of a body can be marked.
spec fn tools_ok(x: JsonView) -> bool {
    match array_of(field(x, "tools"@)) {
        Some(ts) => ts.len() == 0 || taggable(ts.last()),
        None => true,
    }
}

/// Whether the history target of a body can be marked.
spec fn history_ok(x: JsonView) -> bool {
    match history_target(x) {
        Some(h) => content_taggable(messages_of(x).unwrap()[h]),
        None => true,
    }
}

proof fn lemma_system_ok_system(x: JsonView)
    requires
        system_ok(x),
    ensures
        system_ok(mark_system(x)),
{
    match messages_of(x) {
        Some(ms) => {
            lemma_last_with_role_bound(ms, "system"@);
            match last_with_role(ms, "system"@) {
                Some(i) => {
                    lemma_tag_message(x, ms, i);
                    lemma_same_roles(ms, ms.update(i, tag_content(ms[i])), "system"@);
                    lemma_tag_content_taggable(ms[i]);
                },
                None => {},
            }
        },
        None => {},
    }
}

proof fn lemma_system_ok_history(x: JsonView)
    requires
        system_ok(x),
    ensures
        system_ok(mark_history(x)),
{
    lemma_history_target_bound(x);
    match history_target(x) {
        Some(h) => {
            let ms = messages_of(x).unwrap();
            let u = ms.update(h, tag_content(ms[h]));
            lemma_tag_message(x, ms, h);
            lemma_same_roles(ms, u, "system"@);
            lemma_last_with_role_has(ms, "system"@);
            match last_with_role(ms, "system"@) {
                Some(i) => {
                    reveal_strlit("user");
                    reveal_strlit("system");
                    assert("user"@.len() == 4 && "system"@.len() == 6);
                    assert(i != h);
                    assert(u[i] == ms[i]);
                },
                None => {},
            }
        },
        None => {},
    }
}

proof fn lemma_tools_ok_tools(x: JsonView)
    requires
        tools_ok(x),
    ensures
        tools_ok(mark_tools(x)),
{
    match array_of(field(x, "tools"@)) {
        Some(ts) => {
            if ts.len() > 0 {
                lemma_with_field(x, "tools"@, JsonView::Array(tag_last(ts)), "tools"@);
            }
        },
        None => {},
    }
}

proof fn lemma_history_ok_history(x: JsonView)
    requires
        history_ok(x),
    ensures
        history_ok(mark_history(x)),
{
    lemma_history_target_bound(x);
    lemma_history_fixes(x);
    match history_target(x) {
        Some(h) => {
            let ms = messages_of(x).unwrap();
            lemma_tag_message(x, ms, h);
            lemma_tag_content_taggable(ms[h]);
            lemma_same_roles(ms, ms.update(h, tag_content(ms[h])), "system"@);
            assert(history_target(mark_history(x)) == Some(h));
        },
        None => {},
    }
}

/// A body that could take the breakpoints of a strategy can take them
/// again once they are in.
pub proof fn law_injected_injectable(body: JsonView, strategy: CacheStrategy)
    requires
        injectable(body, strategy),
    ensures
        injectable(injected(body, strategy), strategy),
{
    let s = mark_system(body);
    lemma_system_fixes(body);
    match strategy {
        CacheStrategy::NoCache => {},
        CacheStrategy::SystemOnly => {
            lemma_system_ok_system(body);
            lemma_system_fixed(s);
        },
        CacheStrategy::Standard => {
            lemma_system_ok_system(body);
            let b = mark_tools(s);
            lemma_tools_fixes(s);
            lemma_tools_ok_tools(s);
            assert(system_ok(b));
            assert(system_fixed(b));
            lemma_system_fixed(b);
            lemma_tools_fixed(b);
        },
        CacheStrategy::Full => {
            lemma_system_ok_system(body);
            let t = mark_tools(s);
            lemma_tools_fixes(s);
            lemma_tools_ok_tools(s);
            assert(system_ok(t));
            assert(system_fixed(t));
            let b = mark_history(t);
            lemma_history_fixes(t);
            lemma_system_ok_history(t);
            lemma_history_ok_history(t);
            assert(tools_ok(b));
            assert(tools_fixed(b));
            lemma_system_fixed(b);
            lemma_tools_fixed(b);
            lemma_history_fixed(b);
        },
    }
}

} // verus!
