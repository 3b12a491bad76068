//! Reassembly of a complete chat response from the chunks of an event
//! stream. Some providers answer non-streaming requests in the streaming
//! format; their chunks are folded back into one response body.

use vstd::prelude::*;
use crate::json::{
    entry_views, field, field_of, jstr, jviews, lemma_array_view, lemma_object_view, set_entry,
    str_of, u64_of, Json, JsonNumber, JsonView, NumberView,
};
use crate::openai::{first_choice, str_or, tool_call_json};
use crate::openai_stream::{chunk_tool_calls, stream_index};
use crate::json::opt_jview;
use crate::codec::{parse_json, parsed_json};
use crate::wire::{lines_of, payloads, sse_payloads};

verus! {

/// A tool call being reassembled: its index, id, name and arguments text.
pub type CallAcc = (usize, Seq<char>, Seq<char>, Seq<char>);

/// What has been gathered from the chunks so far.
pub struct AssemblyView {
    pub id: Seq<char>,
    pub model: Seq<char>,
    pub content: Seq<char>,
    pub finish_reason: Option<Seq<char>>,
    pub usage: Option<JsonView>,
    pub calls: Seq<CallAcc>,
}

/// Whether the calls are in strictly increasing index order.
pub open spec fn sorted_calls(calls: Seq<CallAcc>) -> bool {
    forall|i: int, j: int| 0 <= i < j < calls.len() ==> calls[i].0 < calls[j].0
}

/// The position of the call with index `idx`, if any.
pub open spec fn call_pos(calls: Seq<CallAcc>, idx: usize) -> Option<int> {
    if exists|i: int| 0 <= i < calls.len() && calls[i].0 == idx {
        Some(choose|i: int| 0 <= i < calls.len() && calls[i].0 == idx)
    } else {
        None
    }
}

/// The number of calls with an index below `idx`.
pub open spec fn below(calls: Seq<CallAcc>, idx: usize) -> nat
    decreases calls.len(),
{
    if calls.len() == 0 {
        0
    } else {
        below(calls.drop_last(), idx) + if calls.last().0 < idx {
            1nat
        } else {
            0nat
        }
    }
}

/// A call started: it replaces the call with the same index, or is placed
/// among the calls by its index.
pub open spec fn start_call(calls: Seq<CallAcc>, idx: usize, id: Seq<char>, name: Seq<char>) -> Seq<
    CallAcc,
> {
    match call_pos(calls, idx) {
        Some(p) => calls.update(p, (idx, id, name, Seq::empty())),
        None => calls.insert(below(calls, idx) as int, (idx, id, name, Seq::empty())),
    }
}

/// An arguments chunk, appended to the call with its index, if any.
pub open spec fn extend_call(calls: Seq<CallAcc>, idx: usize, args: Seq<char>) -> Seq<CallAcc> {
    match call_pos(calls, idx) {
        Some(p) => calls.update(p, (calls[p].0, calls[p].1, calls[p].2, calls[p].3 + args)),
        None => calls,
    }
}

/// One streamed tool call delta folded into the calls.
pub open spec fn absorb_call(calls: Seq<CallAcc>, tc: JsonView) -> Seq<CallAcc> {
    let idx = stream_index(tc);
    let started = match str_of(field(tc, "id"@)) {
        Some(id) => start_call(
            calls,
            idx,
            id,
            str_or(field_of(field(tc, "function"@), "name"@), Seq::empty()),
        ),
        None => calls,
    };
    match str_of(field_of(field(tc, "function"@), "arguments"@)) {
        Some(a) => extend_call(started, idx, a),
        None => started,
    }
}

/// Streamed tool call deltas folded into the calls, in order.
pub open spec fn absorb_calls(calls: Seq<CallAcc>, tcs: Seq<JsonView>) -> Seq<CallAcc>
    decreases tcs.len(),
{
    if tcs.len() == 0 {
        calls
    } else {
        absorb_call(absorb_calls(calls, tcs.drop_last()), tcs.last())
    }
}

/// One chunk folded in: the first id and model seen are kept, the text is
/// appended, the tool calls absorbed, the last finish reason kept, and a
/// usage with a positive total replaces the one before.
pub open spec fn absorb(st: AssemblyView, chunk: JsonView) -> AssemblyView {
    let choice = first_choice(chunk);
    AssemblyView {
        id: if st.id.len() == 0 {
            str_or(field(chunk, "id"@), st.id)
        } else {
            st.id
        },
        model: if st.model.len() == 0 {
            str_or(field(chunk, "model"@), st.model)
        } else {
            st.model
        },
        content: st.content + str_or(
            field_of(field_of(choice, "delta"@), "content"@),
            Seq::empty(),
        ),
        finish_reason: match str_of(field_of(choice, "finish_reason"@)) {
            Some(f) => Some(f),
            None => st.finish_reason,
        },
        usage: match field(chunk, "usage"@) {
            Some(u) => if match u64_of(field(u, "total_tokens"@)) {
                Some(n) => n > 0,
                None => false,
            } {
                Some(u)
            } else {
                st.usage
            },
            None => st.usage,
        },
        calls: absorb_calls(st.calls, chunk_tool_calls(chunk)),
    }
}

/// The reassembled message: the assistant role, the text when not empty,
/// and the tool calls, in index order, when there are any.
pub open spec fn assembled_message(st: AssemblyView) -> JsonView {
    let m1 = seq![("role"@, JsonView::Str("assistant"@))];
    let m2 = if st.content.len() > 0 {
        set_entry(m1, "content"@, JsonView::Str(st.content))
    } else {
        m1
    };
    let m3 = if st.calls.len() > 0 {
        set_entry(
            m2,
            "tool_calls"@,
            JsonView::Array(st.calls.map_values(|c: CallAcc| tool_call_json(c.1, c.2, c.3))),
        )
    } else {
        m2
    };
    JsonView::Object(m3)
}

/// The reassembled response body.
pub open spec fn assembled(st: AssemblyView) -> JsonView {
    let choice = JsonView::Object(
        seq![
            (
                "finish_reason"@,
                match st.finish_reason {
                    Some(f) => JsonView::Str(f),
                    None => JsonView::Null,
                },
            ),
            ("index"@, JsonView::Number(NumberView::PosInt(0))),
            ("message"@, assembled_message(st)),
        ],
    );
    let r = seq![
        ("choices"@, JsonView::Array(seq![choice])),
        ("id"@, JsonView::Str(st.id)),
        ("model"@, JsonView::Str(st.model)),
        ("object"@, JsonView::Str("chat.completion"@)),
    ];
    JsonView::Object(
        match st.usage {
            Some(u) => set_entry(r, "usage"@, u),
            None => r,
        },
    )
}

/// Reassembles a chat response from event-stream chunks.
#[derive(Debug)]
pub struct SseAssembler {
    id: String,
    model: String,
    content: String,
    finish_reason: Option<String>,
    usage: Option<Json>,
    calls: Vec<(usize, String, String, String)>,
}

/// The views of the calls being reassembled.
pub open spec fn call_views(calls: Seq<(usize, String, String, String)>) -> Seq<CallAcc> {
    calls.map_values(|c: (usize, String, String, String)| (c.0, c.1@, c.2@, c.3@))
}

impl View for SseAssembler {
    type V = AssemblyView;

    closed spec fn view(&self) -> AssemblyView {
        AssemblyView {
            id: self.id@,
            model: self.model@,
            content: self.content@,
            finish_reason: match self.finish_reason {
                Some(f) => Some(f@),
                None => None,
            },
            usage: match self.usage {
                Some(u) => Some(u@),
                None => None,
            },
            calls: call_views(self.calls@),
        }
    }
}

proof fn lemma_below_prefix(calls: Seq<CallAcc>, idx: usize)
    requires
        sorted_calls(calls),
    ensures
        below(calls, idx) <= calls.len(),
        forall|i: int| 0 <= i < calls.len() ==> (i < below(calls, idx) <==> calls[i].0 < idx),
    decreases calls.len(),
{
    if calls.len() > 0 {
        let d = calls.drop_last();
        assert(sorted_calls(d));
        lemma_below_prefix(d, idx);
        assert(forall|i: int| 0 <= i < d.len() ==> d[i] == calls[i]);
        if calls.last().0 < idx {
            assert forall|i: int| 0 <= i < d.len() implies d[i].0 < idx by {
                assert(calls[i].0 < calls[calls.len() - 1].0);
            }
            if d.len() > 0 {
                assert(d.len() - 1 < below(d, idx));
            }
            assert(below(d, idx) == d.len());
        }
    }
}

proof fn lemma_call_pos(calls: Seq<CallAcc>, idx: usize)
    requires
        sorted_calls(calls),
    ensures
        match call_pos(calls, idx) {
            Some(p) => 0 <= p < calls.len() && calls[p].0 == idx,
            None => forall|i: int| 0 <= i < calls.len() ==> calls[i].0 != idx,
        },
{
}

proof fn lemma_start_sorted(calls: Seq<CallAcc>, idx: usize, id: Seq<char>, name: Seq<char>)
    requires
        sorted_calls(calls),
    ensures
        sorted_calls(start_call(calls, idx, id, name)),
{
    lemma_call_pos(calls, idx);
    match call_pos(calls, idx) {
        Some(p) => {
            let t = start_call(calls, idx, id, name);
            assert forall|i: int, j: int| 0 <= i < j < t.len() implies t[i].0 < t[j].0 by {
                assert(t[i].0 == calls[i].0 && t[j].0 == calls[j].0);
            }
        },
        None => {
            lemma_below_prefix(calls, idx);
            let b = below(calls, idx) as int;
            let t = start_call(calls, idx, id, name);
            assert forall|i: int, j: int| 0 <= i < j < t.len() implies t[i].0 < t[j].0 by {
                let ci = if i < b { calls[i].0 } else if i == b { idx } else { calls[i - 1].0 };
                let cj = if j < b { calls[j].0 } else if j == b { idx } else { calls[j - 1].0 };
                assert(t[i].0 == ci && t[j].0 == cj);
                if j > b {
                    assert(calls[j - 1].0 != idx);
                    assert(!(calls[j - 1].0 < idx));
                }
                if i > b {
                    assert(calls[i - 1].0 < calls[j - 1].0);
                }
            }
        },
    }
}

proof fn lemma_absorb_sorted(calls: Seq<CallAcc>, tcs: Seq<JsonView>)
    requires
        sorted_calls(calls),
    ensures
        sorted_calls(absorb_calls(calls, tcs)),
    decreases tcs.len(),
{
    if tcs.len() > 0 {
        lemma_absorb_sorted(calls, tcs.drop_last());
        let c0 = absorb_calls(calls, tcs.drop_last());
        let tc = tcs.last();
        let idx = stream_index(tc);
        let started = match str_of(field(tc, "id"@)) {
            Some(id) => start_call(
                c0,
                idx,
                id,
                str_or(field_of(field(tc, "function"@), "name"@), Seq::empty()),
            ),
            None => c0,
        };
        match str_of(field(tc, "id"@)) {
            Some(id) => lemma_start_sorted(
                c0,
                idx,
                id,
                str_or(field_of(field(tc, "function"@), "name"@), Seq::empty()),
            ),
            None => {},
        }
        lemma_call_pos(started, idx);
        let t = absorb_call(c0, tc);
        assert forall|i: int, j: int| 0 <= i < j < t.len() implies t[i].0 < t[j].0 by {
            assert(t[i].0 == started[i].0 && t[j].0 == started[j].0);
        }
    }
}

/// The position of the call with index `idx`.
fn find_call(calls: &Vec<(usize, String, String, String)>, idx: usize) -> (r: Option<usize>)
    requires
        sorted_calls(call_views(calls@)),
    ensures
        match call_pos(call_views(calls@), idx) {
            Some(p) => r matches Some(q) && q == p,
            None => r is None,
        },
{
    let ghost cv = call_views(calls@);
    proof {
        lemma_call_pos(cv, idx);
    }
    let mut i: usize = 0;
    while i < calls.len()
        invariant
            0 <= i <= calls@.len(),
            cv == call_views(calls@),
            sorted_calls(cv),
            forall|j: int| 0 <= j < i ==> cv[j].0 != idx,
        decreases calls@.len() - i,
    {
        assert(cv[i as int].0 == calls@[i as int].0);
        if calls[i].0 == idx {
            proof {
                lemma_call_pos(cv, idx);
                let p = call_pos(cv, idx).unwrap();
                if p != i {
                    if p < i {
                        assert(cv[p].0 != idx);
                    } else {
                        assert(cv[i as int].0 < cv[p].0);
                    }
                }
            }
            return Some(i);
        }
        i = i + 1;
    }
    None
}

/// The number of calls with an index below `idx`.
fn count_below(calls: &Vec<(usize, String, String, String)>, idx: usize) -> (r: usize)
    ensures
        r == below(call_views(calls@), idx),
{
    let ghost cv = call_views(calls@);
    let mut n: usize = 0;
    let mut i: usize = 0;
    assert(cv.subrange(0, 0) =~= Seq::<CallAcc>::empty());
    while i < calls.len()
        invariant
            0 <= i <= calls@.len(),
            cv == call_views(calls@),
            n == below(cv.subrange(0, i as int), idx),
            n <= i,
        decreases calls@.len() - i,
    {
        let ghost w = cv.subrange(0, i + 1);
        assert(w.drop_last() =~= cv.subrange(0, i as int));
        assert(w.last().0 == calls@[i as int].0);
        if calls[i].0 < idx {
            n = n + 1;
        }
        i = i + 1;
    }
    assert(cv.subrange(0, cv.len() as int) =~= cv);
    n
}

impl SseAssembler {
    /// Whether the calls are kept in index order.
    pub closed spec fn wf(&self) -> bool {
        sorted_calls(call_views(self.calls@))
    }

    /// An assembler that has seen nothing.
    pub fn new() -> (r: SseAssembler)
        ensures
            r.wf(),
            r@.id.len() == 0,
            r@.model.len() == 0,
            r@.content.len() == 0,
            r@.finish_reason is None,
            r@.usage is None,
            r@.calls.len() == 0,
    {
        let r = SseAssembler {
            id: String::new(),
            model: String::new(),
            content: String::new(),
            finish_reason: None,
            usage: None,
            calls: Vec::new(),
        };
        assert(call_views(r.calls@) =~= Seq::<CallAcc>::empty());
        r
    }

    /// Starts (or restarts) the call with index `idx`.
    fn start_tool_call(&mut self, idx: usize, id: String, name: String)
        requires
            old(self).wf(),
        ensures
            final(self).wf(),
            final(self)@ == (AssemblyView { calls: start_call(old(self)@.calls, idx, id@, name@), ..old(self)@ }),
    {
        let ghost c0 = call_views(self.calls@);
        let ghost ev = (idx, id@, name@, Seq::<char>::empty());
        let entry = (idx, id, name, String::new());
        match find_call(&self.calls, idx) {
            Some(p) => {
                self.calls.set(p, entry);
                assert(call_views(self.calls@) =~= c0.update(p as int, ev));
            },
            None => {
                let b = count_below(&self.calls, idx);
                proof {
                    lemma_below_prefix(c0, idx);
                }
                self.calls.insert(b, entry);
                assert(call_views(self.calls@) =~= c0.insert(b as int, ev));
            },
        }
        proof {
            lemma_start_sorted(c0, idx, id@, name@);
        }
    }

    /// Appends an arguments chunk to the call with index `idx`, if any.
    fn extend_tool_call(&mut self, idx: usize, a: &str)
        requires
            old(self).wf(),
        ensures
            final(self).wf(),
            final(self)@ == (AssemblyView { calls: extend_call(old(self)@.calls, idx, a@), ..old(self)@ }),
    {
        let ghost c1 = call_views(self.calls@);
        match find_call(&self.calls, idx) {
            Some(p) => {
                let mut e = (0usize, String::new(), String::new(), String::new());
                std::mem::swap(&mut e, &mut self.calls[p]);
                let extended = e.3.concat(a);
                self.calls.set(p, (e.0, e.1, e.2, extended));
                assert(call_views(self.calls@) =~= c1.update(
                    p as int,
                    (c1[p as int].0, c1[p as int].1, c1[p as int].2, c1[p as int].3 + a@),
                ));
                proof {
                    lemma_call_pos(c1, idx);
                    let t = call_views(self.calls@);
                    assert forall|i: int, j: int| 0 <= i < j < t.len() implies t[i].0 < t[j].0 by {
                        assert(t[i].0 == c1[i].0 && t[j].0 == c1[j].0);
                    }
                }
            },
            None => {},
        }
    }

    /// Folds in one streamed tool call delta.
    fn absorb_tool_call(&mut self, tc: &Json)
        requires
            old(self).wf(),
        ensures
            final(self).wf(),
            final(self)@ == (AssemblyView { calls: absorb_call(old(self)@.calls, tc@), ..old(self)@ }),
    {
        proof {
            reveal_strlit("");
        }
        assert(""@ =~= Seq::<char>::empty());
        let idx: usize = match tc.get("index") {
            Some(i) => match i.as_u64() {
                Some(n) => n as usize,
                None => 0,
            },
            None => 0,
        };
        let function = tc.get("function");
        let id = match tc.get("id") {
            Some(v) => v.as_str(),
            None => None,
        };
        match id {
            Some(id) => {
                let name = match function {
                    Some(f) => text_of(f.get("name")),
                    None => String::new(),
                };
                self.start_tool_call(idx, String::from_str(id), name);
            },
            None => {},
        }
        let args = match function {
            Some(f) => match f.get("arguments") {
                Some(a) => a.as_str(),
                None => None,
            },
            None => None,
        };
        match args {
            Some(a) => self.extend_tool_call(idx, a),
            None => {},
        }
    }
}

impl SseAssembler {
    /// Folds in the tool call deltas of a chunk.
    fn absorb_tool_calls(&mut self, tcs: &Vec<Json>)
        requires
            old(self).wf(),
        ensures
            final(self).wf(),
            final(self)@ == (AssemblyView { calls: absorb_calls(old(self)@.calls, jviews(tcs@)), ..old(self)@ }),
    {
        let ghost st = self@;
        let ghost tv = jviews(tcs@);
        let mut k: usize = 0;
        assert(tv.subrange(0, 0) =~= Seq::<JsonView>::empty());
        while k < tcs.len()
            invariant
                0 <= k <= tcs@.len(),
                tv == jviews(tcs@),
                self.wf(),
                self@ == (AssemblyView { calls: absorb_calls(st.calls, tv.subrange(0, k as int)), ..st }),
            decreases tcs@.len() - k,
        {
            let ghost w = tv.subrange(0, k + 1);
            assert(w.drop_last() =~= tv.subrange(0, k as int));
            assert(w.last() == tcs@[k as int]@);
            self.absorb_tool_call(&tcs[k]);
            k = k + 1;
        }
        assert(tv.subrange(0, tv.len() as int) =~= tv);
    }

    /// Folds in one chunk.
    #[verifier::spinoff_prover]
    pub fn absorb_chunk(&mut self, chunk: &Json)
        requires
            old(self).wf(),
        ensures
            final(self).wf(),
            final(self)@ == absorb(old(self)@, chunk@),
    {
        proof {
            reveal_strlit("");
        }
        let ghost st = self@;
        if self.id.unicode_len() == 0 {
            match chunk.get("id") {
                Some(v) => match v.as_str() {
                    Some(cid) => {
                        self.id = String::from_str(cid);
                    },
                    None => {},
                },
                None => {},
            }
        }
        if self.model.unicode_len() == 0 {
            match chunk.get("model") {
                Some(v) => match v.as_str() {
                    Some(m) => {
                        self.model = String::from_str(m);
                    },
                    None => {},
                },
                None => {},
            }
        }
        let choice = match chunk.get("choices") {
            Some(c) => c.at(0),
            None => None,
        };
        let delta = match choice {
            Some(c) => c.get("delta"),
            None => None,
        };
        match delta {
            Some(d) => match d.get("content") {
                Some(t) => match t.as_str() {
                    Some(text) => {
                        let mut c = String::new();
                        std::mem::swap(&mut c, &mut self.content);
                        self.content = c.concat(text);
                    },
                    None => {},
                },
                None => {},
            },
            None => {},
        }
        assert(self@.content == st.content + str_or(
            field_of(field_of(first_choice(chunk@), "delta"@), "content"@),
            Seq::empty(),
        ));
        let calls = match delta {
            Some(d) => match d.get("tool_calls") {
                Some(t) => t.as_array(),
                None => None,
            },
            None => None,
        };
        match calls {
            Some(tcs) => self.absorb_tool_calls(tcs),
            None => {
                assert(chunk_tool_calls(chunk@) =~= Seq::empty());
            },
        }
        match choice {
            Some(c) => match c.get("finish_reason") {
                Some(f) => match f.as_str() {
                    Some(name) => {
                        self.finish_reason = Some(String::from_str(name));
                    },
                    None => {},
                },
                None => {},
            },
            None => {},
        }
        match chunk.get("usage") {
            Some(u) => {
                let total: u64 = match u.get("total_tokens") {
                    Some(t) => match t.as_u64() {
                        Some(n) => n,
                        None => 0,
                    },
                    None => 0,
                };
                if total > 0 {
                    self.usage = Some(u.clone());
                }
            },
            None => {},
        }
    }

    /// The reassembled response body.
    pub fn finish(&self) -> (r: Json)
        ensures
            r@ == assembled(self@),
    {
        let st = self;
        let ghost sv = self@;
        let mut m: Vec<(String, Json)> = Vec::new();
        m.push((String::from_str("role"), jstr("assistant")));
        proof {
            lemma_object_view(m);
        }
        assert(entry_views(m@) =~= seq![("role"@, JsonView::Str("assistant"@))]);
        let mut message = Json::Object(m);
        if st.content.unicode_len() > 0 {
            message.set("content", Json::Str(st.content.clone()));
        }
        if st.calls.len() > 0 {
            let ghost target = sv.calls.map_values(|c: CallAcc| tool_call_json(c.1, c.2, c.3));
            let mut calls: Vec<Json> = Vec::new();
            let mut i: usize = 0;
            while i < st.calls.len()
                invariant
                    0 <= i <= st.calls@.len(),
                    sv == st@,
                    target == sv.calls.map_values(|c: CallAcc| tool_call_json(c.1, c.2, c.3)),
                    jviews(calls@) == target.subrange(0, i as int),
                decreases st.calls@.len() - i,
            {
                let c = &st.calls[i];
                let obj = crate::openai::call_object(&c.1, &c.2, &c.3);
                let ghost prev = calls@;
                calls.push(obj);
                assert(sv.calls[i as int] == (c.0, c.1@, c.2@, c.3@));
                assert(jviews(calls@) =~= jviews(prev).push(target[i as int]));
                assert(target.subrange(0, i + 1) =~= target.subrange(0, i as int).push(target[i as int]));
                i = i + 1;
            }
            assert(target.subrange(0, target.len() as int) =~= target);
            proof {
                lemma_array_view(calls);
            }
            message.set("tool_calls", Json::Array(calls));
        }
        assert(message@ == assembled_message(sv));
        let finish = match &st.finish_reason {
            Some(f) => Json::Str(f.clone()),
            None => Json::Null,
        };
        let mut c: Vec<(String, Json)> = Vec::new();
        c.push((String::from_str("finish_reason"), finish));
        c.push((String::from_str("index"), Json::Number(JsonNumber::PosInt(0))));
        c.push((String::from_str("message"), message));
        proof {
            lemma_object_view(c);
        }
        let ghost choice_v = JsonView::Object(
            seq![
                (
                    "finish_reason"@,
                    match sv.finish_reason {
                        Some(f) => JsonView::Str(f),
                        None => JsonView::Null,
                    },
                ),
                ("index"@, JsonView::Number(NumberView::PosInt(0))),
                ("message"@, assembled_message(sv)),
            ],
        );
        assert(entry_views(c@) =~= choice_v->Object_0);
        let choice = Json::Object(c);
        let mut choices: Vec<Json> = Vec::new();
        choices.push(choice);
        proof {
            lemma_array_view(choices);
        }
        let mut o: Vec<(String, Json)> = Vec::new();
        o.push((String::from_str("choices"), Json::Array(choices)));
        o.push((String::from_str("id"), Json::Str(st.id.clone())));
        o.push((String::from_str("model"), Json::Str(st.model.clone())));
        o.push((String::from_str("object"), jstr("chat.completion")));
        proof {
            lemma_object_view(o);
        }
        assert(jviews(choices@) =~= seq![choice_v]);
        let ghost rv = seq![
            ("choices"@, JsonView::Array(seq![choice_v])),
            ("id"@, JsonView::Str(sv.id)),
            ("model"@, JsonView::Str(sv.model)),
            ("object"@, JsonView::Str("chat.completion"@)),
        ];
        assert(entry_views(o@) =~= rv);
        let mut resp = Json::Object(o);
        match &st.usage {
            Some(u) => {
                resp.set("usage", u.clone());
            },
            None => {},
        }
        assert(resp@ == assembled(sv));
        resp
    }
}

/// A text of a value, or empty.
fn text_of(j: Option<&Json>) -> (r: String)
    ensures
        r@ == str_or(opt_jview(j), Seq::empty()),
{
    match j {
        Some(v) => match v.as_str() {
            Some(s) => String::from_str(s),
            None => String::new(),
        },
        None => String::new(),
    }
}

/// An assembly that has seen no chunk.
pub open spec fn empty_assembly() -> AssemblyView {
    AssemblyView {
        id: Seq::empty(),
        model: Seq::empty(),
        content: Seq::empty(),
        finish_reason: None,
        usage: None,
        calls: Seq::empty(),
    }
}

/// `st` with the payloads that parse as JSON folded in, in order; the
/// others are skipped.
pub open spec fn absorb_payloads(st: AssemblyView, ps: Seq<Seq<char>>) -> AssemblyView
    decreases ps.len(),
{
    if ps.len() == 0 {
        st
    } else {
        let before = absorb_payloads(st, ps.drop_last());
        match parsed_json(ps.last()) {
            Some(chunk) => absorb(before, chunk),
            None => before,
        }
    }
}

/// The response body put together from an event-stream text.
pub open spec fn reassembled(text: Seq<char>) -> JsonView {
    assembled(absorb_payloads(empty_assembly(), payloads(lines_of(text))))
}

/// Puts a chat response body together from an event-stream text: each
/// data payload that parses is folded in, in order.
pub fn reassemble_sse_response(text: &str) -> (r: Json)
    ensures
        r@ == reassembled(text@),
{
    let ps = sse_payloads(text);
    let ghost pv = ps@.map_values(|s: String| s@);
    let mut acc = SseAssembler::new();
    assert(acc@.id =~= Seq::<char>::empty());
    assert(acc@.model =~= Seq::<char>::empty());
    assert(acc@.content =~= Seq::<char>::empty());
    assert(acc@.calls =~= Seq::<CallAcc>::empty());
    assert(acc@ == empty_assembly());
    let mut i: usize = 0;
    while i < ps.len()
        invariant
            0 <= i <= ps@.len(),
            pv == ps@.map_values(|s: String| s@),
            acc.wf(),
            acc@ == absorb_payloads(empty_assembly(), pv.subrange(0, i as int)),
        decreases ps@.len() - i,
    {
        let ghost w = pv.subrange(0, i + 1);
        assert(w.drop_last() =~= pv.subrange(0, i as int));
        assert(w.last() == ps@[i as int]@);
        match parse_json(ps[i].as_str()) {
            Ok(chunk) => {
                acc.absorb_chunk(&chunk);
            },
            Err(_) => {},
        }
        i = i + 1;
    }
    assert(pv.subrange(0, pv.len() as int) =~= pv);
    acc.finish()
}

} // verus!
