//! A table of conversation sessions: each session id maps to the list of its
//! messages, and sessions are kept in the order they were first stored.

use vstd::prelude::*;
use crate::message::{Message, MessageView};

verus! {

/// The messages of a list, by their views.
pub open spec fn views(msgs: Seq<Message>) -> Seq<MessageView> {
    msgs.map_values(|m: Message| m@)
}

/// Whether no two sessions of `t` share an id.
pub open spec fn distinct_ids(t: Seq<(Seq<char>, Seq<MessageView>)>) -> bool {
    forall|i: int, j: int| 0 <= i < j < t.len() ==> t[i].0 != t[j].0
}

/// The index of session `id` in `t`, if present.
pub open spec fn index_of(t: Seq<(Seq<char>, Seq<MessageView>)>, id: Seq<char>) -> Option<int> {
    if exists|i: int| 0 <= i < t.len() && t[i].0 == id {
        Some(choose|i: int| 0 <= i < t.len() && t[i].0 == id)
    } else {
        None
    }
}

/// The messages of session `id` in `t`, empty when the session is absent.
pub open spec fn session_of(t: Seq<(Seq<char>, Seq<MessageView>)>, id: Seq<char>) -> Seq<
    MessageView,
> {
    match index_of(t, id) {
        Some(i) => t[i].1,
        None => Seq::empty(),
    }
}

/// `t` with the messages of session `id` replaced by `msgs`: the session
/// keeps its place, or is added last when new.
pub open spec fn put_session(
    t: Seq<(Seq<char>, Seq<MessageView>)>,
    id: Seq<char>,
    msgs: Seq<MessageView>,
) -> Seq<(Seq<char>, Seq<MessageView>)> {
    match index_of(t, id) {
        Some(i) => t.update(i, (id, msgs)),
        None => t.push((id, msgs)),
    }
}

/// `t` without session `id`.
pub open spec fn drop_session(t: Seq<(Seq<char>, Seq<MessageView>)>, id: Seq<char>) -> Seq<
    (Seq<char>, Seq<MessageView>),
> {
    match index_of(t, id) {
        Some(i) => t.remove(i),
        None => t,
    }
}

/// A session reads back exactly what was last put for it, and the table
/// keeps distinct ids.
pub proof fn law_put_then_read(
    t: Seq<(Seq<char>, Seq<MessageView>)>,
    id: Seq<char>,
    msgs: Seq<MessageView>,
)
    requires
        distinct_ids(t),
    ensures
        session_of(put_session(t, id, msgs), id) == msgs,
        distinct_ids(put_session(t, id, msgs)),
{
    let t2 = put_session(t, id, msgs);
    match index_of(t, id) {
        Some(i) => {
            assert(t[i].0 == id);
            assert(t2[i].0 == id);
            assert forall|a: int, b: int| 0 <= a < b < t2.len() implies t2[a].0 != t2[b].0 by {
                if a != i && b != i {
                    assert(t2[a] == t[a] && t2[b] == t[b]);
                }
            }
            assert(index_of(t2, id) == Some(i));
        },
        None => {
            assert(forall|j: int| 0 <= j < t.len() ==> t[j].0 != id);
            assert forall|a: int, b: int| 0 <= a < b < t2.len() implies t2[a].0 != t2[b].0 by {
                if b == t.len() {
                    assert(t2[a] == t[a]);
                }
            }
            assert(t2[t.len() as int].0 == id);
            assert(index_of(t2, id) == Some(t.len() as int));
        },
    }
}

/// Putting one session leaves every other session as it was.
pub proof fn law_put_isolated(
    t: Seq<(Seq<char>, Seq<MessageView>)>,
    id: Seq<char>,
    other: Seq<char>,
    msgs: Seq<MessageView>,
)
    requires
        distinct_ids(t),
        id != other,
    ensures
        session_of(put_session(t, id, msgs), other) == session_of(t, other),
{
    let t2 = put_session(t, id, msgs);
    law_put_then_read(t, id, msgs);
    match index_of(t, other) {
        Some(j) => {
            assert(t[j].0 == other);
            assert(t2[j] == t[j]);
            assert(index_of(t2, other) == Some(j));
        },
        None => {
            assert(forall|j: int| 0 <= j < t.len() ==> t[j].0 != other);
            assert(forall|j: int| 0 <= j < t2.len() ==> t2[j].0 != other);
        },
    }
}

/// A cleared session reads back empty; every other session is unchanged.
pub proof fn law_drop_then_read(
    t: Seq<(Seq<char>, Seq<MessageView>)>,
    id: Seq<char>,
    other: Seq<char>,
)
    requires
        distinct_ids(t),
        id != other,
    ensures
        session_of(drop_session(t, id), id) == Seq::<MessageView>::empty(),
        session_of(drop_session(t, id), other) == session_of(t, other),
{
    let t2 = drop_session(t, id);
    match index_of(t, id) {
        Some(i) => {
            assert(t[i].0 == id);
            assert forall|j: int| 0 <= j < t2.len() implies t2[j].0 != id by {
                let j2 = if j < i { j } else { j + 1 };
                assert(t2[j] == t[j2]);
            }
            match index_of(t, other) {
                Some(k) => {
                    assert(t[k].0 == other);
                    let k2 = if k < i { k } else { k - 1 };
                    assert(t2[k2] == t[k]);
                    assert forall|a: int, b: int| 0 <= a < b < t2.len() implies t2[a].0 != t2[b].0 by {
                        let a2 = if a < i { a } else { a + 1 };
                        let b2 = if b < i { b } else { b + 1 };
                        assert(t2[a] == t[a2] && t2[b] == t[b2]);
                    }
                    assert(index_of(t2, other) == Some(k2));
                },
                None => {
                    assert(forall|j: int| 0 <= j < t.len() ==> t[j].0 != other);
                    assert forall|j: int| 0 <= j < t2.len() implies t2[j].0 != other by {
                        let j2 = if j < i { j } else { j + 1 };
                        assert(t2[j] == t[j2]);
                    }
                },
            }
        },
        None => {},
    }
}

/// The session table.
pub struct SessionTable {
    entries: Vec<(String, Vec<Message>)>,
}

impl View for SessionTable {
    type V = Seq<(Seq<char>, Seq<MessageView>)>;

    /// The sessions, each with its id and messages, in first-stored order.
    closed spec fn view(&self) -> Seq<(Seq<char>, Seq<MessageView>)> {
        self.entries@.map_values(|e: (String, Vec<Message>)| (e.0@, views(e.1@)))
    }
}

/// Clones a list of messages.
pub fn clone_messages(msgs: &[Message]) -> (r: Vec<Message>)
    ensures
        views(r@) == views(msgs@),
{
    let mut out: Vec<Message> = Vec::new();
    let mut i: usize = 0;
    while i < msgs.len()
        invariant
            0 <= i <= msgs@.len(),
            out@.len() == i,
            forall|k: int| 0 <= k < i ==> (#[trigger] out@[k])@ == msgs@[k]@,
        decreases msgs@.len() - i,
    {
        out.push(msgs[i].clone());
        i = i + 1;
    }
    assert(views(out@) =~= views(msgs@));
    out
}

/// Appends copies of `src` to `dst`.
pub fn append_clones(dst: &mut Vec<Message>, src: &[Message])
    ensures
        views(final(dst)@) == views(old(dst)@) + views(src@),
{
    let ghost base = views(dst@);
    let mut i: usize = 0;
    while i < src.len()
        invariant
            0 <= i <= src@.len(),
            views(dst@) == base + views(src@).subrange(0, i as int),
        decreases src@.len() - i,
    {
        let ghost prev = dst@;
        dst.push(src[i].clone());
        assert(views(dst@) =~= views(prev).push(src@[i as int]@));
        assert(views(dst@) =~= base + views(src@).subrange(0, i + 1));
        i = i + 1;
    }
    assert(views(src@).subrange(0, src@.len() as int) =~= views(src@));
}

impl SessionTable {
    #[verifier::type_invariant]
    spec fn inv(&self) -> bool {
        distinct_ids(self@)
    }

    /// An empty table.
    pub fn new() -> (r: SessionTable)
        ensures
            r@ == Seq::<(Seq<char>, Seq<MessageView>)>::empty(),
            distinct_ids(r@),
    {
        let r = SessionTable { entries: Vec::new() };
        assert(r@ =~= Seq::<(Seq<char>, Seq<MessageView>)>::empty());
        r
    }

    /// The index of session `id`.
    fn find(&self, id: &String) -> (r: Option<usize>)
        ensures
            r matches Some(i) ==> i < self@.len() && index_of(self@, id@) == Some(i as int)
                && self@[i as int].0 == id@,
            r is None ==> index_of(self@, id@) is None,
    {
        proof {
            use_type_invariant(self);
        }
        let mut i: usize = 0;
        while i < self.entries.len()
            invariant
                0 <= i <= self.entries@.len(),
                distinct_ids(self@),
                forall|j: int| 0 <= j < i ==> self@[j].0 != id@,
            decreases self.entries@.len() - i,
        {
            assert(self@[i as int].0 == self.entries@[i as int].0@);
            if self.entries[i].0 == *id {
                assert(index_of(self@, id@) == Some(i as int));
                return Some(i);
            }
            i = i + 1;
        }
        None
    }

    /// The messages of session `id` (empty when absent).
    pub fn messages(&self, id: &str) -> (r: Vec<Message>)
        ensures
            views(r@) == session_of(self@, id@),
            distinct_ids(self@),
    {
        proof {
            use_type_invariant(self);
        }
        let key = String::from_str(id);
        match self.find(&key) {
            Some(i) => {
                let r = clone_messages(self.entries[i].1.as_slice());
                r
            },
            None => {
                let r: Vec<Message> = Vec::new();
                assert(views(r@) =~= Seq::<MessageView>::empty());
                r
            },
        }
    }

    /// Replaces the messages of session `id` with `msgs`.
    pub fn put(&mut self, id: &str, msgs: Vec<Message>)
        ensures
            final(self)@ == put_session(old(self)@, id@, views(msgs@)),
            distinct_ids(old(self)@),
            distinct_ids(final(self)@),
    {
        proof {
            use_type_invariant(&*self);
        }
        let key = String::from_str(id);
        let ghost before = self@;
        match self.find(&key) {
            Some(i) => {
                assert(before[i as int].0 == id@);
                let ghost new_view = before.update(i as int, (id@, views(msgs@)));
                assert forall|a: int, b: int| 0 <= a < b < new_view.len() implies new_view[a].0
                    != new_view[b].0 by {
                    if a != i && b != i {
                        assert(new_view[a] == before[a] && new_view[b] == before[b]);
                    }
                }
                let mut entries: Vec<(String, Vec<Message>)> = Vec::new();
                std::mem::swap(&mut entries, &mut self.entries);
                entries.set(i, (key, msgs));
                assert(entries@.map_values(|e: (String, Vec<Message>)| (e.0@, views(e.1@))) =~= new_view);
                self.entries = entries;
                assert(self@ =~= new_view);
            },
            None => {
                assert(forall|j: int| 0 <= j < before.len() ==> before[j].0 != id@);
                let ghost new_view = before.push((id@, views(msgs@)));
                assert forall|a: int, b: int| 0 <= a < b < new_view.len() implies new_view[a].0
                    != new_view[b].0 by {
                    if b == before.len() {
                        assert(new_view[a] == before[a]);
                    }
                }
                let mut entries: Vec<(String, Vec<Message>)> = Vec::new();
                std::mem::swap(&mut entries, &mut self.entries);
                entries.push((key, msgs));
                assert(entries@.map_values(|e: (String, Vec<Message>)| (e.0@, views(e.1@))) =~= new_view);
                self.entries = entries;
                assert(self@ =~= new_view);
            },
        }
        proof {
            use_type_invariant(&*self);
        }
    }

    /// Removes session `id`, if present.
    pub fn remove(&mut self, id: &str)
        ensures
            final(self)@ == drop_session(old(self)@, id@),
            distinct_ids(old(self)@),
            distinct_ids(final(self)@),
    {
        proof {
            use_type_invariant(&*self);
        }
        let key = String::from_str(id);
        let ghost before = self@;
        match self.find(&key) {
            Some(i) => {
                let ghost new_view = before.remove(i as int);
                assert forall|a: int, b: int| 0 <= a < b < new_view.len() implies new_view[a].0
                    != new_view[b].0 by {
                    let a2 = if a < i { a } else { a + 1 };
                    let b2 = if b < i { b } else { b + 1 };
                    assert(new_view[a] == before[a2] && new_view[b] == before[b2]);
                }
                let mut entries: Vec<(String, Vec<Message>)> = Vec::new();
                std::mem::swap(&mut entries, &mut self.entries);
                entries.remove(i);
                assert(entries@.map_values(|e: (String, Vec<Message>)| (e.0@, views(e.1@))) =~= new_view);
                self.entries = entries;
                assert(self@ =~= new_view);
            },
            None => {},
        }
        proof {
            use_type_invariant(&*self);
        }
    }

    /// The number of sessions.
    pub fn len(&self) -> (r: usize)
        ensures
            r == self@.len(),
            distinct_ids(self@),
    {
        proof {
            use_type_invariant(self);
        }
        self.entries.len()
    }

    /// The id of the session at `i`.
    pub fn id_at(&self, i: usize) -> (r: &String)
        requires
            i < self@.len(),
        ensures
            r@ == self@[i as int].0,
    {
        &self.entries[i].0
    }

    /// The messages of the session at `i`.
    pub fn messages_at(&self, i: usize) -> (r: &Vec<Message>)
        requires
            i < self@.len(),
        ensures
            views(r@) == self@[i as int].1,
    {
        &self.entries[i].1
    }
}

} // verus!
