//! Sliding window memory: keeps only the most recent messages of a session.

use vstd::prelude::*;
use crate::error::MemoryError;
use crate::memory::{MemoryEntry, RetrieveOptions, SearchOptions, retrieve, retrieve_from, search_results, search_table};
use crate::message::{Message, MessageView};
use crate::session_table::{
    distinct_ids, law_put_then_read, SessionTable, views, session_of, put_session, drop_session, append_clones,
};

verus! {

/// Memory that keeps only the most recent `window_size` messages per session.
pub struct SlidingWindowMemory {
    window_size: usize,
    sessions: SessionTable,
}

/// The last `w` messages of `s` (all of them when there are at most `w`).
pub open spec fn last_n(s: Seq<MessageView>, w: nat) -> Seq<MessageView> {
    if s.len() > w {
        s.subrange(s.len() - w, s.len() as int)
    } else {
        s
    }
}

impl View for SlidingWindowMemory {
    type V = Seq<(Seq<char>, Seq<MessageView>)>;

    /// The sessions with their retained messages, in first-stored order.
    closed spec fn view(&self) -> Seq<(Seq<char>, Seq<MessageView>)> {
        self.sessions@
    }
}

impl SlidingWindowMemory {
    /// The number of messages kept per session.
    pub closed spec fn window(&self) -> nat {
        self.window_size as nat
    }

    /// An empty memory keeping `window_size` messages per session.
    pub fn new(window_size: usize) -> (r: SlidingWindowMemory)
        ensures
            r.window() == window_size,
            r@ == Seq::<(Seq<char>, Seq<MessageView>)>::empty(),
            distinct_ids(r@),
    {
        SlidingWindowMemory { window_size, sessions: SessionTable::new() }
    }

    /// Appends messages to a session, then drops its oldest messages beyond
    /// the window.
    pub fn store_messages(&mut self, session_id: &str, messages: &[Message]) -> (r: Result<
        (),
        MemoryError,
    >)
        ensures
            r is Ok,
            final(self).window() == old(self).window(),
            final(self)@ == put_session(
                old(self)@,
                session_id@,
                last_n(session_of(old(self)@, session_id@) + views(messages@), old(self).window()),
            ),
            distinct_ids(final(self)@),
            // The session reads back as the latest messages, never more than the window.
            session_of(final(self)@, session_id@) == last_n(
                session_of(old(self)@, session_id@) + views(messages@),
                old(self).window(),
            ),
            session_of(final(self)@, session_id@).len() <= final(self).window(),
    {
        let mut current = self.sessions.messages(session_id);
        let ghost before = self@;
        append_clones(&mut current, messages);
        let n = current.len();
        if n > self.window_size {
            let drain = n - self.window_size;
            let ghost all = views(current@);
            let mut kept: Vec<Message> = Vec::new();
            let mut i: usize = drain;
            while i < n
                invariant
                    drain <= i <= n,
                    n == current@.len(),
                    all == views(current@),
                    views(kept@) == all.subrange(drain as int, i as int),
                decreases n - i,
            {
                let ghost prev = kept@;
                kept.push(current[i].clone());
                assert(views(kept@) =~= views(prev).push(current@[i as int]@));
                assert(views(kept@) =~= all.subrange(drain as int, i + 1));
                i = i + 1;
            }
            self.sessions.put(session_id, kept);
        } else {
            self.sessions.put(session_id, current);
        }
        proof {
            law_put_then_read(
                before,
                session_id@,
                last_n(session_of(before, session_id@) + views(messages@), self.window()),
            );
        }
        Ok(())
    }

    /// Retrieves a session's retained messages: those at or after
    /// `opts.after`, skipping `opts.offset`, at most `opts.limit`.
    pub fn get_messages(&self, session_id: &str, opts: RetrieveOptions) -> (r: Result<
        Vec<Message>,
        MemoryError,
    >)
        ensures
            distinct_ids(self@),
            r matches Ok(v) && views(v@) == retrieve(session_of(self@, session_id@), opts),
    {
        let msgs = self.sessions.messages(session_id);
        Ok(retrieve_from(msgs, &opts))
    }

    /// Searches retained messages whose text contains `query`, ignoring case.
    pub fn search(&self, query: &str, opts: SearchOptions) -> (r: Result<
        Vec<MemoryEntry>,
        MemoryError,
    >)
        ensures
            r matches Ok(v) && v@.map_values(|e: MemoryEntry| e.message@) == search_results(
                self@,
                query@,
                opts.session_view(),
                opts.limit as nat,
            ),
            r matches Ok(v) && forall|i: int| 0 <= i < v@.len() ==> (#[trigger] v@[i]).metadata@.len() == 0,
    {
        Ok(search_table(&self.sessions, query, &opts))
    }

    /// Removes a session and its messages.
    pub fn clear(&mut self, session_id: &str) -> (r: Result<(), MemoryError>)
        ensures
            r is Ok,
            final(self).window() == old(self).window(),
            final(self)@ == drop_session(old(self)@, session_id@),
            distinct_ids(final(self)@),
    {
        self.sessions.remove(session_id);
        Ok(())
    }
}

} // verus!
