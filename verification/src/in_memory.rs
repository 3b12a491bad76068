//! In-memory conversation store: keeps every message of every session.

use vstd::prelude::*;
use crate::error::MemoryError;
use crate::memory::{
    MemoryEntry, RetrieveOptions, SearchOptions, retrieve, retrieve_from, search_results,
    search_table,
};
use crate::message::{Message, MessageView};
use crate::session_table::{
    distinct_ids, law_put_then_read, SessionTable, views, session_of, put_session, drop_session, append_clones,
};

verus! {

/// A simple in-memory store that keeps all messages per session.
pub struct InMemoryStore {
    sessions: SessionTable,
}

impl View for InMemoryStore {
    type V = Seq<(Seq<char>, Seq<MessageView>)>;

    /// The sessions with their messages, in first-stored order.
    closed spec fn view(&self) -> Seq<(Seq<char>, Seq<MessageView>)> {
        self.sessions@
    }
}

impl Default for InMemoryStore {
    fn default() -> (r: InMemoryStore)
        ensures
            r@ == Seq::<(Seq<char>, Seq<MessageView>)>::empty(),
            distinct_ids(r@),
    {
        InMemoryStore::new()
    }
}

impl InMemoryStore {
    /// An empty store.
    pub fn new() -> (r: InMemoryStore)
        ensures
            r@ == Seq::<(Seq<char>, Seq<MessageView>)>::empty(),
            distinct_ids(r@),
    {
        InMemoryStore { sessions: SessionTable::new() }
    }

    /// Appends messages to a session (created when new).
    pub fn store_messages(&mut self, session_id: &str, messages: &[Message]) -> (r: Result<
        (),
        MemoryError,
    >)
        ensures
            r is Ok,
            final(self)@ == put_session(
                old(self)@,
                session_id@,
                session_of(old(self)@, session_id@) + views(messages@),
            ),
            distinct_ids(final(self)@),
            // Reading the session back gives its earlier messages, then the new ones.
            session_of(final(self)@, session_id@) == session_of(old(self)@, session_id@) + views(
                messages@,
            ),
    {
        let mut current = self.sessions.messages(session_id);
        let ghost before = self@;
        append_clones(&mut current, messages);
        self.sessions.put(session_id, current);
        proof {
            law_put_then_read(before, session_id@, session_of(before, session_id@) + views(messages@));
        }
        Ok(())
    }

    /// Retrieves a session's messages: those at or after `opts.after`,
    /// skipping `opts.offset`, at most `opts.limit`.
    pub fn get_messages(&self, session_id: &str, opts: RetrieveOptions) -> (r: Result<
        Vec<Message>,
        MemoryError,
    >)
        ensures
            distinct_ids(self@),
            r matches Ok(v) && views(v@) == retrieve(session_of(self@, session_id@), opts),
    {
        let msgs = self.sessions.messages(session_id);
        Ok(retrieve_from(msgs, &opts))
    }

    /// Searches stored messages whose text contains `query`, ignoring case.
    pub fn search(&self, query: &str, opts: SearchOptions) -> (r: Result<
        Vec<MemoryEntry>,
        MemoryError,
    >)
        ensures
            r matches Ok(v) && v@.map_values(|e: MemoryEntry| e.message@) == search_results(
                self@,
                query@,
                opts.session_view(),
                opts.limit as nat,
            ),
            r matches Ok(v) && forall|i: int| 0 <= i < v@.len() ==> (#[trigger] v@[i]).metadata@.len() == 0,
    {
        Ok(search_table(&self.sessions, query, &opts))
    }

    /// Removes a session and its messages.
    pub fn clear(&mut self, session_id: &str) -> (r: Result<(), MemoryError>)
        ensures
            r is Ok,
            final(self)@ == drop_session(old(self)@, session_id@),
            distinct_ids(final(self)@),
    {
        self.sessions.remove(session_id);
        Ok(())
    }
}

} // verus!
