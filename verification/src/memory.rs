//! Conversation memory: retrieval and search options, and the search over a
//! session table shared by the memory implementations.

use vstd::prelude::*;
use crate::json::Json;
use crate::message::{at_or_after, first_text, Message, MessageView, Timestamp};
use crate::session_table::{views, SessionTable, session_of, index_of};
use crate::text::{has_substring, lowercase, str_contains, to_lowercase};

verus! {

/// Options for retrieving messages from memory.
#[derive(Debug)]
pub struct RetrieveOptions {
    /// Maximum number of messages to return.
    pub limit: Option<usize>,
    /// Number of leading messages to skip.
    pub offset: Option<usize>,
    /// Only messages at or after this time.
    pub after: Option<Timestamp>,
}

impl Default for RetrieveOptions {
    fn default() -> (r: RetrieveOptions)
        ensures
            r.limit is None,
            r.offset is None,
            r.after is None,
    {
        RetrieveOptions { limit: None, offset: None, after: None }
    }
}

/// Options for searching memory.
#[derive(Debug)]
pub struct SearchOptions {
    /// Maximum number of results.
    pub limit: usize,
    /// Only search this session.
    pub session_id: Option<String>,
}

impl SearchOptions {
    /// The session the search is restricted to, if any.
    pub open spec fn session_view(&self) -> Option<Seq<char>> {
        match &self.session_id {
            Some(s) => Some(s@),
            None => None,
        }
    }
}

impl Default for SearchOptions {
    fn default() -> (r: SearchOptions)
        ensures
            r.limit == 10,
            r.session_id is None,
    {
        SearchOptions { limit: 10, session_id: None }
    }
}

/// A memory entry returned by a search.
#[derive(Debug)]
pub struct MemoryEntry {
    /// The stored message.
    pub message: Message,
    /// Arbitrary metadata.
    pub metadata: Vec<(String, Json)>,
}

/// The messages at or after `after`, in order (all of them without a bound).
pub open spec fn since(msgs: Seq<MessageView>, after: Option<Timestamp>) -> Seq<MessageView>
    decreases msgs.len(),
{
    if msgs.len() == 0 {
        Seq::empty()
    } else {
        let rest = since(msgs.drop_last(), after);
        match after {
            Some(t) => if at_or_after(msgs.last().timestamp, t) {
                rest.push(msgs.last())
            } else {
                rest
            },
            None => rest.push(msgs.last()),
        }
    }
}

/// `msgs` without its first `offset` messages, cut to at most `limit`.
pub open spec fn page(msgs: Seq<MessageView>, offset: nat, limit: nat) -> Seq<MessageView> {
    let start = if offset < msgs.len() {
        offset
    } else {
        msgs.len()
    };
    let end = if start + limit < msgs.len() {
        start + limit
    } else {
        msgs.len()
    };
    msgs.subrange(start as int, end as int)
}

/// What a retrieval returns from a session's messages: the messages at or
/// after `opts.after`, without the first `opts.offset` (default 0), at most
/// `opts.limit` (default: all of them).
pub open spec fn retrieve(msgs: Seq<MessageView>, opts: RetrieveOptions) -> Seq<MessageView> {
    page(
        since(msgs, opts.after),
        match opts.offset {
            Some(o) => o as nat,
            None => 0,
        },
        match opts.limit {
            Some(l) => l as nat,
            None => msgs.len(),
        },
    )
}

/// Whether message `m` matches the lowercase query `q`: its text, lowercased,
/// contains `q`.
pub open spec fn matches_query(m: MessageView, q: Seq<char>) -> bool {
    match first_text(m.content) {
        Some(t) => has_substring(lowercase(t), q),
        None => false,
    }
}

/// The messages of `msgs` that match `q`, in order.
pub open spec fn matching(msgs: Seq<MessageView>, q: Seq<char>) -> Seq<MessageView>
    decreases msgs.len(),
{
    if msgs.len() == 0 {
        Seq::empty()
    } else if matches_query(msgs.last(), q) {
        matching(msgs.drop_last(), q).push(msgs.last())
    } else {
        matching(msgs.drop_last(), q)
    }
}

/// All messages of the sessions of `t`, session by session.
pub open spec fn flatten(t: Seq<(Seq<char>, Seq<MessageView>)>) -> Seq<MessageView>
    decreases t.len(),
{
    if t.len() == 0 {
        Seq::empty()
    } else {
        flatten(t.drop_last()) + t.last().1
    }
}

/// The sessions a search looks at: only `sid`'s when given, else all.
pub open spec fn searched(t: Seq<(Seq<char>, Seq<MessageView>)>, sid: Option<Seq<char>>) -> Seq<
    MessageView,
> {
    match sid {
        Some(id) => session_of(t, id),
        None => flatten(t),
    }
}

/// The results of a search: the matching messages in session order, at most
/// `limit` of them.
pub open spec fn search_results(
    t: Seq<(Seq<char>, Seq<MessageView>)>,
    q: Seq<char>,
    sid: Option<Seq<char>>,
    limit: nat,
) -> Seq<MessageView> {
    let all = matching(searched(t, sid), lowercase(q));
    if all.len() <= limit {
        all
    } else {
        all.take(limit as int)
    }
}

/// Matching distributes over concatenation.
pub proof fn lemma_matching_concat(a: Seq<MessageView>, b: Seq<MessageView>, q: Seq<char>)
    ensures
        matching(a + b, q) == matching(a, q) + matching(b, q),
    decreases b.len(),
{
    if b.len() == 0 {
        assert(a + b =~= a);
        assert(matching(b, q) =~= Seq::<MessageView>::empty());
        assert(matching(a, q) + matching(b, q) =~= matching(a, q));
    } else {
        lemma_matching_concat(a, b.drop_last(), q);
        assert((a + b).drop_last() =~= a + b.drop_last());
        assert((a + b).last() == b.last());
        if matches_query(b.last(), q) {
            assert(matching(a + b, q) =~= matching(a, q) + matching(b, q));
        } else {
            assert(matching(a + b, q) =~= matching(a, q) + matching(b, q));
        }
    }
}

/// What `matching` keeps: only messages of `msgs` that match, and every
/// one of them.
proof fn lemma_matching_members(msgs: Seq<MessageView>, q: Seq<char>)
    ensures
        forall|i: int|
            0 <= i < matching(msgs, q).len() ==> matches_query(#[trigger] matching(msgs, q)[i], q)
                && msgs.contains(matching(msgs, q)[i]),
        forall|i: int|
            0 <= i < msgs.len() && matches_query(#[trigger] msgs[i], q) ==> matching(msgs, q).contains(
                msgs[i],
            ),
    decreases msgs.len(),
{
    if msgs.len() > 0 {
        let init = msgs.drop_last();
        lemma_matching_members(init, q);
        let m = matching(msgs, q);
        let mi = matching(init, q);
        assert forall|i: int| 0 <= i < m.len() implies matches_query(#[trigger] m[i], q)
            && msgs.contains(m[i]) by {
            if i < mi.len() {
                assert(m[i] == mi[i]);
                let j = choose|j: int| 0 <= j < init.len() && init[j] == mi[i];
                assert(msgs[j] == init[j]);
            } else {
                assert(m[i] == msgs.last());
                assert(msgs[msgs.len() - 1] == msgs.last());
            }
        }
        assert forall|i: int| 0 <= i < msgs.len() && matches_query(#[trigger] msgs[i], q) implies m.contains(
            msgs[i],
        ) by {
            if i < init.len() {
                assert(init[i] == msgs[i]);
                let j = choose|j: int| 0 <= j < mi.len() && mi[j] == init[i];
                assert(m[j] == mi[j]);
            } else {
                assert(m[m.len() - 1] == msgs.last());
            }
        }
    }
}

/// Search is case-insensitive in the text and in the query alike: every
/// result is a message of the sessions searched whose text, lowercased,
/// contains the lowercased query; there are at most `limit` of them; and
/// when the limit leaves room for all the messages searched, every such
/// message is among the results.
pub proof fn law_search_case_insensitive(
    t: Seq<(Seq<char>, Seq<MessageView>)>,
    q: Seq<char>,
    sid: Option<Seq<char>>,
    limit: nat,
)
    ensures
        search_results(t, q, sid, limit).len() <= limit,
        forall|i: int|
            0 <= i < search_results(t, q, sid, limit).len() ==> searched(t, sid).contains(
                #[trigger] search_results(t, q, sid, limit)[i],
            ) && match first_text(search_results(t, q, sid, limit)[i].content) {
                Some(x) => has_substring(lowercase(x), lowercase(q)),
                None => false,
            },
        limit >= searched(t, sid).len() ==> forall|i: int|
            0 <= i < searched(t, sid).len() && match first_text((#[trigger] searched(t, sid)[i]).content) {
                Some(x) => has_substring(lowercase(x), lowercase(q)),
                None => false,
            } ==> search_results(t, q, sid, limit).contains(searched(t, sid)[i]),
{
    let found = matching(searched(t, sid), lowercase(q));
    lemma_matching_members(searched(t, sid), lowercase(q));
    let r = search_results(t, q, sid, limit);
    assert forall|i: int| 0 <= i < r.len() implies searched(t, sid).contains(#[trigger] r[i])
        && match first_text(r[i].content) {
        Some(x) => has_substring(lowercase(x), lowercase(q)),
        None => false,
    } by {
        assert(r[i] == found[i]);
        assert(matches_query(found[i], lowercase(q)));
    }
    if limit >= searched(t, sid).len() {
        assert(found.len() <= searched(t, sid).len()) by {
            lemma_matching_len(searched(t, sid), lowercase(q));
        }
        assert(r == found);
        assert forall|i: int|
            0 <= i < searched(t, sid).len() && match first_text((#[trigger] searched(t, sid)[i]).content) {
                Some(x) => has_substring(lowercase(x), lowercase(q)),
                None => false,
            } implies r.contains(searched(t, sid)[i]) by {
            assert(matches_query(searched(t, sid)[i], lowercase(q)));
        }
    }
}

/// Matching keeps, in order, exactly the messages that match.
proof fn lemma_matching_filter(msgs: Seq<MessageView>, q: Seq<char>)
    ensures
        matching(msgs, q) == msgs.filter(|m: MessageView| matches_query(m, q)),
    decreases msgs.len(),
{
    reveal(Seq::filter);
    if msgs.len() > 0 {
        lemma_matching_filter(msgs.drop_last(), q);
    }
}

/// The results of a search, exactly: the messages of the sessions
/// searched, in order, whose text lowercased contains the lowercased
/// query, cut to the first `limit`.
pub proof fn law_search_results_exact(
    t: Seq<(Seq<char>, Seq<MessageView>)>,
    q: Seq<char>,
    sid: Option<Seq<char>>,
    limit: nat,
)
    ensures
        ({
            let hits = searched(t, sid).filter(
                |m: MessageView|
                    match first_text(m.content) {
                        Some(x) => has_substring(lowercase(x), lowercase(q)),
                        None => false,
                    },
            );
            search_results(t, q, sid, limit) == if hits.len() <= limit {
                hits
            } else {
                hits.take(limit as int)
            }
        }),
{
    lemma_matching_filter(searched(t, sid), lowercase(q));
    let p1 = |m: MessageView| matches_query(m, lowercase(q));
    let p2 = |m: MessageView|
        match first_text(m.content) {
            Some(x) => has_substring(lowercase(x), lowercase(q)),
            None => false,
        };
    assert(p1 =~= p2);
}

/// Matching keeps no more messages than it is given.
proof fn lemma_matching_len(msgs: Seq<MessageView>, q: Seq<char>)
    ensures
        matching(msgs, q).len() <= msgs.len(),
    decreases msgs.len(),
{
    if msgs.len() > 0 {
        lemma_matching_len(msgs.drop_last(), q);
    }
}

/// Retrieves a page of the messages at or after a bound.
pub fn retrieve_from(msgs: Vec<Message>, opts: &RetrieveOptions) -> (r: Vec<Message>)
    ensures
        views(r@) == retrieve(views(msgs@), *opts),
{
    let ghost all = views(msgs@);
    let mut kept: Vec<Message> = Vec::new();
    let mut i: usize = 0;
    while i < msgs.len()
        invariant
            0 <= i <= msgs@.len(),
            all == views(msgs@),
            views(kept@) == since(all.subrange(0, i as int), opts.after),
        decreases msgs@.len() - i,
    {
        assert(all.subrange(0, i + 1).drop_last() =~= all.subrange(0, i as int));
        assert(all.subrange(0, i + 1).last() == msgs@[i as int]@);
        let keep = match opts.after {
            Some(t) => msgs[i].timestamp.is_at_or_after(&t),
            None => true,
        };
        if keep {
            kept.push(msgs[i].clone());
            assert(views(kept@) =~= since(all.subrange(0, i as int), opts.after).push(
                msgs@[i as int]@,
            ));
        }
        i = i + 1;
    }
    assert(all.subrange(0, all.len() as int) =~= all);
    let offset: usize = match opts.offset {
        Some(o) => o,
        None => 0,
    };
    let limit: usize = match opts.limit {
        Some(l) => l,
        None => msgs.len(),
    };
    let n = kept.len();
    let start: usize = if offset < n {
        offset
    } else {
        n
    };
    let end: usize = if limit < n - start {
        start + limit
    } else {
        n
    };
    let mut out: Vec<Message> = Vec::new();
    let mut j: usize = start;
    while j < end
        invariant
            start <= j <= end <= kept@.len(),
            views(out@) == views(kept@).subrange(start as int, j as int),
        decreases end - j,
    {
        let ghost prev = out@;
        out.push(kept[j].clone());
        assert(out@ == prev.push(out@[out@.len() - 1]));
        assert(views(out@) =~= views(prev).push(kept@[j as int]@));
        assert(views(out@) =~= views(kept@).subrange(start as int, j + 1));
        j = j + 1;
    }
    out
}

/// Searches the sessions of a table for messages whose text contains the
/// query, compared case-insensitively.
pub fn search_table(table: &SessionTable, query: &str, opts: &SearchOptions) -> (r: Vec<
    MemoryEntry,
>)
    ensures
        r@.map_values(|e: MemoryEntry| e.message@) == search_results(
            table@,
            query@,
            opts.session_view(),
            opts.limit as nat,
        ),
        forall|i: int| 0 <= i < r@.len() ==> (#[trigger] r@[i]).metadata@.len() == 0,
{
    let query_lower = to_lowercase(query);
    let ghost q = query_lower@;
    let ghost sid: Option<Seq<char>> = match &opts.session_id {
        Some(s) => Some(s@),
        None => None,
    };
    let ghost t = table@;
    let ghost cap: nat = opts.limit as nat;
    if opts.limit == 0 {
        let none: Vec<MemoryEntry> = Vec::new();
        assert(none@.map_values(|e: MemoryEntry| e.message@) =~= Seq::<MessageView>::empty());
        return none;
    }
    let all: Vec<Message> = match &opts.session_id {
        Some(s) => table.messages(s.as_str()),
        None => flatten_table(table),
    };
    let ghost all_v = views(all@);
    assert(all_v == searched(t, sid));
    let mut results: Vec<MemoryEntry> = Vec::new();
    let mut j: usize = 0;
    assert(all_v.subrange(0, 0) =~= Seq::<MessageView>::empty());
    while j < all.len()
        invariant
            0 <= j <= all@.len(),
            all_v == views(all@),
            all_v == searched(t, sid),
            t == table@,
            sid == opts.session_view(),
            q == lowercase(query@),
            query_lower@ == q,
            cap == opts.limit as nat,
            cap > 0,
            results@.map_values(|e: MemoryEntry| e.message@) == matching(all_v.subrange(0, j as int), q),
            results@.len() < cap,
            forall|i: int| 0 <= i < results@.len() ==> (#[trigger] results@[i]).metadata@.len() == 0,
        decreases all@.len() - j,
    {
        assert(all_v.subrange(0, j + 1).drop_last() =~= all_v.subrange(0, j as int));
        assert(all_v.subrange(0, j + 1).last() == all@[j as int]@);
        let hit = match all[j].text() {
            Some(text) => {
                let lower = to_lowercase(text);
                str_contains(lower.as_str(), query_lower.as_str())
            },
            None => false,
        };
        if hit {
            let ghost before = results@.map_values(|e: MemoryEntry| e.message@);
            results.push(MemoryEntry { message: all[j].clone(), metadata: Vec::new() });
            assert(results@.map_values(|e: MemoryEntry| e.message@) =~= before.push(all@[j as int]@));
            if results.len() >= opts.limit {
                proof {
                    let pre = all_v.subrange(0, j + 1);
                    let post = all_v.subrange(j + 1, all_v.len() as int);
                    assert(pre + post =~= all_v);
                    lemma_matching_concat(pre, post, q);
                    let whole = matching(all_v, q);
                    let got = results@.map_values(|e: MemoryEntry| e.message@);
                    assert(got == matching(pre, q));
                    assert(whole == got + matching(post, q));
                    assert(got.len() == cap);
                    assert(whole.take(cap as int) =~= got);
                    if whole.len() <= cap {
                        assert(whole =~= got);
                    }
                    assert(lowercase(query@) == q);
                }
                return results;
            }
        }
        j = j + 1;
    }
    assert(all_v.subrange(0, all_v.len() as int) =~= all_v);
    results
}

/// Every message of a table, session by session.
fn flatten_table(table: &SessionTable) -> (r: Vec<Message>)
    ensures
        views(r@) == flatten(table@),
{
    let ghost t = table@;
    let mut out: Vec<Message> = Vec::new();
    let mut i: usize = 0;
    assert(t.subrange(0, 0) =~= Seq::<(Seq<char>, Seq<MessageView>)>::empty());
    while i < table.len()
        invariant
            0 <= i <= t.len(),
            t == table@,
            views(out@) == flatten(t.subrange(0, i as int)),
        decreases t.len() - i,
    {
        assert(t.subrange(0, i + 1).drop_last() =~= t.subrange(0, i as int));
        let msgs = table.messages_at(i);
        let mut k: usize = 0;
        let ghost base = views(out@);
        while k < msgs.len()
            invariant
                0 <= k <= msgs@.len(),
                views(out@) == base + views(msgs@).subrange(0, k as int),
            decreases msgs@.len() - k,
        {
            let ghost prev = out@;
            out.push(msgs[k].clone());
            assert(views(out@) =~= views(prev).push(msgs@[k as int]@));
            assert(views(out@) =~= base + views(msgs@).subrange(0, k + 1));
            k = k + 1;
        }
        assert(views(msgs@).subrange(0, msgs@.len() as int) =~= views(msgs@));
        i = i + 1;
    }
    assert(t.subrange(0, t.len() as int) =~= t);
    out
}

} // verus!
