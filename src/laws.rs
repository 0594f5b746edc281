use vstd::prelude::*;
use crate::board::{edited, fresh_message, message_valid, upvoted, Board};
use crate::model::MessageModel;
use crate::search::{message_matches, message_values, search_result, QueryModel};

verus! {

/// Filtering by a predicate that holds of everything keeps the sequence.
proof fn lemma_filter_keeps_all<A>(s: Seq<A>, p: spec_fn(A) -> bool)
    requires
        forall|x: A| #[trigger] p(x),
    ensures
        s.filter(p) == s,
    decreases s.len(),
{
    reveal(Seq::filter);
    if s.len() > 0 {
        lemma_filter_keeps_all(s.drop_last(), p);
        assert(s.drop_last().push(s.last()) =~= s);
    }
}

/// A message just added and then read back has no votes and no voters.
pub proof fn added_message_has_no_votes(
    messages: Map<u64, MessageModel>,
    id: u64,
    title: Seq<char>,
    body: Seq<char>,
    attachment_url: Seq<char>,
    now: u64,
)
    ensures
        ({
            let added = messages.insert(id, fresh_message(id, title, body, attachment_url, now));
            &&& added.contains_key(id)
            &&& added[id].upvotes == 0
            &&& added[id].downvotes == 0
            &&& added[id].upvoted_users.len() == 0
            &&& added[id].downvoted_users.len() == 0
            &&& message_valid(added[id])
        }),
{
}

/// An edit keeps a message's id, creation time and votes, and stamps it as
/// edited.
pub proof fn edit_keeps_identity(
    m: MessageModel,
    title: Seq<char>,
    body: Seq<char>,
    attachment_url: Seq<char>,
    now: u64,
)
    ensures
        ({
            let e = edited(m, title, body, attachment_url, now);
            &&& e.id == m.id
            &&& e.created_at == m.created_at
            &&& e.updated_at is Some
            &&& e.upvotes == m.upvotes
            &&& e.upvoted_users == m.upvoted_users
            &&& e.downvotes == m.downvotes
            &&& e.downvoted_users == m.downvoted_users
        }),
{
}

/// A first upvote adds exactly one to the tally and lists the voter, so a
/// second upvote by the same name is refused.
pub proof fn upvote_counts_once(m: MessageModel, name: Seq<char>)
    requires
        message_valid(m),
        !m.upvoted_users.contains(name),
        m.upvotes < u64::MAX,
    ensures
        ({
            let u = upvoted(m, name);
            &&& u.upvotes == m.upvotes + 1
            &&& u.upvoted_users.contains(name)
            &&& message_valid(u)
        }),
{
    let u = upvoted(m, name);
    assert(u.upvoted_users[m.upvoted_users.len() as int] == name);
}

/// A search with no filters returns every message, in order.
pub proof fn search_without_filters_returns_all(entries: Seq<(u64, MessageModel)>, now: u64)
    ensures
        search_result(
            entries,
            QueryModel {
                term: None,
                min_upvotes: None,
                max_downvotes: None,
                recent_hours: None,
                now,
            },
        ) == message_values(entries),
{
    let q = QueryModel {
        term: None,
        min_upvotes: None,
        max_downvotes: None,
        recent_hours: None,
        now,
    };
    lemma_filter_keeps_all(message_values(entries), |m: MessageModel| message_matches(q, m));
}

/// On a board, a search with no filters returns each stored message once,
/// in ascending id order.
pub proof fn board_search_without_filters(b: &Board, now: u64)
    requires
        b.wf(),
    ensures
        ({
            let r = search_result(
                b.message_list(),
                QueryModel {
                    term: None,
                    min_upvotes: None,
                    max_downvotes: None,
                    recent_hours: None,
                    now,
                },
            );
            &&& r.len() == b.messages().len()
            &&& forall|i: int|
                0 <= i < r.len() ==> #[trigger] b.messages().contains_key(b.message_list()[i].0)
                    && r[i] == b.messages()[b.message_list()[i].0]
            &&& forall|k: u64|
                #[trigger] b.messages().contains_key(k) ==> exists|i: int|
                    0 <= i < r.len() && r[i] == b.messages()[k]
        }),
{
    search_without_filters_returns_all(b.message_list(), now);
    b.lemma_stores();
    let r = message_values(b.message_list());
    assert forall|k: u64| #[trigger] b.messages().contains_key(k) implies exists|i: int|
        0 <= i < r.len() && r[i] == b.messages()[k] by {
        let i = choose|i: int| 0 <= i < b.message_list().len() && #[trigger] b.message_list()[i].0 == k;
        assert(r[i] == b.messages()[k]);
    }
}

/// Filtering messages whose ids rise keeps the ids rising, and keeps only
/// messages of the sequence.
proof fn lemma_filter_ascending(s: Seq<MessageModel>, p: spec_fn(MessageModel) -> bool)
    requires
        forall|i: int, j: int| 0 <= i < j < s.len() ==> #[trigger] s[i].id < #[trigger] s[j].id,
    ensures
        forall|i: int, j: int|
            0 <= i < j < s.filter(p).len() ==> #[trigger] s.filter(p)[i].id < #[trigger] s.filter(p)[j].id,
        forall|i: int|
            0 <= i < s.filter(p).len() ==> exists|k: int| 0 <= k < s.len() && #[trigger] s.filter(p)[i] == s[k],
    decreases s.len(),
{
    reveal(Seq::filter);
    if s.len() > 0 {
        let d = s.drop_last();
        lemma_filter_ascending(d, p);
        let f = d.filter(p);
        assert forall|i: int| 0 <= i < f.len() implies exists|k: int| 0 <= k < s.len() && #[trigger] f[i] == s[k] by {
            let k = choose|k: int| 0 <= k < d.len() && #[trigger] f[i] == d[k];
            assert(f[i] == s[k]);
        }
        assert forall|i: int| 0 <= i < f.len() implies #[trigger] f[i].id < s.last().id by {
            let k = choose|k: int| 0 <= k < d.len() && #[trigger] f[i] == d[k];
            assert(s[k].id < s[s.len() - 1].id);
        }
        if p(s.last()) {
            let g = f.push(s.last());
            assert(s.filter(p) == g);
            assert forall|i: int| 0 <= i < g.len() implies exists|k: int| 0 <= k < s.len() && #[trigger] g[i] == s[k] by {
                if i == f.len() {
                    assert(g[i] == s[s.len() - 1]);
                } else {
                    assert(g[i] == f[i]);
                }
            }
            assert forall|i: int, j: int| 0 <= i < j < g.len() implies #[trigger] g[i].id < #[trigger] g[j].id by {
                if j == f.len() {
                    assert(g[i] == f[i]);
                } else {
                    assert(g[i] == f[i] && g[j] == f[j]);
                }
            }
        }
    }
}

/// On a board, whatever the filters, a search returns stored messages, each
/// the one under its own id, in strictly ascending id order.
pub proof fn board_search_ascending(b: &Board, q: QueryModel)
    requires
        b.wf(),
    ensures
        ({
            let r = search_result(b.message_list(), q);
            &&& forall|i: int, j: int| 0 <= i < j < r.len() ==> #[trigger] r[i].id < #[trigger] r[j].id
            &&& forall|i: int|
                0 <= i < r.len() ==> #[trigger] b.messages().contains_key(r[i].id) && b.messages()[r[i].id]
                    == r[i]
        }),
{
    b.lemma_stores();
    let l = b.message_list();
    let v = message_values(l);
    assert forall|i: int| 0 <= i < v.len() implies #[trigger] v[i].id == l[i].0 && b.messages().contains_key(l[i].0) by {
        assert(b.messages().contains_key(l[i].0));
    }
    assert forall|i: int, j: int| 0 <= i < j < v.len() implies #[trigger] v[i].id < #[trigger] v[j].id by {
        assert(v[i].id == l[i].0 && v[j].id == l[j].0);
    }
    let p = |m: MessageModel| message_matches(q, m);
    lemma_filter_ascending(v, p);
    let r = v.filter(p);
    assert forall|i: int| 0 <= i < r.len() implies #[trigger] b.messages().contains_key(r[i].id) && b.messages()[r[i].id]
        == r[i] by {
        let k = choose|k: int| 0 <= k < v.len() && #[trigger] r[i] == v[k];
        assert(v[k].id == l[k].0 && b.messages().contains_key(l[k].0));
    }
}

/// A search by a least number of upvotes alone returns exactly the messages
/// with at least that many, in order.
pub proof fn search_by_min_upvotes(entries: Seq<(u64, MessageModel)>, n: u64, now: u64)
    ensures
        search_result(
            entries,
            QueryModel {
                term: None,
                min_upvotes: Some(n),
                max_downvotes: None,
                recent_hours: None,
                now,
            },
        ) == message_values(entries).filter(|m: MessageModel| m.upvotes >= n),
{
    let q = QueryModel {
        term: None,
        min_upvotes: Some(n),
        max_downvotes: None,
        recent_hours: None,
        now,
    };
    assert((|m: MessageModel| message_matches(q, m)) =~= (|m: MessageModel| m.upvotes >= n));
}

/// Once a message is deleted, its id no longer leads to it.
pub proof fn deleted_message_is_gone(messages: Map<u64, MessageModel>, id: u64)
    ensures
        !messages.remove(id).contains_key(id),
{
}

} // verus!
