use vstd::prelude::*;
use vstd::utf8::encode_utf8;
use crate::model::{Message, MessageModel};

verus! {

/// `needle` stands in `hay` from position `i` on.
pub open spec fn occurs_at(hay: Seq<u8>, needle: Seq<u8>, i: int) -> bool {
    &&& 0 <= i
    &&& i + needle.len() <= hay.len()
    &&& hay.subrange(i, i + needle.len()) == needle
}

/// `needle` is a contiguous run of bytes somewhere in `hay`.
pub open spec fn contains_bytes(hay: Seq<u8>, needle: Seq<u8>) -> bool {
    exists|i: int| occurs_at(hay, needle, i)
}

/// Case-sensitive substring test on the UTF-8 encodings of two texts.
pub open spec fn text_contains(text: Seq<char>, term: Seq<char>) -> bool {
    contains_bytes(encode_utf8(text), encode_utf8(term))
}

pub fn bytes_contain(hay: &[u8], needle: &[u8]) -> (r: bool)
    ensures
        r == contains_bytes(hay@, needle@),
{
    if needle.len() > hay.len() {
        return false;
    }
    let last: usize = hay.len() - needle.len();
    let mut i: usize = 0;
    while i <= last
        invariant
            last == hay@.len() - needle@.len(),
            i <= last + 1,
            forall|j: int| 0 <= j < i ==> !occurs_at(hay@, needle@, j),
        decreases last + 1 - i,
    {
        let mut k: usize = 0;
        while k < needle.len() && hay[i + k] == needle[k]
            invariant
                i <= last,
                last == hay@.len() - needle@.len(),
                hay@.len() == hay.len(),
                k <= needle@.len(),
                forall|t: int| 0 <= t < k ==> hay@[i + t] == needle@[t],
            decreases needle@.len() - k,
        {
            k = k + 1;
        }
        if k == needle.len() {
            proof {
                assert(hay@.subrange(i as int, i + needle@.len()) =~= needle@);
                assert(occurs_at(hay@, needle@, i as int));
            }
            return true;
        }
        proof {
            assert(hay@.subrange(i as int, i + needle@.len())[k as int] != needle@[k as int]);
        }
        i = i + 1;
    }
    false
}

/// Whether `term` occurs in `text`.
pub fn contains_term(text: &String, term: &String) -> (r: bool)
    ensures
        r == text_contains(text@, term@),
{
    bytes_contain(text.as_str().as_bytes(), term.as_str().as_bytes())
}

/// The filters of a search, each one optional, and the time it runs at.
pub struct QueryModel {
    pub term: Option<Seq<char>>,
    pub min_upvotes: Option<u64>,
    pub max_downvotes: Option<u64>,
    pub recent_hours: Option<u64>,
    pub now: u64,
}

/// A message meets every filter that is given; an absent filter holds.
pub open spec fn message_matches(q: QueryModel, m: MessageModel) -> bool {
    &&& (q.term matches Some(t) ==> text_contains(m.title, t) || text_contains(m.body, t))
    &&& (q.min_upvotes matches Some(n) ==> m.upvotes >= n)
    &&& (q.max_downvotes matches Some(n) ==> m.downvotes <= n)
    &&& (q.recent_hours matches Some(h) ==> q.now - m.created_at <= h * 3600)
}

/// The messages of the entries, in their order.
pub open spec fn message_values(entries: Seq<(u64, MessageModel)>) -> Seq<MessageModel> {
    entries.map_values(|e: (u64, MessageModel)| e.1)
}

/// The messages of the entries, in their order, that meet the query.
pub open spec fn search_result(entries: Seq<(u64, MessageModel)>, q: QueryModel) -> Seq<MessageModel> {
    message_values(entries).filter(|m: MessageModel| message_matches(q, m))
}

pub open spec fn term_model(term: Option<String>) -> Option<Seq<char>> {
    match term {
        Some(t) => Some(t@),
        None => None,
    }
}

/// Whether one message meets the filters.
pub fn matches_filters(
    m: &Message,
    term: &Option<String>,
    min_upvotes: Option<u64>,
    max_downvotes: Option<u64>,
    recent_hours: Option<u64>,
    now: u64,
) -> (r: bool)
    ensures
        r == message_matches(
            QueryModel {
                term: term_model(*term),
                min_upvotes,
                max_downvotes,
                recent_hours,
                now,
            },
            m@,
        ),
{
    let term_ok = match term {
        Some(t) => contains_term(&m.title, t) || contains_term(&m.body, t),
        None => true,
    };
    let upvotes_ok = match min_upvotes {
        Some(n) => m.upvotes >= n,
        None => true,
    };
    let downvotes_ok = match max_downvotes {
        Some(n) => m.downvotes <= n,
        None => true,
    };
    let recent_ok = match recent_hours {
        Some(h) => now <= m.created_at || ((now - m.created_at) as u128) <= (h as u128) * 3600,
        None => true,
    };
    term_ok && upvotes_ok && downvotes_ok && recent_ok
}

} // verus!
