use vstd::prelude::*;
use crate::model::{
    names_of, has_name, Comment, CommentModel, Error, Message, MessageModel, MessagePayload,
    Report, ReportModel, SetupError, User, UserId, UserModel,
};
use crate::search::{
    matches_filters, message_matches, message_values, search_result, term_model, QueryModel,
};
use crate::counter::{cell_value, id_cell_get, id_cell_set, open_id_cell, IdCell};
use crate::store::{keys_ascending, Record, Store};

verus! {

broadcast use vstd::seq_lib::group_seq_properties;

/// Vote tallies agree with the voter lists, and no name is listed twice.
pub open spec fn message_valid(m: MessageModel) -> bool {
    &&& m.upvotes == m.upvoted_users.len()
    &&& m.downvotes == m.downvoted_users.len()
    &&& m.upvoted_users.no_duplicates()
    &&& m.downvoted_users.no_duplicates()
}

/// A message as it is first stored.
pub open spec fn fresh_message(
    id: u64,
    title: Seq<char>,
    body: Seq<char>,
    attachment_url: Seq<char>,
    now: u64,
) -> MessageModel {
    MessageModel {
        id,
        title,
        body,
        attachment_url,
        created_at: now,
        updated_at: None,
        upvotes: 0,
        downvotes: 0,
        upvoted_users: Seq::empty(),
        downvoted_users: Seq::empty(),
    }
}

/// A message with new text, stamped as edited at `now`.
pub open spec fn edited(
    m: MessageModel,
    title: Seq<char>,
    body: Seq<char>,
    attachment_url: Seq<char>,
    now: u64,
) -> MessageModel {
    MessageModel { title, body, attachment_url, updated_at: Some(now), ..m }
}

/// A message after `name` upvoted it.
pub open spec fn upvoted(m: MessageModel, name: Seq<char>) -> MessageModel {
    MessageModel {
        upvotes: (m.upvotes + 1) as u64,
        upvoted_users: m.upvoted_users.push(name),
        ..m
    }
}

/// A message after `name` downvoted it.
pub open spec fn downvoted(m: MessageModel, name: Seq<char>) -> MessageModel {
    MessageModel {
        downvotes: (m.downvotes + 1) as u64,
        downvoted_users: m.downvoted_users.push(name),
        ..m
    }
}

/// The key of the first user, in ascending key order, with this name.
pub open spec fn first_named(s: Seq<(u64, UserModel)>, name: Seq<char>) -> Option<u64>
    decreases s.len(),
{
    if s.len() == 0 {
        None
    } else if s[0].1.username == name {
        Some(s[0].0)
    } else {
        first_named(s.drop_first(), name)
    }
}

/// Some user in the map has this name.
pub open spec fn has_user_named(users: Map<u64, UserModel>, name: Seq<char>) -> bool {
    exists|k: u64| #[trigger] users.contains_key(k) && users[k].username == name
}

/// `k` is the least key in the map of a user with this name.
pub open spec fn least_user_named(users: Map<u64, UserModel>, name: Seq<char>, k: u64) -> bool {
    &&& users.contains_key(k)
    &&& users[k].username == name
    &&& forall|j: u64| #[trigger] users.contains_key(j) && j < k ==> users[j].username != name
}

/// The first entry with the name is found exactly when one exists, and no
/// entry before it has the name.
proof fn lemma_first_named(s: Seq<(u64, UserModel)>, name: Seq<char>)
    ensures
        first_named(s, name) is Some <==> exists|i: int| 0 <= i < s.len() && s[i].1.username == name,
        first_named(s, name) matches Some(k) ==> exists|i: int|
            0 <= i < s.len() && s[i].0 == k && s[i].1.username == name && forall|j: int|
                0 <= j < i ==> #[trigger] s[j].1.username != name,
    decreases s.len(),
{
    if s.len() > 0 {
        if s[0].1.username == name {
            assert(s[0].0 == s[0].0);
        } else {
            let t = s.drop_first();
            lemma_first_named(t, name);
            if exists|i: int| 0 <= i < s.len() && s[i].1.username == name {
                let i = choose|i: int| 0 <= i < s.len() && s[i].1.username == name;
                assert(t[i - 1].1.username == name);
            }
            if exists|i: int| 0 <= i < t.len() && t[i].1.username == name {
                let i = choose|i: int| 0 <= i < t.len() && t[i].1.username == name;
                assert(s[i + 1].1.username == name);
            }
            if let Some(k) = first_named(s, name) {
                let i = choose|i: int|
                    0 <= i < t.len() && t[i].0 == k && t[i].1.username == name && forall|j: int|
                        0 <= j < i ==> #[trigger] t[j].1.username != name;
                assert(s[i + 1].0 == k);
                assert forall|j: int| 0 <= j < i + 1 implies #[trigger] s[j].1.username != name by {
                    if j > 0 {
                        assert(s[j] == t[j - 1]);
                    }
                }
            }
        }
    }
}

/// A user credited with one more token; the balance stops at the largest value.
pub open spec fn rewarded(u: UserModel) -> UserModel {
    UserModel { tokens: if u.tokens == u64::MAX { u.tokens } else { (u.tokens + 1) as u64 }, ..u }
}

/// The comments of the entries, in their order.
pub open spec fn comment_values(entries: Seq<(u64, CommentModel)>) -> Seq<CommentModel> {
    entries.map_values(|e: (u64, CommentModel)| e.1)
}

/// The comments of the entries, in their order, that belong to `message_id`.
pub open spec fn comments_on(entries: Seq<(u64, CommentModel)>, message_id: u64) -> Seq<CommentModel> {
    comment_values(entries).filter(|c: CommentModel| c.message_id == message_id)
}

pub open spec fn is_not_found<T>(r: Result<T, Error>) -> bool {
    r matches Err(Error::NotFound { .. })
}

pub open spec fn is_already_voted<T>(r: Result<T, Error>) -> bool {
    r matches Err(Error::AlreadyVoted { .. })
}

pub open spec fn is_user_not_found<T>(r: Result<T, Error>) -> bool {
    r matches Err(Error::UserNotFound { .. })
}

pub open spec fn message_views(v: Seq<Message>) -> Seq<MessageModel> {
    v.map_values(|m: Message| m@)
}

pub open spec fn comment_views(v: Seq<Comment>) -> Seq<CommentModel> {
    v.map_values(|c: Comment| c@)
}

/// The board: an identifier counter and four stores, for messages, users,
/// comments and reports.
pub struct Board {
    counter: IdCell,
    messages: Store<Message>,
    users: Store<User>,
    comments: Store<Comment>,
    reports: Store<Report>,
}

impl Board {
    /// The last identifier handed out; 0 before the first.
    pub closed spec fn counter(&self) -> u64 {
        cell_value(self.counter)
    }

    pub closed spec fn messages(&self) -> Map<u64, MessageModel> {
        self.messages@
    }

    /// The messages in ascending id order.
    pub closed spec fn message_list(&self) -> Seq<(u64, MessageModel)> {
        self.messages.entries()
    }

    pub closed spec fn users(&self) -> Map<u64, UserModel> {
        self.users@
    }

    /// The users in ascending id order.
    pub closed spec fn user_list(&self) -> Seq<(u64, UserModel)> {
        self.users.entries()
    }

    pub closed spec fn comments(&self) -> Map<u64, CommentModel> {
        self.comments@
    }

    /// The comments in ascending id order.
    pub closed spec fn comment_list(&self) -> Seq<(u64, CommentModel)> {
        self.comments.entries()
    }

    pub closed spec fn reports(&self) -> Map<u64, ReportModel> {
        self.reports@
    }

    pub closed spec fn wf(&self) -> bool {
        &&& self.messages.wf()
        &&& self.users.wf()
        &&& self.comments.wf()
        &&& self.reports.wf()
        &&& forall|k: u64| #[trigger]
            self.messages@.contains_key(k) ==> self.messages@[k].id == k && k <= cell_value(self.counter)
                && message_valid(self.messages@[k])
        &&& forall|k: u64| #[trigger]
            self.comments@.contains_key(k) ==> self.comments@[k].id == k && k <= cell_value(self.counter)
        &&& forall|k: u64| #[trigger]
            self.reports@.contains_key(k) ==> self.reports@[k].id == k && k <= cell_value(self.counter)
    }

    /// What a well-formed board guarantees: each list holds the entries of
    /// its map in ascending key order, every stored entity carries its own
    /// key as id, and every stored message keeps its tallies and voter lists
    /// in agreement.
    pub proof fn lemma_stores(&self)
        requires
            self.wf(),
        ensures
            keys_ascending(self.message_list()),
            self.message_list().len() == self.messages().len(),
            forall|i: int|
                0 <= i < self.message_list().len() ==> #[trigger] self.messages().contains_key(
                    self.message_list()[i].0,
                ) && self.messages()[self.message_list()[i].0] == self.message_list()[i].1,
            forall|k: u64|
                #[trigger] self.messages().contains_key(k) ==> exists|i: int|
                    0 <= i < self.message_list().len() && #[trigger] self.message_list()[i].0 == k,
            keys_ascending(self.user_list()),
            self.user_list().len() == self.users().len(),
            forall|i: int|
                0 <= i < self.user_list().len() ==> #[trigger] self.users().contains_key(
                    self.user_list()[i].0,
                ) && self.users()[self.user_list()[i].0] == self.user_list()[i].1,
            forall|k: u64|
                #[trigger] self.users().contains_key(k) ==> exists|i: int|
                    0 <= i < self.user_list().len() && #[trigger] self.user_list()[i].0 == k,
            keys_ascending(self.comment_list()),
            self.comment_list().len() == self.comments().len(),
            forall|i: int|
                0 <= i < self.comment_list().len() ==> #[trigger] self.comments().contains_key(
                    self.comment_list()[i].0,
                ) && self.comments()[self.comment_list()[i].0] == self.comment_list()[i].1,
            forall|k: u64|
                #[trigger] self.comments().contains_key(k) ==> exists|i: int|
                    0 <= i < self.comment_list().len() && #[trigger] self.comment_list()[i].0 == k,
            forall|k: u64| #[trigger]
                self.messages().contains_key(k) ==> self.messages()[k].id == k && message_valid(
                    self.messages()[k],
                ),
            forall|k: u64| #[trigger] self.comments().contains_key(k) ==> self.comments()[k].id == k,
            forall|k: u64| #[trigger] self.reports().contains_key(k) ==> self.reports()[k].id == k,
    {
        self.messages.lemma_entries();
        self.users.lemma_entries();
        self.comments.lemma_entries();
        assert forall|i: int| 0 <= i < self.message_list().len() implies #[trigger] self.messages().contains_key(
            self.message_list()[i].0) && self.messages()[self.message_list()[i].0] == self.message_list()[i].1 by {
            assert(self.messages@.contains_key(self.messages.entries()[i].0));
        }
        assert forall|k: u64| #[trigger] self.messages().contains_key(k) implies exists|i: int|
            0 <= i < self.message_list().len() && #[trigger] self.message_list()[i].0 == k by {
            assert(self.messages@.contains_key(k));
            let i = choose|i: int| 0 <= i < self.messages.entries().len() && #[trigger] self.messages.entries()[i].0 == k;
            assert(self.message_list()[i].0 == k);
        }
        assert forall|i: int| 0 <= i < self.user_list().len() implies #[trigger] self.users().contains_key(
            self.user_list()[i].0) && self.users()[self.user_list()[i].0] == self.user_list()[i].1 by {
            assert(self.users@.contains_key(self.users.entries()[i].0));
        }
        assert forall|k: u64| #[trigger] self.users().contains_key(k) implies exists|i: int|
            0 <= i < self.user_list().len() && #[trigger] self.user_list()[i].0 == k by {
            assert(self.users@.contains_key(k));
            let i = choose|i: int| 0 <= i < self.users.entries().len() && #[trigger] self.users.entries()[i].0 == k;
            assert(self.user_list()[i].0 == k);
        }
        assert forall|i: int| 0 <= i < self.comment_list().len() implies #[trigger] self.comments().contains_key(
            self.comment_list()[i].0) && self.comments()[self.comment_list()[i].0] == self.comment_list()[i].1 by {
            assert(self.comments@.contains_key(self.comments.entries()[i].0));
        }
        assert forall|k: u64| #[trigger] self.comments().contains_key(k) implies exists|i: int|
            0 <= i < self.comment_list().len() && #[trigger] self.comment_list()[i].0 == k by {
            assert(self.comments@.contains_key(k));
            let i = choose|i: int| 0 <= i < self.comments.entries().len() && #[trigger] self.comments.entries()[i].0 == k;
            assert(self.comment_list()[i].0 == k);
        }
    }

    /// The user that a reward goes to is the one with the least key among
    /// those with the name, and there is one exactly when some user has it.
    pub proof fn lemma_first_named_user(&self, name: Seq<char>)
        requires
            self.wf(),
        ensures
            first_named(self.user_list(), name) is Some <==> has_user_named(self.users(), name),
            first_named(self.user_list(), name) matches Some(k) ==> least_user_named(self.users(), name, k),
    {
        self.lemma_stores();
        let s = self.user_list();
        lemma_first_named(s, name);
        if has_user_named(self.users(), name) {
            let k = choose|k: u64| #[trigger] self.users().contains_key(k) && self.users()[k].username == name;
            let i = choose|i: int| 0 <= i < s.len() && #[trigger] s[i].0 == k;
            assert(s[i].1.username == name);
        }
        if exists|i: int| 0 <= i < s.len() && s[i].1.username == name {
            let i = choose|i: int| 0 <= i < s.len() && s[i].1.username == name;
            assert(self.users().contains_key(s[i].0));
        }
        if let Some(k) = first_named(s, name) {
            let i = choose|i: int|
                0 <= i < s.len() && s[i].0 == k && s[i].1.username == name && forall|j: int|
                    0 <= j < i ==> #[trigger] s[j].1.username != name;
            assert(self.users().contains_key(s[i].0));
            assert forall|j: u64| #[trigger] self.users().contains_key(j) && j < k implies self.users()[j].username != name by {
                let jj = choose|jj: int| 0 <= jj < s.len() && #[trigger] s[jj].0 == j;
                if jj > i {
                    assert(s[i].0 < s[jj].0);
                }
                assert(jj != i);
                assert(s[jj].1.username != name);
            }
        }
    }

    /// A board with empty stores, whose identifier counter goes on from the
    /// value kept in stable memory.
    pub fn new() -> (r: Result<Self, SetupError>)
        ensures
            r matches Ok(b) ==> {
                &&& b.wf()
                &&& b.messages() == Map::<u64, MessageModel>::empty()
                &&& b.message_list() == Seq::<(u64, MessageModel)>::empty()
                &&& b.users() == Map::<u64, UserModel>::empty()
                &&& b.user_list() == Seq::<(u64, UserModel)>::empty()
                &&& b.comments() == Map::<u64, CommentModel>::empty()
                &&& b.comment_list() == Seq::<(u64, CommentModel)>::empty()
                &&& b.reports() == Map::<u64, ReportModel>::empty()
            },
    {
        let counter = match open_id_cell() {
            Ok(c) => c,
            Err(_) => {
                return Err(SetupError::CounterUnreadable);
            },
        };
        let r = Board {
            counter,
            messages: Store::new(),
            users: Store::new(),
            comments: Store::new(),
            reports: Store::new(),
        };
        proof {
            r.messages.lemma_entries();
            r.users.lemma_entries();
            r.comments.lemma_entries();
        }
        Ok(r)
    }

    /// The last identifier handed out; 0 before the first.
    pub fn last_id(&self) -> (r: u64)
        ensures
            r == self.counter(),
    {
        id_cell_get(&self.counter)
    }

    /// Hands out the next identifier: one more than the last.
    pub fn next_id(&mut self) -> (r: u64)
        requires
            old(self).wf(),
            old(self).counter() < u64::MAX,
        ensures
            final(self).wf(),
            r == old(self).counter() + 1,
            final(self).counter() == r,
            !old(self).messages().contains_key(r),
            !old(self).comments().contains_key(r),
            !old(self).reports().contains_key(r),
            final(self).messages() == old(self).messages(),
            final(self).message_list() == old(self).message_list(),
            final(self).users() == old(self).users(),
            final(self).user_list() == old(self).user_list(),
            final(self).comments() == old(self).comments(),
            final(self).comment_list() == old(self).comment_list(),
            final(self).reports() == old(self).reports(),
    {
        let next = id_cell_get(&self.counter) + 1;
        let _ = id_cell_set(&mut self.counter, next);
        next
    }

    /// A copy of the message with this id, if there is one.
    pub fn _get_message(&self, id: &u64) -> (r: Option<Message>)
        requires
            self.wf(),
        ensures
            r is Some <==> self.messages().contains_key(*id),
            r is Some ==> r->0@ == self.messages()[*id],
    {
        match self.messages.get(*id) {
            Some(m) => Some(m.duplicate()),
            None => None,
        }
    }

    /// Stores a copy of the message under its id, replacing any earlier one.
    pub fn do_insert(&mut self, message: &Message)
        requires
            old(self).wf(),
            message_valid(message@),
            message.id <= old(self).counter(),
        ensures
            final(self).wf(),
            final(self).messages() == old(self).messages().insert(message.id, message@),
            final(self).counter() == old(self).counter(),
            final(self).users() == old(self).users(),
            final(self).user_list() == old(self).user_list(),
            final(self).comments() == old(self).comments(),
            final(self).comment_list() == old(self).comment_list(),
            final(self).reports() == old(self).reports(),
    {
        self.messages.insert(message.id, message.duplicate());
    }

    pub fn get_message(&self, id: u64) -> (r: Result<Message, Error>)
        requires
            self.wf(),
        ensures
            r is Ok <==> self.messages().contains_key(id),
            r is Ok ==> r->Ok_0@ == self.messages()[id] && r->Ok_0.id == id,
            !self.messages().contains_key(id) ==> is_not_found(r),
    {
        match self._get_message(&id) {
            Some(message) => Ok(message),
            None => Err(Error::NotFound { msg: "message not found".to_string() }),
        }
    }

    /// Creates a message with a fresh id, stamped with `now`, and no votes.
    pub fn add_message(&mut self, message: MessagePayload, now: u64) -> (r: Option<Message>)
        requires
            old(self).wf(),
            old(self).counter() < u64::MAX,
        ensures
            final(self).wf(),
            r is Some,
            final(self).counter() == old(self).counter() + 1,
            r->0.id == final(self).counter(),
            !old(self).messages().contains_key(r->0.id),
            r->0@ == fresh_message(
                r->0.id,
                message.title@,
                message.body@,
                message.attachment_url@,
                now,
            ),
            final(self).messages() == old(self).messages().insert(r->0.id, r->0@),
            final(self).users() == old(self).users(),
            final(self).user_list() == old(self).user_list(),
            final(self).comments() == old(self).comments(),
            final(self).comment_list() == old(self).comment_list(),
            final(self).reports() == old(self).reports(),
    {
        let id = self.next_id();
        let created = Message {
            id,
            title: message.title,
            body: message.body,
            attachment_url: message.attachment_url,
            created_at: now,
            updated_at: None,
            upvotes: 0,
            downvotes: 0,
            upvoted_users: Vec::new(),
            downvoted_users: Vec::new(),
        };
        proof {
            assert(created@.upvoted_users =~= Seq::<Seq<char>>::empty());
            assert(created@.downvoted_users =~= Seq::<Seq<char>>::empty());
        }
        self.do_insert(&created);
        Some(created)
    }

    /// Replaces the text of a message and stamps it as edited at `now`.
    pub fn update_message(&mut self, id: u64, payload: MessagePayload, now: u64) -> (r: Result<Message, Error>)
        requires
            old(self).wf(),
        ensures
            final(self).wf(),
            r is Ok <==> old(self).messages().contains_key(id),
            !old(self).messages().contains_key(id) ==> is_not_found(r) && *final(self) == *old(self),
            old(self).messages().contains_key(id) ==> {
                let m = edited(
                    old(self).messages()[id],
                    payload.title@,
                    payload.body@,
                    payload.attachment_url@,
                    now,
                );
                &&& r->Ok_0@ == m
                &&& r->Ok_0.id == id
                &&& final(self).messages() == old(self).messages().insert(id, m)
            },
            final(self).counter() == old(self).counter(),
            final(self).users() == old(self).users(),
            final(self).user_list() == old(self).user_list(),
            final(self).comments() == old(self).comments(),
            final(self).comment_list() == old(self).comment_list(),
            final(self).reports() == old(self).reports(),
    {
        match self._get_message(&id) {
            Some(mut message) => {
                message.attachment_url = payload.attachment_url;
                message.body = payload.body;
                message.title = payload.title;
                message.updated_at = Some(now);
                self.do_insert(&message);
                Ok(message)
            },
            None => Err(Error::NotFound { msg: "message not found".to_string() }),
        }
    }

    /// Removes a message for good and hands it back.
    pub fn delete_message(&mut self, id: u64) -> (r: Result<Message, Error>)
        requires
            old(self).wf(),
        ensures
            final(self).wf(),
            r is Ok <==> old(self).messages().contains_key(id),
            !old(self).messages().contains_key(id) ==> is_not_found(r) && *final(self) == *old(self),
            old(self).messages().contains_key(id) ==> r->Ok_0@ == old(self).messages()[id]
                && r->Ok_0.id == id && final(self).messages() == old(self).messages().remove(id),
            final(self).counter() == old(self).counter(),
            final(self).users() == old(self).users(),
            final(self).user_list() == old(self).user_list(),
            final(self).comments() == old(self).comments(),
            final(self).comment_list() == old(self).comment_list(),
            final(self).reports() == old(self).reports(),
    {
        match self.messages.remove(id) {
            Some(message) => Ok(message),
            None => Err(Error::NotFound { msg: "message not found".to_string() }),
        }
    }

    /// Credits one token to the first user, in ascending id order, whose
    /// name is `username`.
    pub fn reward_upvote(&mut self, username: String) -> (r: Result<(), Error>)
        requires
            old(self).wf(),
        ensures
            final(self).wf(),
            first_named(old(self).user_list(), username@) matches Some(k) ==> {
                &&& r is Ok
                &&& old(self).users().contains_key(k)
                &&& final(self).users() == old(self).users().insert(k, rewarded(old(self).users()[k]))
            },
            first_named(old(self).user_list(), username@) is None ==> is_user_not_found(r)
                && *final(self) == *old(self),
            r is Ok <==> has_user_named(old(self).users(), username@),
            first_named(old(self).user_list(), username@) matches Some(k) ==> least_user_named(
                old(self).users(),
                username@,
                k,
            ),
            final(self).counter() == old(self).counter(),
            final(self).messages() == old(self).messages(),
            final(self).message_list() == old(self).message_list(),
            final(self).comments() == old(self).comments(),
            final(self).comment_list() == old(self).comment_list(),
            final(self).reports() == old(self).reports(),
    {
        let ghost list = self.users.entries();
        proof {
            self.users.lemma_entries();
            self.lemma_first_named_user(username@);
        }
        let n = self.users.len();
        let mut i: usize = 0;
        proof {
            assert(list.skip(0) =~= list);
        }
        while i < n
            invariant
                *self == *old(self),
                old(self).wf(),
                self.users.wf(),
                list == self.users.entries(),
                n == list.len(),
                i <= n,
                first_named(list, username@) == first_named(list.skip(i as int), username@),
            decreases n - i,
        {
            if self.users.value_at(i).username == username {
                let k = self.users.key_at(i);
                let user = self.users.value_at(i);
                let tokens = if user.tokens == u64::MAX {
                    user.tokens
                } else {
                    user.tokens + 1
                };
                let updated = User { username: user.username.clone(), tokens };
                proof {
                    assert(list.skip(i as int)[0] == list[i as int]);
                    self.users.lemma_entries();
                    self.lemma_first_named_user(username@);
                    assert(self.users@.contains_key(list[i as int].0));
                }
                self.users.insert(k, updated);
                return Ok(());
            }
            proof {
                assert(list.skip(i as int).drop_first() =~= list.skip(i + 1));
            }
            i = i + 1;
        }
        proof {
            assert(list.skip(n as int).len() == 0);
        }
        Err(Error::UserNotFound { msg: "user not found".to_string() })
    }

    /// Records an upvote by `username`, then credits that user a token.
    /// The vote stays recorded even where no user has that name.
    pub fn upvote_message(&mut self, id: u64, username: String) -> (r: Result<(), Error>)
        requires
            old(self).wf(),
        ensures
            final(self).wf(),
            !old(self).messages().contains_key(id) ==> is_not_found(r) && *final(self) == *old(self),
            old(self).messages().contains_key(id) && old(self).messages()[id].upvoted_users.contains(
                username@,
            ) ==> is_already_voted(r) && *final(self) == *old(self),
            old(self).messages().contains_key(id) && !old(self).messages()[id].upvoted_users.contains(
                username@,
            ) ==> {
                &&& final(self).messages() == old(self).messages().insert(
                    id,
                    upvoted(old(self).messages()[id], username@),
                )
                &&& first_named(old(self).user_list(), username@) matches Some(k) ==> {
                    &&& r is Ok
                    &&& old(self).users().contains_key(k)
                    &&& final(self).users() == old(self).users().insert(
                        k,
                        rewarded(old(self).users()[k]),
                    )
                }
                &&& first_named(old(self).user_list(), username@) is None ==> is_user_not_found(r)
                    && final(self).users() == old(self).users()
                &&& final(self).messages()[id].upvotes == old(self).messages()[id].upvotes + 1
                &&& (r is Ok <==> has_user_named(old(self).users(), username@))
                &&& first_named(old(self).user_list(), username@) matches Some(k) ==> least_user_named(
                    old(self).users(),
                    username@,
                    k,
                )
            },
            final(self).counter() == old(self).counter(),
            final(self).comments() == old(self).comments(),
            final(self).comment_list() == old(self).comment_list(),
            final(self).reports() == old(self).reports(),
    {
        let mut message = match self._get_message(&id) {
            Some(m) => m,
            None => {
                return Err(Error::NotFound { msg: "message not found".to_string() });
            },
        };
        proof {
            self.lemma_first_named_user(username@);
        }
        if has_name(&message.upvoted_users, &username) {
            return Err(Error::AlreadyVoted { msg: "user has already upvoted this message".to_string() });
        }
        let ghost before = message@;
        message.upvoted_users.push(username.clone());
        message.upvotes = message.upvoted_users.len() as u64;
        proof {
            assert(names_of(message.upvoted_users@) =~= before.upvoted_users.push(username@));
            assert(message@ == upvoted(before, username@));
        }
        self.do_insert(&message);
        self.reward_upvote(username)
    }

    /// Records a downvote by `username`; no reward follows.
    pub fn downvote_message(&mut self, id: u64, username: String) -> (r: Result<(), Error>)
        requires
            old(self).wf(),
        ensures
            final(self).wf(),
            !old(self).messages().contains_key(id) ==> is_not_found(r) && *final(self) == *old(self),
            old(self).messages().contains_key(id) && old(self).messages()[id].downvoted_users.contains(
                username@,
            ) ==> is_already_voted(r) && *final(self) == *old(self),
            old(self).messages().contains_key(id) && !old(self).messages()[id].downvoted_users.contains(
                username@,
            ) ==> r is Ok && final(self).messages() == old(self).messages().insert(
                id,
                downvoted(old(self).messages()[id], username@),
            ) && final(self).messages()[id].downvotes == old(self).messages()[id].downvotes + 1,
            final(self).counter() == old(self).counter(),
            final(self).users() == old(self).users(),
            final(self).user_list() == old(self).user_list(),
            final(self).comments() == old(self).comments(),
            final(self).comment_list() == old(self).comment_list(),
            final(self).reports() == old(self).reports(),
    {
        let mut message = match self._get_message(&id) {
            Some(m) => m,
            None => {
                return Err(Error::NotFound { msg: "message not found".to_string() });
            },
        };
        if has_name(&message.downvoted_users, &username) {
            return Err(Error::AlreadyVoted { msg: "user has already downvoted this message".to_string() });
        }
        let ghost before = message@;
        message.downvoted_users.push(username);
        message.downvotes = message.downvoted_users.len() as u64;
        proof {
            assert(names_of(message.downvoted_users@) =~= before.downvoted_users.push(username@));
            assert(message@ == downvoted(before, username@));
        }
        self.do_insert(&message);
        Ok(())
    }

    /// Every message, in ascending id order, that meets all the given filters.
    pub fn search_messages(
        &self,
        search_term: Option<String>,
        min_upvotes: Option<u64>,
        max_downvotes: Option<u64>,
        recent: Option<u64>,
        now: u64,
    ) -> (r: Vec<Message>)
        requires
            self.wf(),
        ensures
            message_views(r@) == search_result(
                self.message_list(),
                QueryModel {
                    term: term_model(search_term),
                    min_upvotes,
                    max_downvotes,
                    recent_hours: recent,
                    now,
                },
            ),
    {
        let ghost q = QueryModel {
            term: term_model(search_term),
            min_upvotes,
            max_downvotes,
            recent_hours: recent,
            now,
        };
        let ghost list = self.messages.entries();
        let n = self.messages.len();
        let mut out: Vec<Message> = Vec::new();
        let mut i: usize = 0;
        proof {
            assert(message_values(list.take(0)) =~= Seq::<MessageModel>::empty());
            assert(message_views(out@) =~= Seq::<MessageModel>::empty());
            reveal(Seq::filter);
        }
        while i < n
            invariant
                self.wf(),
                list == self.messages.entries(),
                n == list.len(),
                i <= n,
                message_views(out@) == search_result(list.take(i as int), q),
                q == (QueryModel {
                    term: term_model(search_term),
                    min_upvotes,
                    max_downvotes,
                    recent_hours: recent,
                    now,
                }),
            decreases n - i,
        {
            let m = self.messages.value_at(i);
            proof {
                assert(message_values(list.take(i + 1)) =~= message_values(list.take(i as int)).push(m@));
                message_values(list.take(i as int)).lemma_filter_push(
                    m@,
                    |mm: MessageModel| message_matches(q, mm),
                );
            }
            let keep = matches_filters(m, &search_term, min_upvotes, max_downvotes, recent, now);
            proof {
                assert(keep == message_matches(q, m@));
            }
            if keep {
                out.push(m.duplicate());
                proof {
                    assert(message_views(out@) =~= message_views(out@.drop_last()).push(m@));
                }
            }
            i = i + 1;
        }
        proof {
            assert(list.take(n as int) =~= list);
        }
        out
    }

    /// Creates a comment with a fresh id, stamped with `now`. The message id
    /// is not checked.
    pub fn add_comment(&mut self, message_id: u64, user: String, content: String, now: u64) -> (r: Result<Comment, Error>)
        requires
            old(self).wf(),
            old(self).counter() < u64::MAX,
        ensures
            final(self).wf(),
            r is Ok,
            final(self).counter() == old(self).counter() + 1,
            r->Ok_0.id == final(self).counter(),
            !old(self).comments().contains_key(r->Ok_0.id),
            r->Ok_0@ == (CommentModel {
                id: r->Ok_0.id,
                message_id,
                user: user@,
                content: content@,
                created_at: now,
            }),
            final(self).comments() == old(self).comments().insert(r->Ok_0.id, r->Ok_0@),
            final(self).messages() == old(self).messages(),
            final(self).message_list() == old(self).message_list(),
            final(self).users() == old(self).users(),
            final(self).user_list() == old(self).user_list(),
            final(self).reports() == old(self).reports(),
    {
        let id = self.next_id();
        let comment = Comment { id, message_id, user, content, created_at: now };
        self.comments.insert(id, comment.duplicate());
        Ok(comment)
    }

    /// The comments on a message, in ascending id order.
    pub fn get_comments(&self, message_id: u64) -> (r: Vec<Comment>)
        requires
            self.wf(),
        ensures
            comment_views(r@) == comments_on(self.comment_list(), message_id),
    {
        let ghost list = self.comments.entries();
        let n = self.comments.len();
        let mut out: Vec<Comment> = Vec::new();
        let mut i: usize = 0;
        proof {
            assert(comment_values(list.take(0)) =~= Seq::<CommentModel>::empty());
            assert(comment_views(out@) =~= Seq::<CommentModel>::empty());
            reveal(Seq::filter);
        }
        while i < n
            invariant
                self.wf(),
                list == self.comments.entries(),
                n == list.len(),
                i <= n,
                comment_views(out@) == comments_on(list.take(i as int), message_id),
            decreases n - i,
        {
            let c = self.comments.value_at(i);
            proof {
                assert(comment_values(list.take(i + 1)) =~= comment_values(list.take(i as int)).push(c@));
                comment_values(list.take(i as int)).lemma_filter_push(
                    c@,
                    |cc: CommentModel| cc.message_id == message_id,
                );
            }
            if c.message_id == message_id {
                out.push(c.duplicate());
                proof {
                    assert(comment_views(out@) =~= comment_views(out@.drop_last()).push(c@));
                }
            }
            i = i + 1;
        }
        proof {
            assert(list.take(n as int) =~= list);
        }
        out
    }

    pub fn delete_comment(&mut self, comment_id: u64) -> (r: Result<(), Error>)
        requires
            old(self).wf(),
        ensures
            final(self).wf(),
            r is Ok <==> old(self).comments().contains_key(comment_id),
            !old(self).comments().contains_key(comment_id) ==> is_not_found(r) && *final(self) == *old(self),
            final(self).comments() == old(self).comments().remove(comment_id),
            final(self).counter() == old(self).counter(),
            final(self).messages() == old(self).messages(),
            final(self).message_list() == old(self).message_list(),
            final(self).users() == old(self).users(),
            final(self).user_list() == old(self).user_list(),
            final(self).reports() == old(self).reports(),
    {
        match self.comments.remove(comment_id) {
            Some(_) => Ok(()),
            None => Err(Error::NotFound { msg: "comment not found".to_string() }),
        }
    }

    /// Files a report with a fresh id, stamped with `now` and not yet
    /// reviewed. The message id is not checked.
    pub fn report_message(&mut self, message_id: u64, reported_by: String, reason: String, now: u64) -> (r: Result<Report, Error>)
        requires
            old(self).wf(),
            old(self).counter() < u64::MAX,
        ensures
            final(self).wf(),
            r is Ok,
            final(self).counter() == old(self).counter() + 1,
            r->Ok_0.id == final(self).counter(),
            !old(self).reports().contains_key(r->Ok_0.id),
            r->Ok_0@ == (ReportModel {
                id: r->Ok_0.id,
                message_id,
                reported_by: reported_by@,
                reason: reason@,
                reported_at: now,
                reviewed: false,
            }),
            final(self).reports() == old(self).reports().insert(r->Ok_0.id, r->Ok_0@),
            final(self).messages() == old(self).messages(),
            final(self).message_list() == old(self).message_list(),
            final(self).users() == old(self).users(),
            final(self).user_list() == old(self).user_list(),
            final(self).comments() == old(self).comments(),
            final(self).comment_list() == old(self).comment_list(),
    {
        let report_id = self.next_id();
        let report = Report {
            id: report_id,
            message_id,
            reported_by,
            reason,
            reported_at: now,
            reviewed: false,
        };
        self.reports.insert(report_id, report.duplicate());
        Ok(report)
    }

    /// Marks a report as reviewed. The action is accepted and not acted on.
    pub fn review_report(&mut self, report_id: u64, _action: String) -> (r: Result<(), Error>)
        requires
            old(self).wf(),
        ensures
            final(self).wf(),
            r is Ok <==> old(self).reports().contains_key(report_id),
            !old(self).reports().contains_key(report_id) ==> is_not_found(r) && *final(self) == *old(self),
            old(self).reports().contains_key(report_id) ==> final(self).reports() == old(self).reports().insert(
                report_id,
                ReportModel { reviewed: true, ..old(self).reports()[report_id] },
            ),
            final(self).counter() == old(self).counter(),
            final(self).messages() == old(self).messages(),
            final(self).message_list() == old(self).message_list(),
            final(self).users() == old(self).users(),
            final(self).user_list() == old(self).user_list(),
            final(self).comments() == old(self).comments(),
            final(self).comment_list() == old(self).comment_list(),
    {
        let mut report = match self.reports.get(report_id) {
            Some(found) => found.duplicate(),
            None => {
                return Err(Error::NotFound { msg: "report not found".to_string() });
            },
        };
        report.reviewed = true;
        self.reports.insert(report_id, report);
        Ok(())
    }

    /// A copy of the report with this id, if there is one.
    pub fn get_report(&self, report_id: u64) -> (r: Option<Report>)
        requires
            self.wf(),
        ensures
            r is Some <==> self.reports().contains_key(report_id),
            r is Some ==> r->0@ == self.reports()[report_id],
    {
        match self.reports.get(report_id) {
            Some(found) => Some(found.duplicate()),
            None => None,
        }
    }

    /// Provisions a user under `id`, replacing and handing back any earlier one.
    pub fn add_user(&mut self, id: UserId, user: User) -> (r: Option<User>)
        requires
            old(self).wf(),
        ensures
            final(self).wf(),
            final(self).users() == old(self).users().insert(id.0, user@),
            r is Some <==> old(self).users().contains_key(id.0),
            r is Some ==> r->0@ == old(self).users()[id.0],
            final(self).counter() == old(self).counter(),
            final(self).messages() == old(self).messages(),
            final(self).message_list() == old(self).message_list(),
            final(self).comments() == old(self).comments(),
            final(self).comment_list() == old(self).comment_list(),
            final(self).reports() == old(self).reports(),
    {
        self.users.insert(id.0, user)
    }

    /// A copy of the user with this id, if there is one.
    pub fn get_user(&self, id: UserId) -> (r: Option<User>)
        requires
            self.wf(),
        ensures
            r is Some <==> self.users().contains_key(id.0),
            r is Some ==> r->0@ == self.users()[id.0],
    {
        match self.users.get(id.0) {
            Some(found) => Some(found.duplicate()),
            None => None,
        }
    }
}

} // verus!
