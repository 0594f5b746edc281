use vstd::prelude::*;
use crate::store::Record;

verus! {

/// The names of a voter list, as character sequences.
pub open spec fn names_of(v: Seq<String>) -> Seq<Seq<char>> {
    v.map_values(|s: String| s@)
}

/// An exact copy of a list of names.
pub fn copy_names(v: &Vec<String>) -> (r: Vec<String>)
    ensures
        r@ == v@,
{
    let mut out: Vec<String> = Vec::new();
    let mut i: usize = 0;
    while i < v.len()
        invariant
            i <= v@.len(),
            out@ == v@.subrange(0, i as int),
        decreases v@.len() - i,
    {
        out.push(v[i].clone());
        i = i + 1;
        proof {
            assert(out@ =~= v@.subrange(0, i as int));
        }
    }
    proof {
        assert(out@ =~= v@);
    }
    out
}

/// Whether `name` is in the list.
pub fn has_name(v: &Vec<String>, name: &String) -> (r: bool)
    ensures
        r == names_of(v@).contains(name@),
{
    let mut i: usize = 0;
    while i < v.len()
        invariant
            i <= v@.len(),
            forall|j: int| 0 <= j < i ==> v@[j]@ != name@,
        decreases v@.len() - i,
    {
        if v[i] == *name {
            proof {
                assert(names_of(v@)[i as int] == name@);
            }
            return true;
        }
        i = i + 1;
    }
    proof {
        if names_of(v@).contains(name@) {
            let j = choose|j: int| 0 <= j < names_of(v@).len() && names_of(v@)[j] == name@;
            assert(v@[j]@ == name@);
        }
    }
    false
}

pub struct MessageModel {
    pub id: u64,
    pub title: Seq<char>,
    pub body: Seq<char>,
    pub attachment_url: Seq<char>,
    pub created_at: u64,
    pub updated_at: Option<u64>,
    pub upvotes: u64,
    pub downvotes: u64,
    pub upvoted_users: Seq<Seq<char>>,
    pub downvoted_users: Seq<Seq<char>>,
}

/// A message of the board, with its vote tallies.
#[derive(Debug)]
pub struct Message {
    pub id: u64,
    pub title: String,
    pub body: String,
    pub attachment_url: String,
    pub created_at: u64,
    pub updated_at: Option<u64>,
    pub upvotes: u64,
    pub downvotes: u64,
    pub upvoted_users: Vec<String>,
    pub downvoted_users: Vec<String>,
}

impl View for Message {
    type V = MessageModel;

    open spec fn view(&self) -> MessageModel {
        MessageModel {
            id: self.id,
            title: self.title@,
            body: self.body@,
            attachment_url: self.attachment_url@,
            created_at: self.created_at,
            updated_at: self.updated_at,
            upvotes: self.upvotes,
            downvotes: self.downvotes,
            upvoted_users: names_of(self.upvoted_users@),
            downvoted_users: names_of(self.downvoted_users@),
        }
    }
}

impl Record for Message {
    fn duplicate(&self) -> (r: Self) {
        Message {
            id: self.id,
            title: self.title.clone(),
            body: self.body.clone(),
            attachment_url: self.attachment_url.clone(),
            created_at: self.created_at,
            updated_at: self.updated_at,
            upvotes: self.upvotes,
            downvotes: self.downvotes,
            upvoted_users: copy_names(&self.upvoted_users),
            downvoted_users: copy_names(&self.downvoted_users),
        }
    }
}

/// The editable part of a message.
#[derive(Debug)]
pub struct MessagePayload {
    pub title: String,
    pub body: String,
    pub attachment_url: String,
}

pub struct UserModel {
    pub username: Seq<char>,
    pub tokens: u64,
}

/// An account that collects reward tokens.
#[derive(Debug)]
pub struct User {
    pub username: String,
    pub tokens: u64,
}

impl View for User {
    type V = UserModel;

    open spec fn view(&self) -> UserModel {
        UserModel { username: self.username@, tokens: self.tokens }
    }
}

impl Record for User {
    fn duplicate(&self) -> (r: Self) {
        User { username: self.username.clone(), tokens: self.tokens }
    }
}

/// The key of a user; it orders as the number it wraps.
#[derive(Clone, Copy, Debug, PartialEq, Eq, Structural, PartialOrd, Ord, Hash)]
pub struct UserId(pub u64);

pub struct CommentModel {
    pub id: u64,
    pub message_id: u64,
    pub user: Seq<char>,
    pub content: Seq<char>,
    pub created_at: u64,
}

/// A comment on a message.
#[derive(Debug)]
pub struct Comment {
    pub id: u64,
    pub message_id: u64,
    pub user: String,
    pub content: String,
    pub created_at: u64,
}

impl View for Comment {
    type V = CommentModel;

    open spec fn view(&self) -> CommentModel {
        CommentModel {
            id: self.id,
            message_id: self.message_id,
            user: self.user@,
            content: self.content@,
            created_at: self.created_at,
        }
    }
}

impl Record for Comment {
    fn duplicate(&self) -> (r: Self) {
        Comment {
            id: self.id,
            message_id: self.message_id,
            user: self.user.clone(),
            content: self.content.clone(),
            created_at: self.created_at,
        }
    }
}

pub struct ReportModel {
    pub id: u64,
    pub message_id: u64,
    pub reported_by: Seq<char>,
    pub reason: Seq<char>,
    pub reported_at: u64,
    pub reviewed: bool,
}

/// A report against a message, waiting for review.
#[derive(Debug)]
pub struct Report {
    pub id: u64,
    pub message_id: u64,
    pub reported_by: String,
    pub reason: String,
    pub reported_at: u64,
    pub reviewed: bool,
}

impl View for Report {
    type V = ReportModel;

    open spec fn view(&self) -> ReportModel {
        ReportModel {
            id: self.id,
            message_id: self.message_id,
            reported_by: self.reported_by@,
            reason: self.reason@,
            reported_at: self.reported_at,
            reviewed: self.reviewed,
        }
    }
}

impl Record for Report {
    fn duplicate(&self) -> (r: Self) {
        Report {
            id: self.id,
            message_id: self.message_id,
            reported_by: self.reported_by.clone(),
            reason: self.reason.clone(),
            reported_at: self.reported_at,
            reviewed: self.reviewed,
        }
    }
}

/// Why a board could not be set up.
#[derive(Debug)]
pub enum SetupError {
    /// The stored identifier counter could not be read back.
    CounterUnreadable,
}

/// Why an operation failed; each kind carries a readable message.
#[derive(Debug)]
pub enum Error {
    NotFound { msg: String },
    AlreadyVoted { msg: String },
    UserNotFound { msg: String },
}

} // verus!
