use social_media_app::{Board, Error, MessagePayload, User, UserId};

fn payload(title: &str, body: &str, url: &str) -> MessagePayload {
    MessagePayload {
        title: title.to_string(),
        body: body.to_string(),
        attachment_url: url.to_string(),
    }
}

fn user(name: &str) -> User {
    User { username: name.to_string(), tokens: 0 }
}

#[test]
fn added_message_reads_back_without_votes() {
    let mut board = Board::new().unwrap();
    let added = board.add_message(payload("hello", "world", "http://x"), 100).unwrap();
    let read = board.get_message(added.id).unwrap();
    assert_eq!(read.id, 1);
    assert_eq!(read.title, "hello");
    assert_eq!(read.body, "world");
    assert_eq!(read.attachment_url, "http://x");
    assert_eq!(read.created_at, 100);
    assert_eq!(read.updated_at, None);
    assert_eq!(read.upvotes, 0);
    assert_eq!(read.downvotes, 0);
    assert!(read.upvoted_users.is_empty());
    assert!(read.downvoted_users.is_empty());
}

#[test]
fn get_missing_message_is_not_found() {
    let board = Board::new().unwrap();
    assert!(matches!(board.get_message(7), Err(Error::NotFound { .. })));
}

#[test]
fn update_missing_message_is_not_found() {
    let mut board = Board::new().unwrap();
    let r = board.update_message(3, payload("a", "b", "c"), 10);
    assert!(matches!(r, Err(Error::NotFound { .. })));
}

#[test]
fn update_keeps_id_and_creation_time() {
    let mut board = Board::new().unwrap();
    let m = board.add_message(payload("a", "b", "c"), 10).unwrap();
    board.upvote_message(m.id, "zed".to_string()).ok();
    let u = board.update_message(m.id, payload("A2", "B2", "C2"), 50).unwrap();
    assert_eq!(u.id, m.id);
    assert_eq!(u.created_at, 10);
    assert_eq!(u.updated_at, Some(50));
    assert_eq!(u.title, "A2");
    assert_eq!(u.body, "B2");
    assert_eq!(u.attachment_url, "C2");
    assert_eq!(u.upvotes, 1);
    let read = board.get_message(m.id).unwrap();
    assert_eq!(read.title, "A2");
    assert_eq!(read.updated_at, Some(50));
    assert_eq!(read.upvoted_users, vec!["zed".to_string()]);
}

#[test]
fn second_upvote_by_same_user_is_refused() {
    let mut board = Board::new().unwrap();
    board.add_user(UserId(1), user("bob"));
    let m = board.add_message(payload("t", "b", ""), 1).unwrap();
    assert!(board.upvote_message(m.id, "bob".to_string()).is_ok());
    let again = board.upvote_message(m.id, "bob".to_string());
    assert!(matches!(again, Err(Error::AlreadyVoted { .. })));
    let read = board.get_message(m.id).unwrap();
    assert_eq!(read.upvotes, 1);
    assert_eq!(read.upvoted_users, vec!["bob".to_string()]);
    assert_eq!(board.get_user(UserId(1)).unwrap().tokens, 1);
}

#[test]
fn upvote_missing_message_is_not_found() {
    let mut board = Board::new().unwrap();
    let r = board.upvote_message(9, "bob".to_string());
    assert!(matches!(r, Err(Error::NotFound { .. })));
}

#[test]
fn downvote_once_per_user() {
    let mut board = Board::new().unwrap();
    let m = board.add_message(payload("t", "b", ""), 1).unwrap();
    assert!(board.downvote_message(m.id, "eve".to_string()).is_ok());
    let again = board.downvote_message(m.id, "eve".to_string());
    assert!(matches!(again, Err(Error::AlreadyVoted { .. })));
    assert!(board.downvote_message(m.id, "mal".to_string()).is_ok());
    let read = board.get_message(m.id).unwrap();
    assert_eq!(read.downvotes, 2);
    assert_eq!(read.downvoted_users, vec!["eve".to_string(), "mal".to_string()]);
    assert_eq!(read.upvotes, 0);
}

#[test]
fn downvote_missing_message_is_not_found() {
    let mut board = Board::new().unwrap();
    let r = board.downvote_message(4, "eve".to_string());
    assert!(matches!(r, Err(Error::NotFound { .. })));
}

#[test]
fn same_user_may_vote_both_ways() {
    let mut board = Board::new().unwrap();
    board.add_user(UserId(5), user("ann"));
    let m = board.add_message(payload("t", "b", ""), 1).unwrap();
    assert!(board.upvote_message(m.id, "ann".to_string()).is_ok());
    assert!(board.downvote_message(m.id, "ann".to_string()).is_ok());
    let read = board.get_message(m.id).unwrap();
    assert_eq!(read.upvotes, 1);
    assert_eq!(read.downvotes, 1);
}

#[test]
fn search_without_filters_returns_every_message() {
    let mut board = Board::new().unwrap();
    board.add_message(payload("one", "x", ""), 1);
    board.add_message(payload("two", "y", ""), 2);
    board.add_message(payload("three", "z", ""), 3);
    let all = board.search_messages(None, None, None, None, 10);
    let titles: Vec<String> = all.iter().map(|m| m.title.clone()).collect();
    assert_eq!(titles, vec!["one".to_string(), "two".to_string(), "three".to_string()]);
}

#[test]
fn search_by_min_upvotes_five() {
    let mut board = Board::new().unwrap();
    let popular = board.add_message(payload("popular", "p", ""), 1).unwrap();
    let middling = board.add_message(payload("middling", "m", ""), 1).unwrap();
    let exact = board.add_message(payload("exact", "e", ""), 1).unwrap();
    for i in 0..6 {
        board.upvote_message(popular.id, format!("u{}", i)).ok();
    }
    for i in 0..4 {
        board.upvote_message(middling.id, format!("u{}", i)).ok();
    }
    for i in 0..5 {
        board.upvote_message(exact.id, format!("u{}", i)).ok();
    }
    let found = board.search_messages(None, Some(5), None, None, 10);
    let ids: Vec<u64> = found.iter().map(|m| m.id).collect();
    assert_eq!(ids, vec![popular.id, exact.id]);
    assert!(found.iter().all(|m| m.upvotes >= 5));
}

#[test]
fn search_by_term_in_title_or_body() {
    let mut board = Board::new().unwrap();
    board.add_message(payload("Rust news", "nothing", ""), 1);
    board.add_message(payload("other", "all about rust", ""), 1);
    board.add_message(payload("café", "crème", ""), 1);
    let found = board.search_messages(Some("Rust".to_string()), None, None, None, 1);
    assert_eq!(found.len(), 1);
    assert_eq!(found[0].title, "Rust news");
    let lower = board.search_messages(Some("rust".to_string()), None, None, None, 1);
    assert_eq!(lower.len(), 1);
    assert_eq!(lower[0].title, "other");
    let accented = board.search_messages(Some("è".to_string()), None, None, None, 1);
    assert_eq!(accented.len(), 1);
    assert_eq!(accented[0].title, "café");
    let empty_term = board.search_messages(Some(String::new()), None, None, None, 1);
    assert_eq!(empty_term.len(), 3);
}

#[test]
fn search_by_max_downvotes() {
    let mut board = Board::new().unwrap();
    let a = board.add_message(payload("a", "a", ""), 1).unwrap();
    let b = board.add_message(payload("b", "b", ""), 1).unwrap();
    board.downvote_message(a.id, "x".to_string()).unwrap();
    board.downvote_message(a.id, "y".to_string()).unwrap();
    let found = board.search_messages(None, None, Some(1), None, 1);
    let ids: Vec<u64> = found.iter().map(|m| m.id).collect();
    assert_eq!(ids, vec![b.id]);
}

#[test]
fn search_by_recent_hours() {
    let mut board = Board::new().unwrap();
    let old = board.add_message(payload("old", "o", ""), 1_000).unwrap();
    let new = board.add_message(payload("new", "n", ""), 8_000).unwrap();
    // 2 hours are 7200 units: 10_000 - 8_000 fits, 10_000 - 1_000 does not.
    let found = board.search_messages(None, None, None, Some(2), 10_000);
    let ids: Vec<u64> = found.iter().map(|m| m.id).collect();
    assert_eq!(ids, vec![new.id]);
    // exactly on the edge: 8_200 - 1_000 == 7_200
    let edge = board.search_messages(None, None, None, Some(2), 8_200);
    let ids: Vec<u64> = edge.iter().map(|m| m.id).collect();
    assert_eq!(ids, vec![old.id, new.id]);
    // a message stamped after the search time counts as recent
    let ahead = board.search_messages(None, None, None, Some(0), 500);
    assert_eq!(ahead.len(), 2);
}

#[test]
fn delete_then_get_is_not_found() {
    let mut board = Board::new().unwrap();
    let m = board.add_message(payload("t", "b", ""), 1).unwrap();
    let gone = board.delete_message(m.id).unwrap();
    assert_eq!(gone.id, m.id);
    assert_eq!(gone.title, "t");
    assert!(matches!(board.get_message(m.id), Err(Error::NotFound { .. })));
}

#[test]
fn delete_missing_message_is_not_found() {
    let mut board = Board::new().unwrap();
    assert!(matches!(board.delete_message(42), Err(Error::NotFound { .. })));
}

#[test]
fn scenario_upvote_with_existing_user() {
    let mut board = Board::new().unwrap();
    board.add_user(UserId(1), user("alice"));
    let m = board.add_message(payload("A", "B", ""), 5).unwrap();
    assert_eq!(m.id, 1);
    assert_eq!(m.upvotes, 0);
    assert!(board.upvote_message(1, "alice".to_string()).is_ok());
    assert_eq!(board.get_message(1).unwrap().upvotes, 1);
    assert_eq!(board.get_user(UserId(1)).unwrap().tokens, 1);
    let again = board.upvote_message(1, "alice".to_string());
    assert!(matches!(again, Err(Error::AlreadyVoted { .. })));
    assert_eq!(board.get_user(UserId(1)).unwrap().tokens, 1);
}

#[test]
fn scenario_upvote_without_user_keeps_vote() {
    let mut board = Board::new().unwrap();
    let m = board.add_message(payload("A", "B", ""), 5).unwrap();
    assert_eq!(m.id, 1);
    assert_eq!(m.upvotes, 0);
    let first = board.upvote_message(1, "alice".to_string());
    assert!(matches!(first, Err(Error::UserNotFound { .. })));
    assert_eq!(board.get_message(1).unwrap().upvotes, 1);
    let again = board.upvote_message(1, "alice".to_string());
    assert!(matches!(again, Err(Error::AlreadyVoted { .. })));
    assert_eq!(board.get_message(1).unwrap().upvotes, 1);
}

#[test]
fn reward_goes_to_first_user_in_id_order() {
    let mut board = Board::new().unwrap();
    board.add_user(UserId(9), user("dup"));
    board.add_user(UserId(3), user("dup"));
    board.add_user(UserId(5), user("other"));
    assert!(board.reward_upvote("dup".to_string()).is_ok());
    assert_eq!(board.get_user(UserId(3)).unwrap().tokens, 1);
    assert_eq!(board.get_user(UserId(9)).unwrap().tokens, 0);
    assert_eq!(board.get_user(UserId(5)).unwrap().tokens, 0);
}

#[test]
fn reward_unknown_user_fails() {
    let mut board = Board::new().unwrap();
    board.add_user(UserId(1), user("someone"));
    let r = board.reward_upvote("nobody".to_string());
    assert!(matches!(r, Err(Error::UserNotFound { .. })));
    assert_eq!(board.get_user(UserId(1)).unwrap().tokens, 0);
}

#[test]
fn reward_stops_at_largest_balance() {
    let mut board = Board::new().unwrap();
    board.add_user(UserId(1), User { username: "rich".to_string(), tokens: u64::MAX });
    assert!(board.reward_upvote("rich".to_string()).is_ok());
    assert_eq!(board.get_user(UserId(1)).unwrap().tokens, u64::MAX);
}

#[test]
fn add_user_replaces_earlier_record() {
    let mut board = Board::new().unwrap();
    assert!(board.add_user(UserId(2), user("first")).is_none());
    let prev = board.add_user(UserId(2), user("second")).unwrap();
    assert_eq!(prev.username, "first");
    assert_eq!(board.get_user(UserId(2)).unwrap().username, "second");
    assert!(board.get_user(UserId(3)).is_none());
}

#[test]
fn ids_are_shared_across_entities() {
    let mut board = Board::new().unwrap();
    let m = board.add_message(payload("t", "b", ""), 1).unwrap();
    let c = board.add_comment(m.id, "bob".to_string(), "hi".to_string(), 2).unwrap();
    let r = board.report_message(m.id, "eve".to_string(), "spam".to_string(), 3).unwrap();
    let m2 = board.add_message(payload("t2", "b2", ""), 4).unwrap();
    assert_eq!((m.id, c.id, r.id, m2.id), (1, 2, 3, 4));
}

#[test]
fn comments_are_listed_by_message() {
    let mut board = Board::new().unwrap();
    let c1 = board.add_comment(10, "a".to_string(), "first".to_string(), 1).unwrap();
    let c2 = board.add_comment(20, "b".to_string(), "other".to_string(), 2).unwrap();
    let c3 = board.add_comment(10, "c".to_string(), "second".to_string(), 3).unwrap();
    assert_eq!(c1.created_at, 1);
    assert_eq!(c1.user, "a");
    let on_ten = board.get_comments(10);
    let ids: Vec<u64> = on_ten.iter().map(|c| c.id).collect();
    assert_eq!(ids, vec![c1.id, c3.id]);
    assert_eq!(on_ten[1].content, "second");
    let on_twenty = board.get_comments(20);
    assert_eq!(on_twenty.len(), 1);
    assert_eq!(on_twenty[0].id, c2.id);
    assert!(board.get_comments(30).is_empty());
}

#[test]
fn delete_comment_then_missing() {
    let mut board = Board::new().unwrap();
    let c = board.add_comment(1, "a".to_string(), "x".to_string(), 1).unwrap();
    assert!(board.delete_comment(c.id).is_ok());
    assert!(board.get_comments(1).is_empty());
    assert!(matches!(board.delete_comment(c.id), Err(Error::NotFound { .. })));
}

#[test]
fn report_starts_unreviewed_and_review_marks_it() {
    let mut board = Board::new().unwrap();
    let r = board.report_message(77, "eve".to_string(), "spam".to_string(), 12).unwrap();
    assert!(!r.reviewed);
    assert_eq!(r.message_id, 77);
    assert_eq!(r.reported_by, "eve");
    assert_eq!(r.reason, "spam");
    assert_eq!(r.reported_at, 12);
    assert!(board.review_report(r.id, "delete".to_string()).is_ok());
    let read = board.get_report(r.id).unwrap();
    assert!(read.reviewed);
    assert_eq!(read.reason, "spam");
    assert!(board.review_report(r.id, "again".to_string()).is_ok());
    assert!(board.get_report(r.id).unwrap().reviewed);
}

#[test]
fn review_missing_report_is_not_found() {
    let mut board = Board::new().unwrap();
    let r = board.review_report(5, "none".to_string());
    assert!(matches!(r, Err(Error::NotFound { .. })));
}

#[test]
fn deleting_message_keeps_its_comments() {
    let mut board = Board::new().unwrap();
    let m = board.add_message(payload("t", "b", ""), 1).unwrap();
    board.add_comment(m.id, "a".to_string(), "x".to_string(), 2).unwrap();
    board.delete_message(m.id).unwrap();
    assert_eq!(board.get_comments(m.id).len(), 1);
}
