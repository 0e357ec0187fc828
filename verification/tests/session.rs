use wdyt::session::{
    side_of, Anchor, Author, Content, LineKind, NewSession, Side, Store, StoreError,
    MAX_THREAD_MESSAGES,
};

fn demo() -> Content {
    Content::Demo {
        port: 3005,
        path: "/".to_owned(),
    }
}

/// A session with one comment on a line, which is a question nobody has
/// answered yet.
fn asked() -> (Store, String, u64) {
    let mut store = Store::new(None);
    let id = store.insert("t".into(), None, demo());
    let comment = store
        .comment(
            &id,
            Anchor::line("a.rs".into(), 3, Side::New),
            "let x = y.clone();".into(),
            "why is this a clone?".into(),
        )
        .unwrap();
    (store, id, comment.id)
}

#[test]
fn a_comment_is_a_question_until_an_agent_takes_it() {
    let (mut store, id, thread) = asked();
    let (comment, message) = store.take_question(&id).unwrap().expect("a question");
    assert_eq!(comment.id, thread);
    assert_eq!(message.text, "why is this a clone?");
    assert_eq!(message.id, 0);
    assert_eq!(message.from, Author::User);
    assert!(message.delivered_at.is_some(), "taking it is delivery");
    assert!(store.take_question(&id).unwrap().is_none());
}

#[test]
fn only_the_readers_words_are_questions() {
    let (mut store, id, thread) = asked();
    store.take_question(&id).unwrap().expect("the comment");

    store
        .message(&id, thread, Author::Agent, "because it is cheap".into())
        .unwrap();
    assert!(
        store.take_question(&id).unwrap().is_none(),
        "an agent's own answer came back as a question"
    );

    store
        .message(&id, thread, Author::User, "fair enough".into())
        .unwrap();
    let (_, taken) = store.take_question(&id).unwrap().expect("the follow-up");
    assert_eq!(taken.text, "fair enough");
    assert!(taken.id > 0, "a follow-up is not the comment itself");
    assert!(store.take_question(&id).unwrap().is_none());
}

#[test]
fn the_last_word_says_who_is_waiting() {
    let (mut store, id, thread) = asked();
    let comments = store.comments(&id).unwrap();
    let waiting = &comments[0];
    assert!(waiting.awaiting_agent());
    assert_eq!(waiting.last(), (Author::User, "why is this a clone?"));

    store
        .message(&id, thread, Author::Agent, "because it is cheap".into())
        .unwrap();
    let comments = store.comments(&id).unwrap();
    let answered = &comments[0];
    assert!(!answered.awaiting_agent());
    assert_eq!(answered.last(), (Author::Agent, "because it is cheap"));
}

#[test]
fn a_thread_cannot_grow_without_bound() {
    let (mut store, id, thread) = asked();
    for n in 0..MAX_THREAD_MESSAGES {
        store
            .message(&id, thread, Author::Agent, format!("{n}"))
            .expect("within the cap");
    }
    assert!(store
        .message(&id, thread, Author::Agent, "one too many".into())
        .is_err());
    assert_eq!(
        store.comments(&id).unwrap()[0].replies.len(),
        MAX_THREAD_MESSAGES
    );
}

#[test]
fn a_message_needs_a_thread_that_exists() {
    let (mut store, id, _) = asked();
    assert!(store
        .message(&id, 99, Author::Agent, "hello?".into())
        .is_err());
    assert!(store
        .message("nope", 1, Author::Agent, "hello?".into())
        .is_err());
}

#[test]
fn insert_then_read() {
    let mut store = Store::new(None);
    let id = store.insert("t".to_owned(), None, demo());
    assert!(store.contains(&id));
    assert_eq!(store.with(&id, |s| s.title.clone()).unwrap(), "t");
    assert!(!store.contains("nope"));
}

#[test]
fn ids_are_unique() {
    let mut store = Store::new(None);
    let ids: std::collections::HashSet<_> = (0..500)
        .map(|_| store.insert("t".into(), None, demo()))
        .collect();
    assert_eq!(ids.len(), 500, "ids collided");
}

#[test]
fn accepts_one_reply_only() {
    let mut store = Store::new(None);
    let id = store.insert("t".into(), None, demo());
    assert!(store.reply(&id, "first".into()).unwrap());
    assert!(!store.reply(&id, "second".into()).unwrap());
    assert_eq!(
        store.with(&id, |s| s.reply.clone()).unwrap().unwrap().text,
        "first"
    );
}

#[test]
fn reply_to_unknown_session_errors() {
    let mut store = Store::new(None);
    assert!(store.reply("nope", "hi".into()).is_err());
    assert!(store.take_reply("nope").is_err());
}

#[test]
fn expired_sessions_are_evicted_on_insert() {
    let mut store = Store::new(Some(60));
    let stale = store.insert_new_at(NewSession::new("stale".into(), demo()), 1_000, 1);
    // Inserted an hour later: the first session is past its time to live.
    let fresh = store.insert_new_at(NewSession::new("fresh".into(), demo()), 1_000 + 3_600, 2);
    assert!(!store.contains(&stale), "stale session survived");
    assert!(store.contains(&fresh));
}

#[test]
fn a_session_at_its_time_to_live_is_kept() {
    let mut store = Store::new(Some(60));
    let edge = store.insert_new_at(NewSession::new("edge".into(), demo()), 1_000, 1);
    let next = store.insert_new_at(NewSession::new("next".into(), demo()), 1_060, 2);
    assert!(store.contains(&edge), "a session exactly ttl old was evicted");
    assert!(store.contains(&next));
}

#[test]
fn a_reply_is_undelivered_until_collected() {
    let mut store = Store::new(None);
    let id = store.insert("t".into(), None, demo());
    store.reply(&id, "hi".into()).unwrap();

    let fresh = store.with(&id, |s| s.reply.clone()).unwrap().unwrap();
    assert!(fresh.delivered_at.is_none(), "a fresh reply looked delivered");

    let first = store.mark_delivered(&id).unwrap().unwrap();
    let stamp = first.delivered_at.expect("collecting stamps delivered_at");

    let again = store.mark_delivered(&id).unwrap().unwrap();
    assert_eq!(again.delivered_at, Some(stamp));
}

#[test]
fn redelivery_keeps_the_first_stamp_at_fixed_times() {
    let mut store = Store::new(None);
    let id = store.insert("t".into(), None, demo());
    store.reply_at(&id, "hi".into(), 10).unwrap();
    let first = store.mark_delivered_at(&id, 20).unwrap().unwrap();
    assert_eq!(first.delivered_at, Some(20));
    assert_eq!(first.at, 10);
    let again = store.mark_delivered_at(&id, 30).unwrap().unwrap();
    assert_eq!(again.delivered_at, Some(20));
}

#[test]
fn delivery_is_not_a_claim_that_anything_read_the_reply() {
    let mut store = Store::new(None);
    let id = store.insert("t".into(), None, demo());
    store.reply(&id, "have a look".into()).unwrap();

    let delivered = store.mark_delivered(&id).unwrap().unwrap();
    assert!(delivered.delivered_at.is_some());
    assert!(delivered.ack.is_none(), "delivery invented an ack");

    assert!(store.ack(&id, "on it: rerunning the build".into()).unwrap());
    let acked = store.with(&id, |s| s.reply.clone()).unwrap().unwrap();
    let ack = acked.ack.expect("the ack was recorded");
    assert_eq!(ack.note, "on it: rerunning the build");
}

#[test]
fn an_ack_can_be_replaced_so_an_agent_can_report_progress() {
    let mut store = Store::new(None);
    let id = store.insert("t".into(), None, demo());
    store.reply(&id, "hi".into()).unwrap();

    store.ack(&id, "starting".into()).unwrap();
    store.ack(&id, "done, pushed".into()).unwrap();
    let reply = store.with(&id, |s| s.reply.clone()).unwrap().unwrap();
    assert_eq!(reply.ack.unwrap().note, "done, pushed");
}

#[test]
fn an_ack_implies_delivery() {
    let mut store = Store::new(None);
    let id = store.insert("t".into(), None, demo());
    store.reply(&id, "hi".into()).unwrap();

    store.ack(&id, "read it".into()).unwrap();
    let reply = store.with(&id, |s| s.reply.clone()).unwrap().unwrap();
    assert!(reply.delivered_at.is_some(), "an ack left it undelivered");
}

#[test]
fn acking_or_collecting_with_no_reply_is_not_an_error() {
    let mut store = Store::new(None);
    let id = store.insert("t".into(), None, demo());
    assert!(store.mark_delivered(&id).unwrap().is_none());
    assert!(store.mark_delivered("nope").is_err());
    assert!(!store.ack(&id, "hi".into()).unwrap());
    assert!(store.ack("nope", "hi".into()).is_err());
}

#[test]
fn the_inbox_holds_replies_the_waiter_never_saw() {
    let mut store = Store::new(None);
    let seen = store.insert("seen".into(), None, demo());
    let missed = store.insert("missed".into(), None, demo());
    let silent = store.insert("silent".into(), None, demo());

    store.reply(&seen, "one".into()).unwrap();
    store.reply(&missed, "two".into()).unwrap();
    store.ack(&seen, "read it".into()).unwrap();

    let ids: Vec<_> = store.replied().into_iter().map(|item| item.0).collect();
    assert!(ids.contains(&seen) && ids.contains(&missed));
    assert!(!ids.contains(&silent), "a session with no reply appeared");

    let unread: Vec<_> = store
        .replied()
        .into_iter()
        .filter(|(_, _, reply, _)| reply.ack.is_none())
        .map(|item| item.0)
        .collect();
    assert_eq!(unread, vec![missed]);
}

#[test]
fn a_collected_but_unacked_reply_stays_in_the_unread_inbox() {
    let mut store = Store::new(None);
    let id = store.insert("t".into(), None, demo());
    store.reply(&id, "did you get this?".into()).unwrap();
    store.mark_delivered(&id).unwrap();

    let unread: Vec<_> = store
        .replied()
        .into_iter()
        .filter(|(_, _, reply, _)| reply.ack.is_none())
        .map(|item| item.0)
        .collect();
    assert_eq!(unread, vec![id], "a collected reply fell out of the inbox");
}

#[test]
fn comments_accumulate_with_rising_ids() {
    let mut store = Store::new(None);
    let id = store.insert("t".into(), None, demo());
    let first = store
        .comment(
            &id,
            Anchor::line("a.rs".into(), 3, Side::New),
            "let x = 1;".into(),
            "why?".into(),
        )
        .unwrap();
    let second = store
        .comment(
            &id,
            Anchor::line("a.rs".into(), 9, Side::Old),
            "gone".into(),
            "keep this".into(),
        )
        .unwrap();
    assert!(second.id > first.id, "ids did not rise");
    assert_eq!(store.comments(&id).unwrap().len(), 2);
    assert!(store
        .comment(
            "nope",
            Anchor::line("a".into(), 1, Side::New),
            String::new(),
            "x".into(),
        )
        .is_err());
}

#[test]
fn a_range_that_covers_one_line_is_not_a_range() {
    let mut store = Store::new(None);
    let id = store.insert("t".into(), None, demo());

    let single = store
        .comment(
            &id,
            Anchor::range("a.rs".into(), 4, 4, Side::New),
            "x".into(),
            "hm".into(),
        )
        .unwrap();
    assert_eq!(single.end_line, None, "a one-line range was kept");

    let ranged = store
        .comment(
            &id,
            Anchor::range("a.rs".into(), 4, 8, Side::New),
            "x".into(),
            "hm".into(),
        )
        .unwrap();
    assert_eq!(ranged.end_line, Some(8));
}

#[test]
fn an_anchor_puts_a_dragged_range_in_order() {
    let up = Anchor::range("a.rs".into(), 9, 2, Side::New);
    assert_eq!((up.line, up.end_line), (2, Some(9)));
    assert_eq!(up.last(), 9);
    assert_eq!(up.span(), 8);

    let down = Anchor::range("a.rs".into(), 2, 9, Side::New);
    assert_eq!(up, down, "direction changed the anchor");

    let one = Anchor::line("a.rs".into(), 5, Side::Old);
    assert_eq!(one.last(), 5);
    assert_eq!(one.span(), 1);
}

#[test]
fn a_context_line_is_addressed_on_the_new_side_only() {
    assert_eq!(side_of(LineKind::Context), Side::New);
    assert_eq!(side_of(LineKind::Added), Side::New);
    assert_eq!(side_of(LineKind::Removed), Side::Old);
    assert_eq!(Side::parse("old"), Some(Side::Old));
    assert_eq!(Side::parse("both"), None);
}

#[test]
fn anchor_span_does_not_panic_on_edge_cases() {
    let a = Anchor::line("x".into(), usize::MAX, Side::New);
    assert_eq!(a.span(), 1);

    let b = Anchor::range("x".into(), 1, usize::MAX, Side::New);
    assert!(b.span() > 0);

    let c = Anchor::line("x".into(), 0, Side::New);
    assert_eq!(c.span(), 1);
}

#[test]
fn a_span_from_zero_to_the_top_saturates() {
    let a = Anchor::range("x".into(), 0, usize::MAX, Side::New);
    assert_eq!(a.span(), usize::MAX);
}

#[test]
fn summaries_are_newest_first() {
    let mut store = Store::new(None);
    let first = store.insert_new_at(NewSession::new("first".into(), demo()), 100, 1);
    let second = store.insert_new_at(NewSession::new("second".into(), demo()), 101, 2);
    let ids: Vec<_> = store.summaries().into_iter().map(|s| s.0).collect();
    assert_eq!(ids, vec![second, first]);
}

#[test]
fn summaries_carry_the_title_kind_and_reply_flag() {
    let mut store = Store::new(None);
    let id = store.insert("a title".into(), None, demo());
    store.reply(&id, "done".into()).unwrap();
    let all = store.summaries();
    assert_eq!(all.len(), 1);
    assert_eq!(all[0].1, "a title");
    assert_eq!(all[0].2, "demo");
    assert!(all[0].3);
}

#[test]
fn take_reply_hands_the_reply_out_once_delivered() {
    let mut store = Store::new(None);
    let id = store.insert("t".into(), None, demo());
    assert!(store.take_reply(&id).unwrap().is_none());
    store.reply(&id, "hello".into()).unwrap();
    let got = store.take_reply(&id).unwrap().expect("the reply");
    assert_eq!(got.text, "hello");
    assert!(got.delivered_at.is_some());
    assert!(store.take_reply(&id).unwrap().is_none(), "a reply surfaced twice");
}

#[test]
fn the_unknown_session_error_reads_plainly() {
    assert_eq!(StoreError::UnknownSession.message(), "no such session");
    assert_eq!(
        StoreError::Persistence("disk full".into()).message(),
        "persisting wdyt state: disk full"
    );
}

#[test]
fn content_kinds_name_themselves() {
    assert_eq!(demo().kind(), "demo");
    assert!(demo().is_framed());
    assert!(!demo().is_commentable());
    let diff = Content::Diff { files: vec![] };
    assert_eq!(diff.kind(), "diff");
    assert!(diff.is_commentable());
}

#[test]
fn the_state_file_order_is_oldest_first_then_by_id() {
    let mut store = Store::new(None);
    let late = store.insert_new_at(NewSession::new("late".into(), demo()), 5, 1);
    let a = store.insert_new_at(NewSession::new("a".into(), demo()), 3, 2);
    let b = store.insert_new_at(NewSession::new("b".into(), demo()), 3, 3);
    let order: Vec<String> = store
        .state_order()
        .into_iter()
        .map(|k| store.sessions()[k].id.clone())
        .collect();
    let (first, second) = if a < b { (a, b) } else { (b, a) };
    assert_eq!(order, vec![first, second, late]);
}

#[test]
fn a_store_rebuilt_from_its_sessions_is_the_same_store() {
    let mut store = Store::new(Some(60));
    let old = store.insert_new_at(NewSession::new("old".into(), demo()), 1, 1);
    store.reply_at(&old, "hi".into(), 2).unwrap();
    let saved: Vec<_> = store.sessions().clone();
    let rebuilt = Store::rebuild(saved, Some(60)).unwrap();
    assert!(rebuilt.contains(&old));
    assert_eq!(rebuilt.sessions().len(), 1);
    assert_eq!(
        rebuilt.with(&old, |s| s.reply.clone()).unwrap().unwrap().text,
        "hi"
    );
}

#[test]
fn a_restored_store_drops_what_has_expired() {
    let mut store = Store::new(None);
    let old = store.insert_new_at(NewSession::new("old".into(), demo()), 1, 1);
    let new = store.insert_new_at(NewSession::new("new".into(), demo()), 1_000, 2);
    let saved: Vec<_> = store.sessions().clone();
    let restored = Store::restore(saved, Some(60), 1_030).unwrap();
    assert!(!restored.contains(&old));
    assert!(restored.contains(&new));
}

#[test]
fn a_state_with_a_repeated_id_is_refused() {
    let mut store = Store::new(None);
    let id = store.insert("t".into(), None, demo());
    let mut twice: Vec<_> = store.sessions().clone();
    twice.push(twice[0].clone());
    assert_eq!(Store::rebuild(twice, None).err(), Some(id));
}

#[test]
fn a_change_that_was_not_written_leaves_the_live_store_as_it_was() {
    let mut store = Store::new(None);
    let first = store.insert("first".into(), None, demo());
    let mut candidate = Store::rebuild(store.sessions().clone(), None).unwrap();
    let second = candidate.insert("second".into(), None, demo());
    store.settle(candidate, false);
    assert!(store.contains(&first));
    assert!(!store.contains(&second));

    let mut candidate = Store::rebuild(store.sessions().clone(), None).unwrap();
    let third = candidate.insert("third".into(), None, demo());
    store.settle(candidate, true);
    assert!(store.contains(&first));
    assert!(store.contains(&third));
}

#[test]
fn ids_are_the_first_free_draws_of_the_counter() {
    let mut store = Store::new(None);
    let first = store.insert_new_at(NewSession::new("a".into(), demo()), 10, 0);
    let second = store.insert_new_at(NewSession::new("b".into(), demo()), 10, 0);
    let third = store.insert_new_at(NewSession::new("c".into(), demo()), 10, 0);
    assert_eq!(first, "0");
    assert_eq!(second, "2em804");
    assert_eq!(third, "x31z77");
}

#[test]
fn a_taken_draw_is_skipped() {
    let mut store = Store::new(None);
    let first = store.insert_new_at(NewSession::new("a".into(), demo()), 10, 0);
    // A rebuilt store counts from zero again, so its first draw is taken.
    let mut rebuilt = Store::rebuild(store.sessions().clone(), None).unwrap();
    let next = rebuilt.insert_new_at(NewSession::new("b".into(), demo()), 10, 0);
    assert_eq!(first, "0");
    assert_eq!(next, "2em804");
}
