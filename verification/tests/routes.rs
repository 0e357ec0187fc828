use wdyt::routes::{
    create_session, route_error, submit_ack, submit_comment, submit_message, submit_reply,
    RouteError,
};
use wdyt::server::{CommentInput, CreateSession};
use wdyt::session::{Author, CodeFile, Content, DocFile, Store, StoreError};

fn code(store: &mut Store) -> String {
    let file = CodeFile {
        label: "a.rs".into(),
        html: String::new(),
        highlighted: vec![],
        sources: vec!["one".into(), "two".into()],
        lines: 2,
        language: "Rust".into(),
    };
    store.insert("t".into(), None, Content::Code { files: vec![file] })
}

fn input(line: usize, side: &str, text: &str) -> CommentInput {
    CommentInput {
        file: "a.rs".into(),
        target: None,
        line,
        end_line: None,
        side: side.into(),
        text: text.into(),
    }
}

fn bad(r: Result<impl std::fmt::Debug, RouteError>) -> String {
    match r {
        Err(RouteError::BadRequest(m)) => m,
        other => panic!("expected a bad request, got {other:?}"),
    }
}

#[test]
fn a_reply_is_trimmed_and_taken_once() {
    let mut store = Store::new(None);
    let id = code(&mut store);
    let first = submit_reply(&mut store, &id, "  looks good \n").unwrap();
    assert!(first.accepted);
    assert_eq!(first.text, "looks good");
    let second = submit_reply(&mut store, &id, "again").unwrap();
    assert!(!second.accepted);
    assert_eq!(second.text, "");
    assert_eq!(second.message.as_deref(), Some("this session already has a reply"));
    assert_eq!(bad(submit_reply(&mut store, &id, "   ")), "reply must not be empty");
    assert_eq!(bad(submit_reply(&mut store, &id, &"x".repeat(16385))), "reply is too long");
    assert!(matches!(submit_reply(&mut store, "nope", "hi"), Err(RouteError::NotFound)));
}

#[test]
fn a_comment_is_quoted_from_the_session_and_threaded() {
    let mut store = Store::new(None);
    let id = code(&mut store);
    let c = submit_comment(&mut store, &id, input(2, "new", " why? ")).unwrap();
    assert_eq!(c.snippet, "two");
    assert_eq!(c.text, "why?");
    let m = submit_message(&mut store, &id, c.id, Author::Agent, " because ").unwrap();
    assert_eq!(m.text, "because");
    assert_eq!(m.from, Author::Agent);
    assert_eq!(bad(submit_message(&mut store, &id, c.id, Author::User, "")), "a message must not be empty");
    assert!(matches!(
        submit_message(&mut store, &id, 99, Author::User, "hi"),
        Err(RouteError::NotFound)
    ));
}

#[test]
fn a_bad_comment_is_refused_before_the_store_is_touched() {
    let mut store = Store::new(None);
    let id = code(&mut store);
    assert_eq!(bad(submit_comment(&mut store, &id, input(3, "new", "x"))), "no such line in this session");
    assert_eq!(bad(submit_comment(&mut store, &id, input(1, "old", "x"))), "side must be new for code/docs/brief comments");
    assert!(store.comments(&id).unwrap().is_empty());
}

#[test]
fn a_comment_on_a_missing_session_is_checked_then_not_found() {
    let mut store = Store::new(None);
    assert_eq!(bad(submit_comment(&mut store, "nope", input(1, "new", " "))), "comment must not be empty");
    assert_eq!(bad(submit_comment(&mut store, "nope", input(0, "new", "x"))), "line must be >= 1");
    assert!(matches!(
        submit_comment(&mut store, "nope", input(1, "new", "x")),
        Err(RouteError::NotFound)
    ));
    let mut targeted = input(0, "new", "x");
    targeted.target = Some("doc:0".into());
    assert!(matches!(submit_comment(&mut store, "nope", targeted), Err(RouteError::NotFound)));
}

#[test]
fn creating_refuses_labels_that_share_an_anchor() {
    let mut store = Store::new(None);
    let doc = |label: &str| DocFile { label: label.into(), html: String::new(), sources: vec![] };
    let clash = CreateSession::new("t".into(), Content::Docs { files: vec![doc("a b.md"), doc("a-b.md")] });
    assert_eq!(
        bad(create_session(&mut store, clash)),
        "anchor collision: \"a b.md\" and \"a-b.md\" both produce #f-a-b-md"
    );
    let fine = CreateSession::new("t".into(), Content::Docs { files: vec![doc("a.md")] });
    let created = create_session(&mut store, fine).unwrap();
    assert!(store.contains(&created.id));
}

#[test]
fn store_errors_become_statuses() {
    assert!(matches!(route_error(StoreError::UnknownSession), RouteError::NotFound));
    match route_error(StoreError::Persistence("disk full".into())) {
        RouteError::Internal(m) => assert_eq!(m, "persisting wdyt state: disk full"),
        other => panic!("expected a 500, got {other:?}"),
    }
}

#[test]
fn rooms_are_reported() {
    let mut store = Store::new(None);
    let id = code(&mut store);
    assert!(store.comment_has_room(&id));
    assert!(store.message_has_room(&id, 1));
    assert!(store.comment_has_room("nope"));
}

#[test]
fn an_ack_needs_a_note_and_a_reply() {
    let mut store = Store::new(None);
    let id = code(&mut store);
    assert_eq!(bad(submit_ack(&mut store, &id, "  ")), "an ack needs a note saying what you are doing");
    assert_eq!(bad(submit_ack(&mut store, &id, "on it")), "there is no reply on this session to acknowledge");
    submit_reply(&mut store, &id, "ok").unwrap();
    assert!(submit_ack(&mut store, &id, " on it ").unwrap().acked);
    let reply = store.with(&id, |s| s.reply.clone()).unwrap().unwrap();
    assert_eq!(reply.ack.unwrap().note, "on it");
    assert!(matches!(submit_ack(&mut store, "nope", "x"), Err(RouteError::NotFound)));
}
