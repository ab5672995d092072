use knot::access::{AuthContext, Caller, WorkspaceRole};
use knot::comment_routes::{
    add_reaction, comment_created, comment_edited, create_reply, create_thread, delete_allowed,
    edit_allowed, edit_comment, emoji_allowed, ensure_comment_in_doc, list_comments, may_change,
    open_thread, stored, thread_changed, CommentStoreError, CreateReplyBody, CreateThreadBody,
    EditBody, Position, ReactionBody,
};
use knot::comments::{
    comment_notifications, emit_comment_notifications, extract_mentions, lowercase_handles,
    Comment, CommentEvent, CommentWrite, CommentedDoc, Member,
};
use knot::http::{Received, Refusal};
use knot::ids::{uuid_to_text, Uuid};
use knot::notifications::{
    NameEntry, Notification, NotificationData, NotificationKind, NotificationTable, References,
};
use knot::time::Timestamp;

const WS: Uuid = 1;
const DOC: Uuid = 2;
const ALICE: Uuid = 10;
const BOB: Uuid = 11;
const CAROL: Uuid = 12;
const MALLORY: Uuid = 13;

/// Everything that these tests name is there.
fn refs() -> References {
    References {
        workspaces: (0..1000).collect(),
        users: (0..1000).collect(),
        docs: (0..1000).collect(),
    }
}

fn now() -> Timestamp {
    Timestamp::from_micros(0).unwrap()
}

fn caller(user_id: Uuid) -> Caller {
    Caller {
        auth: Some(AuthContext { user_id, workspace_id: WS, role: WorkspaceRole::Editor }),
        doc_role: Some(WorkspaceRole::Editor),
    }
}

/// A document with a comment store and an inbox.
struct World {
    members: Vec<Member>,
    comments: Vec<Comment>,
    inbox: NotificationTable,
}

impl World {
    fn new() -> World {
        World {
            members: vec![
                Member { user_id: ALICE, display_name: "Alice".to_string() },
                Member { user_id: BOB, display_name: "Bob".to_string() },
            ],
            comments: vec![],
            inbox: NotificationTable::new(),
        }
    }

    fn tell(&mut self, e: CommentEvent) {
        let doc = CommentedDoc { workspace_id: WS, title: "Test Doc".to_string() };
        let notes =
            emit_comment_notifications(&e, Some(&doc), Some(&self.members), Some(&self.comments));
        self.inbox.emit_many(notes, now(), &refs()).unwrap();
    }

    fn store(&mut self, thread_id: Option<Uuid>, author_id: Uuid, body: &str) -> Comment {
        let id = 1000 + self.comments.len() as Uuid;
        let make = || Comment {
            id,
            doc_id: DOC,
            thread_id: thread_id.unwrap_or(id),
            author_id,
            body: body.to_string(),
            deleted: false,
        };
        self.comments.push(make());
        make()
    }

    fn post(&mut self, author: Uuid, body: &str, mentions: Vec<Uuid>) -> (u16, Uuid) {
        let request = CreateThreadBody {
            body: body.to_string(),
            position_y: None,
            position_y_end: None,
            anchor_text: None,
            mentions,
        };
        let new = create_thread(&caller(author), DOC, Received::Parsed(request), true).unwrap();
        let c = self.store(None, new.author_id, &new.body);
        let id = c.id;
        let w = comment_created(new.doc_id, new.author_id, new.mentions, Ok(c)).unwrap();
        self.tell(w.event);
        (w.status, id)
    }

    fn reply(&mut self, thread_id: Uuid, author: Uuid, body: &str) -> u16 {
        let request = CreateReplyBody { body: body.to_string(), mentions: vec![] };
        let new =
            create_reply(&caller(author), DOC, thread_id, Received::Parsed(request), true).unwrap();
        let c = self.store(Some(new.thread_id), new.author_id, &new.body);
        let w = comment_created(new.doc_id, new.author_id, new.mentions, Ok(c)).unwrap();
        self.tell(w.event);
        w.status
    }

    fn edit(&mut self, comment_id: Uuid, author: Uuid, body: &str) -> u16 {
        let request = EditBody { body: body.to_string() };
        let edit = edit_comment(&caller(author), Received::Parsed(request), true).unwrap();
        let i = self.comments.iter().position(|c| c.id == comment_id).unwrap();
        let found = |w: &World| -> Result<Comment, CommentStoreError> {
            let c = &w.comments[i];
            Ok(Comment {
                id: c.id,
                doc_id: c.doc_id,
                thread_id: c.thread_id,
                author_id: c.author_id,
                body: c.body.clone(),
                deleted: c.deleted,
            })
        };
        edit_allowed(edit.editor_id, DOC, &found(self)).unwrap();
        self.comments[i].body = edit.body;
        let w = comment_edited(edit.editor_id, found(self)).unwrap();
        self.tell(w.event);
        w.status
    }

    fn rows(&self, user: Uuid) -> Vec<Notification> {
        let none: Vec<NameEntry> = vec![];
        self.inbox.list(user, false, 50, None, &none, &none)
    }
}

#[test]
fn mention_in_a_comment_notifies_the_mentioned_user_only() {
    let mut w = World::new();
    let (status, _) = w.post(ALICE, "please look @Bob", vec![]);
    assert_eq!(status, 201);
    let bobs = w.rows(BOB);
    assert_eq!(bobs.len(), 1);
    assert_eq!(bobs[0].kind, "mention");
    assert_eq!(bobs[0].doc_id, Some(DOC));
    // The author gets nothing.
    assert!(w.rows(ALICE).is_empty());
}

#[test]
fn reply_notifies_thread_participants_but_not_the_replier() {
    let mut w = World::new();
    let (_, thread) = w.post(ALICE, "what do we think?", vec![]);
    assert_eq!(w.reply(thread, BOB, "looks fine"), 201);
    let alices = w.rows(ALICE);
    assert_eq!(alices.len(), 1);
    assert_eq!(alices[0].kind, "reply");
    assert!(w.rows(BOB).is_empty());
}

#[test]
fn a_mentioned_participant_gets_one_row_not_two() {
    let mut w = World::new();
    let (_, thread) = w.post(ALICE, "opening", vec![]);
    // Bob replies AND mentions Alice — she is a participant and mentioned.
    w.reply(thread, BOB, "done @Alice");
    let rows = w.rows(ALICE);
    assert_eq!(rows.len(), 1, "mention wins; no duplicate reply row");
    assert_eq!(rows[0].kind, "mention");
}

#[test]
fn editing_a_comment_does_not_notify_thread_participants() {
    let mut w = World::new();
    let (_, thread) = w.post(ALICE, "original text", vec![]);
    w.reply(thread, BOB, "looks fine");
    assert_eq!(
        w.rows(ALICE).len(),
        1,
        "Alice should have exactly the one reply notification, from Bob's reply"
    );
    assert_eq!(w.edit(thread, ALICE, "original text, fixed"), 200);
    assert!(
        w.rows(BOB).is_empty(),
        "editing a comment must not fan out reply notifications to thread participants"
    );
}

#[test]
fn editing_a_comment_to_add_a_mention_notifies_exactly_once() {
    let mut w = World::new();
    let (_, id) = w.post(ALICE, "no mentions here", vec![]);
    assert!(w.rows(BOB).is_empty());
    assert_eq!(w.edit(id, ALICE, "please look @Bob"), 200);
    let bobs = w.rows(BOB);
    assert_eq!(bobs.len(), 1);
    assert_eq!(bobs[0].kind, "mention");
    assert_eq!(w.edit(id, ALICE, "please look @Bob, thanks"), 200);
    assert_eq!(
        w.rows(BOB).len(),
        1,
        "no duplicate mention row when a second edit keeps the same mention"
    );
}

#[test]
fn explicit_mention_ids_reach_a_user_whose_name_has_a_space() {
    let mut w = World::new();
    w.members.push(Member { user_id: CAROL, display_name: "Carol Danvers".to_string() });
    let (status, _) = w.post(ALICE, "over to you @Carol Danvers", vec![CAROL]);
    assert_eq!(status, 201);
    let rows = w.rows(CAROL);
    assert_eq!(rows.len(), 1);
    assert_eq!(rows[0].kind, "mention");
}

#[test]
fn explicit_and_typed_mentions_union_instead_of_either_or() {
    let mut w = World::new();
    w.members.push(Member { user_id: CAROL, display_name: "Carol Danvers".to_string() });
    let (status, _) = w.post(ALICE, "over to you @Carol Danvers, and also @Bob", vec![CAROL]);
    assert_eq!(status, 201);
    assert_eq!(w.rows(CAROL).len(), 1, "the picked id must still notify");
    assert_eq!(
        w.rows(BOB).len(),
        1,
        "the hand-typed name must not be dropped just because `mentions` was non-empty"
    );
}

#[test]
fn an_id_for_a_non_member_is_ignored() {
    let mut w = World::new();
    let (status, _) = w.post(ALICE, "hi", vec![MALLORY]);
    assert_eq!(status, 201);
    assert!(w.rows(MALLORY).is_empty(), "a non-member must not be notified");
}

#[test]
fn a_comment_without_the_field_still_resolves_by_display_name() {
    let mut w = World::new();
    let (status, _) = w.post(ALICE, "ping @Bob", vec![]);
    assert_eq!(status, 201);
    assert_eq!(w.rows(BOB).len(), 1);
}

#[test]
fn mentions_are_words_behind_an_at_sign() {
    assert_eq!(extract_mentions("@Bob hi @ALICE, x@carol (@dave) \n@Éva"), ["bob", "alice", "éva"]);
    assert_eq!(extract_mentions("over to @Carol Danvers"), ["carol"]);
    assert!(extract_mentions("").is_empty());
    assert!(extract_mentions("@ nobody").is_empty());
    assert_eq!(
        lowercase_handles(&vec![Some("BoB".to_string()), None, Some("Éva".to_string())]),
        ["bob", "éva"]
    );
}

fn event(write: CommentWrite, body: &str, explicit: Vec<Uuid>) -> CommentEvent {
    CommentEvent {
        doc_id: DOC,
        thread_id: 50,
        comment_id: 51,
        author_id: ALICE,
        body: body.to_string(),
        write,
        explicit,
    }
}

fn said(thread_id: Uuid, author_id: Uuid, deleted: bool) -> Comment {
    Comment { id: 60, doc_id: DOC, thread_id, author_id, body: String::new(), deleted }
}

#[test]
fn a_thread_tells_its_other_authors_once() {
    let doc = CommentedDoc { workspace_id: WS, title: "T".to_string() };
    let members: Vec<Member> = vec![];
    let thread = vec![
        said(50, CAROL, false),
        said(50, BOB, false),
        said(50, CAROL, false),
        said(50, ALICE, false),
        said(99, MALLORY, false),
        said(50, 77, true),
    ];
    let notes = comment_notifications(
        &event(CommentWrite::Created, "x", vec![]),
        &doc,
        &members,
        &vec![],
        Some(&thread),
    );
    let told: Vec<Uuid> = notes.iter().map(|n| n.user_id).collect();
    assert_eq!(told, vec![CAROL, BOB]);
    assert!(notes.iter().all(|n| n.kind == NotificationKind::Reply));
    let none = comment_notifications(
        &event(CommentWrite::Created, "x", vec![]),
        &doc,
        &members,
        &vec![],
        None,
    );
    assert!(none.is_empty());
}

#[test]
fn a_notification_shows_the_start_of_the_comment() {
    let doc = CommentedDoc { workspace_id: WS, title: "Plan".to_string() };
    let members = vec![Member { user_id: BOB, display_name: "Bob".to_string() }];
    let body = "é".repeat(150);
    let notes = comment_notifications(
        &event(CommentWrite::Created, &body, vec![]),
        &doc,
        &members,
        &vec!["bob".to_string()],
        None,
    );
    assert_eq!(notes.len(), 1);
    let n = &notes[0];
    assert_eq!(n.workspace_id, WS);
    assert_eq!(n.actor_id, Some(ALICE));
    assert_eq!(n.target_kind, "comment");
    assert_eq!(n.target_id, uuid_to_text(51));
    assert_eq!(n.dedupe_key, format!("mention:{}", uuid_to_text(51)));
    match &n.data {
        NotificationData::Comment { excerpt, doc_title, thread_id } => {
            assert_eq!(*excerpt, "é".repeat(140));
            assert_eq!(doc_title, "Plan");
            assert_eq!(*thread_id, 50);
        }
        other => panic!("{other:?}"),
    }
}

#[test]
fn nobody_is_told_without_document_or_members() {
    let doc = CommentedDoc { workspace_id: WS, title: "T".to_string() };
    let members = vec![Member { user_id: BOB, display_name: "Bob".to_string() }];
    let e = event(CommentWrite::Created, "@Bob", vec![]);
    assert!(emit_comment_notifications(&e, None, Some(&members), None).is_empty());
    assert!(emit_comment_notifications(&e, Some(&doc), None, None).is_empty());
    assert_eq!(emit_comment_notifications(&e, Some(&doc), Some(&members), None).len(), 1);
}

fn code(r: &Refusal) -> (u16, &'static str, &'static str) {
    (r.status, r.code, r.message)
}

fn thread_body(body: &str, y: Option<&str>, y_end: Option<&str>) -> Received<CreateThreadBody> {
    Received::Parsed(CreateThreadBody {
        body: body.to_string(),
        position_y: y.map(|t| t.to_string()),
        position_y_end: y_end.map(|t| t.to_string()),
        anchor_text: Some("anchor".to_string()),
        mentions: vec![BOB],
    })
}

#[test]
fn requests_for_threads_are_checked_in_order() {
    let refused = |c: Caller, r: Received<CreateThreadBody>, ready: bool| {
        code(&create_thread(&c, DOC, r, ready).unwrap_err())
    };
    let anonymous = Caller { auth: None, doc_role: None };
    assert_eq!(refused(anonymous, Received::Malformed, true), (401, "auth.session_required", ""));
    let mut c = caller(ALICE);
    c.doc_role = None;
    assert_eq!(refused(c, Received::Malformed, true), (403, "acl.no_grant", ""));
    c.doc_role = Some(WorkspaceRole::Viewer);
    assert_eq!(refused(c, Received::Malformed, true), (403, "acl.editor_required", ""));
    let c = caller(ALICE);
    assert_eq!(refused(c, Received::Unreadable, true), (413, "comment.body_too_large", ""));
    assert_eq!(refused(c, Received::Malformed, true), (400, "bad_request", ""));
    assert_eq!(
        refused(c, thread_body(&"x".repeat(4097), Some("!"), None), true),
        (413, "comment.body_too_large", "body must be ≤ 4096 chars")
    );
    // Bytes count, not characters.
    assert_eq!(refused(c, thread_body(&"é".repeat(2049), None, None), true).0, 413);
    assert_eq!(
        refused(c, thread_body("x", Some("!"), Some("!")), true),
        (400, "comment.invalid_position_y", "")
    );
    assert_eq!(
        refused(c, thread_body("x", Some("AAE="), Some("AAE")), true),
        (400, "comment.invalid_position_y_end", "")
    );
    assert_eq!(refused(c, thread_body("x", None, None), false), (500, "internal", ""));
}

#[test]
fn positions_are_decoded() {
    let new = create_thread(
        &caller(ALICE),
        DOC,
        thread_body(&"x".repeat(4096), Some("AAEC/w=="), None),
        true,
    )
    .unwrap();
    assert_eq!(new.position_y, Some(vec![0, 1, 2, 255]));
    assert_eq!(new.position_y_end, None);
    assert_eq!(new.anchor_text.as_deref(), Some("anchor"));
    assert_eq!(new.mentions, vec![BOB]);
    assert_eq!((new.doc_id, new.author_id), (DOC, ALICE));
    let new = open_thread(
        &caller(ALICE),
        DOC,
        thread_body("x", None, None),
        Position::Absent,
        Position::Decoded(vec![9]),
        true,
    )
    .unwrap();
    assert_eq!((new.position_y, new.position_y_end), (None, Some(vec![9])));
}

#[test]
fn replies_are_checked_in_order() {
    let reply = |body: &str| {
        Received::Parsed(CreateReplyBody { body: body.to_string(), mentions: vec![] })
    };
    let refused = |r: Received<CreateReplyBody>, ready: bool| {
        code(&create_reply(&caller(ALICE), DOC, 5, r, ready).unwrap_err())
    };
    assert_eq!(refused(Received::Unreadable, true), (413, "comment.body_too_large", ""));
    assert_eq!(refused(Received::Malformed, true), (400, "bad_request", ""));
    assert_eq!(refused(reply(&"x".repeat(4097)), true), (413, "comment.body_too_large", ""));
    assert_eq!(refused(reply("x"), false), (500, "internal", ""));
    let new = create_reply(&caller(ALICE), DOC, 5, reply("x"), true).unwrap();
    assert_eq!((new.doc_id, new.thread_id, new.author_id), (DOC, 5, ALICE));
}

#[test]
fn what_the_store_says_is_answered() {
    let failed = |e| code(&comment_created(DOC, ALICE, vec![], Err(e)).unwrap_err());
    assert_eq!(failed(CommentStoreError::BodyTooLong), (413, "comment.body_too_large", ""));
    assert_eq!(failed(CommentStoreError::NotFound), (500, "internal", ""));
    assert_eq!(failed(CommentStoreError::Other), (500, "internal", ""));
    let failed = |e| code(&comment_edited(ALICE, Err(e)).unwrap_err());
    assert_eq!(failed(CommentStoreError::NotFound), (404, "comment.not_found", ""));
    assert_eq!(failed(CommentStoreError::BodyTooLong), (413, "comment.body_too_large", ""));
    assert_eq!(failed(CommentStoreError::Other), (500, "internal", ""));
    assert_eq!(thread_changed(&Ok(())).unwrap(), 204);
    assert_eq!(
        code(&thread_changed(&Err(CommentStoreError::NotFound)).unwrap_err()),
        (404, "comment.not_found", "thread not found or not a root")
    );
    assert_eq!(code(&thread_changed(&Err(CommentStoreError::Other)).unwrap_err()).0, 500);
    assert_eq!(stored(&Ok(())).unwrap(), 204);
    assert_eq!(code(&stored(&Err(CommentStoreError::NotFound)).unwrap_err()).0, 500);
    let edited = comment_edited(ALICE, Ok(said(50, ALICE, false))).unwrap();
    assert_eq!(edited.status, 200);
    assert_eq!(edited.event.write, CommentWrite::Edited);
    assert!(edited.event.explicit.is_empty());
}

#[test]
fn comments_of_other_documents_are_out_of_reach() {
    let elsewhere = Ok(Comment {
        id: 1,
        doc_id: DOC + 1,
        thread_id: 1,
        author_id: ALICE,
        body: String::new(),
        deleted: false,
    });
    let not_found = (404, "comment.not_found", "");
    let ctx = caller(ALICE).auth.unwrap();
    assert_eq!(code(&ensure_comment_in_doc(&elsewhere, DOC).unwrap_err()), not_found);
    assert_eq!(code(&edit_allowed(ALICE, DOC, &elsewhere).unwrap_err()), not_found);
    assert_eq!(code(&delete_allowed(&ctx, DOC, &elsewhere).unwrap_err()), not_found);
    let missing = Err(CommentStoreError::NotFound);
    assert_eq!(code(&ensure_comment_in_doc(&missing, DOC).unwrap_err()), not_found);
    let broken = Err(CommentStoreError::Other);
    assert_eq!(code(&ensure_comment_in_doc(&broken, DOC).unwrap_err()).0, 500);
    assert_eq!(code(&edit_allowed(ALICE, DOC, &broken).unwrap_err()).0, 500);
    assert_eq!(code(&delete_allowed(&ctx, DOC, &broken).unwrap_err()).0, 500);
    assert!(ensure_comment_in_doc(&Ok(said(50, BOB, false)), DOC).is_ok());
}

#[test]
fn authors_edit_and_owners_may_delete() {
    let bobs = Ok(said(50, BOB, false));
    assert!(edit_allowed(BOB, DOC, &bobs).is_ok());
    assert_eq!(
        code(&edit_allowed(ALICE, DOC, &bobs).unwrap_err()),
        (403, "comment.not_author", "only the author can edit")
    );
    let mut ctx = caller(ALICE).auth.unwrap();
    assert_eq!(
        code(&delete_allowed(&ctx, DOC, &bobs).unwrap_err()),
        (403, "comment.not_author", "only author or workspace owner can delete")
    );
    ctx.role = WorkspaceRole::Owner;
    assert!(delete_allowed(&ctx, DOC, &bobs).is_ok());
    assert!(edit_allowed(ctx.user_id, DOC, &bobs).is_err());
}

#[test]
fn reactions_are_from_the_list() {
    for e in ["👍", "🎉", "❤️", "🚀", "👀", "🙏"] {
        assert!(emoji_allowed(e));
    }
    for e in ["", "👎", "❤", "👍👍", "x"] {
        assert!(!emoji_allowed(e));
    }
    let react = |e: &str| Received::Parsed(ReactionBody { emoji: e.to_string() });
    let c = caller(BOB);
    assert_eq!(
        code(&add_reaction(&c, react("👎"), true).unwrap_err()),
        (415, "comment.invalid_emoji", "emoji not in allow-list")
    );
    assert_eq!(code(&add_reaction(&c, Received::Unreadable, true).unwrap_err()).0, 400);
    assert_eq!(code(&add_reaction(&c, Received::Malformed, true).unwrap_err()).0, 400);
    assert_eq!(code(&add_reaction(&c, react("👍"), false).unwrap_err()).0, 500);
    let r = add_reaction(&c, react("👍"), true).unwrap();
    assert_eq!((r.user_id, r.emoji.as_str()), (BOB, "👍"));
}

#[test]
fn edits_are_checked_in_order() {
    let edit = |b: &str| Received::Parsed(EditBody { body: b.to_string() });
    let c = caller(BOB);
    assert_eq!(code(&edit_comment(&c, Received::Unreadable, true).unwrap_err()).0, 413);
    assert_eq!(code(&edit_comment(&c, Received::Malformed, true).unwrap_err()).0, 400);
    assert_eq!(
        code(&edit_comment(&c, edit(&"x".repeat(4097)), true).unwrap_err()),
        (413, "comment.body_too_large", "")
    );
    assert_eq!(code(&edit_comment(&c, edit("x"), false).unwrap_err()).0, 500);
    let e = edit_comment(&c, edit("x"), true).unwrap();
    assert_eq!((e.editor_id, e.body.as_str()), (BOB, "x"));
}

#[test]
fn reading_and_changing_need_a_role() {
    let mut c = caller(BOB);
    assert!(list_comments(&c, true).is_none());
    assert_eq!(code(&list_comments(&c, false).unwrap()).0, 500);
    assert!(may_change(&c, true).is_ok());
    assert_eq!(code(&may_change(&c, false).unwrap_err()).0, 500);
    c.doc_role = Some(WorkspaceRole::Viewer);
    assert!(list_comments(&c, true).is_none());
    assert_eq!(code(&may_change(&c, true).unwrap_err()).1, "acl.editor_required");
    c.doc_role = None;
    assert_eq!(code(&list_comments(&c, true).unwrap()).1, "acl.no_grant");
    c.auth = None;
    assert_eq!(code(&list_comments(&c, true).unwrap()).1, "auth.session_required");
}
