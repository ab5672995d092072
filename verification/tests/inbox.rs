use knot::access::{AuthContext, WorkspaceRole};
use knot::collab::RoleLookup;
use knot::grants::emit_doc_shared;
use knot::http::Received;
use knot::ids::{uuid_to_text, Uuid};
use knot::inbox::{
    count_response, is_capped, list, mark_read, marked, page_response, unread_count, ListQuery,
    ListResponse, ReadBody, ToRead, UNREAD_CAP,
};
use knot::notifications::{
    NameEntry, NewNotification, NotificationData, NotificationKind, NotificationTable, References,
};
use knot::time::Timestamp;

const WS: Uuid = 1;
const DOC: Uuid = 2;
const ALICE: Uuid = 10;
const BOB: Uuid = 11;

/// Everything that these tests name is there.
fn refs() -> References {
    References {
        workspaces: (0..1000).collect(),
        users: (0..1000).collect(),
        docs: (0..1000).collect(),
    }
}

#[test]
fn not_capped_below_the_limit() {
    assert!(!is_capped(4, 5));
}

#[test]
fn capped_at_and_above_the_limit() {
    assert!(is_capped(5, 5), "count == cap must already read as capped");
    assert!(is_capped(6, 5));
}

fn at(micros: i64) -> Timestamp {
    Timestamp::from_micros(micros).unwrap()
}

fn auth(user_id: Uuid) -> Option<AuthContext> {
    Some(AuthContext { user_id, workspace_id: WS, role: WorkspaceRole::Editor })
}

fn mention(doc: Option<Uuid>, comment: Uuid) -> NewNotification {
    NewNotification {
        workspace_id: WS,
        user_id: BOB,
        actor_id: Some(ALICE),
        kind: NotificationKind::Mention,
        doc_id: doc,
        target_kind: "comment".to_string(),
        target_id: uuid_to_text(comment),
        dedupe_key: format!("mention:{}", uuid_to_text(comment)),
        data: NotificationData::Comment {
            excerpt: "hey @Bob".to_string(),
            doc_title: "Test Doc".to_string(),
            thread_id: comment,
        },
    }
}

fn ask(filter: Option<&str>, limit: Option<i64>, cursor: Option<i64>) -> ListQuery {
    ListQuery { filter: filter.map(|f| f.to_string()), limit, cursor }
}

/// Answers a request for a page as the endpoint does, with a role on every
/// document but those in `unreadable`.
fn get(
    t: &NotificationTable,
    user: Uuid,
    q: ListQuery,
    unreadable: &[Uuid],
) -> ListResponse {
    let p = list(auth(user), true, &q).unwrap();
    let users = vec![NameEntry { id: ALICE, name: "Alice".to_string() }];
    let docs = vec![NameEntry { id: DOC, name: "Test Doc".to_string() }];
    let rows = t.list(p.ctx.user_id, p.unread_only, p.limit, p.cursor, &users, &docs);
    let checks: Vec<RoleLookup> = rows
        .iter()
        .map(|r| match r.doc_id {
            Some(d) if unreadable.contains(&d) => RoleLookup::NoRole,
            _ => RoleLookup::Role(WorkspaceRole::Viewer),
        })
        .collect();
    page_response(&rows, &checks, p.limit).unwrap()
}

#[test]
fn inbox_lists_counts_and_marks_read() {
    let mut t = NotificationTable::new();
    t.emit(mention(Some(DOC), 1), at(0), &refs()).unwrap();

    let ctx = unread_count(auth(BOB), true).unwrap();
    let count = count_response(t.unread_count(ctx.user_id, UNREAD_CAP));
    assert_eq!(count.count, 1);
    assert_eq!(count.capped, false);

    let items = get(&t, BOB, ask(Some("unread"), None, None), &[]).items;
    assert_eq!(items.len(), 1);
    assert_eq!(items[0].kind, "mention");
    assert_eq!(items[0].doc_title.as_deref(), Some("Test Doc"));
    assert_eq!(items[0].actor_display_name.as_deref(), Some("Alice"));
    assert_eq!(items[0].read, false);
    assert_eq!(items[0].doc_id, Some(uuid_to_text(DOC)));
    assert_eq!(items[0].created_at, "1970-01-01T00:00:00+00:00");

    let body = ReadBody { ids: vec![items[0].id], all: false };
    match mark_read(auth(BOB), true, Received::Parsed(body)).unwrap() {
        (user, ToRead::These(ids)) => {
            assert_eq!(t.mark_read(user, &ids, at(1)), 1);
        }
        other => panic!("{other:?}"),
    }
    assert_eq!(marked(true).unwrap(), 204);
    assert_eq!(t.unread_count(BOB, UNREAD_CAP), 0);
}

#[test]
fn the_inbox_is_per_user() {
    let mut t = NotificationTable::new();
    t.emit(mention(Some(DOC), 1), at(0), &refs()).unwrap();
    // Alice sees nothing — the row belongs to Bob.
    assert!(get(&t, ALICE, ask(None, None, None), &[]).items.is_empty());
}

#[test]
fn a_row_for_a_doc_the_user_cannot_read_is_filtered_out() {
    let mut t = NotificationTable::new();
    t.emit(mention(Some(DOC), 1), at(0), &refs()).unwrap();
    assert_eq!(get(&t, BOB, ask(None, None, None), &[]).items.len(), 1);
    let other_doc = 99;
    let mut shared = emit_doc_shared(98, "Elsewhere", other_doc, BOB, ALICE);
    shared.actor_id = None;
    t.emit(shared, at(1), &refs()).unwrap();
    assert_eq!(get(&t, BOB, ask(None, None, None), &[]).items.len(), 2);
    let items = get(&t, BOB, ask(None, None, None), &[other_doc]).items;
    assert_eq!(items.len(), 1, "the unreadable row is filtered, not 403'd");
    assert_eq!(items[0].kind, "mention");
}

#[test]
fn mark_read_with_all_true_clears_the_whole_inbox() {
    let mut t = NotificationTable::new();
    t.emit(mention(Some(DOC), 1), at(0), &refs()).unwrap();
    t.emit(emit_doc_shared(WS, "Test Doc", DOC, BOB, ALICE), at(0), &refs()).unwrap();
    assert_eq!(t.unread_count(BOB, UNREAD_CAP), 2, "sanity: two unread rows before marking");
    let body = ReadBody { ids: vec![], all: true };
    match mark_read(auth(BOB), true, Received::Parsed(body)).unwrap() {
        (user, ToRead::All) => {
            t.mark_all_read(user, at(1));
        }
        other => panic!("{other:?}"),
    }
    assert_eq!(t.unread_count(BOB, UNREAD_CAP), 0, "all: true must clear every unread row");
    let items = get(&t, BOB, ask(None, None, None), &[]).items;
    assert_eq!(items.len(), 2);
    assert!(items.iter().all(|i| i.read), "every row must now be marked read: {items:?}");
}

#[test]
fn limits_are_kept_in_bounds() {
    let limit = |l: Option<i64>| list(auth(BOB), true, &ask(None, l, None)).unwrap().limit;
    assert_eq!(limit(None), 50);
    assert_eq!(limit(Some(0)), 1);
    assert_eq!(limit(Some(-5)), 1);
    assert_eq!(limit(Some(7)), 7);
    assert_eq!(limit(Some(100)), 100);
    assert_eq!(limit(Some(101)), 100);
    let unread = |f: Option<&str>| list(auth(BOB), true, &ask(f, None, Some(9))).unwrap();
    assert!(unread(Some("unread")).unread_only);
    assert!(!unread(Some("all")).unread_only);
    assert!(!unread(None).unread_only);
    assert_eq!(unread(None).cursor, Some(9));
}

#[test]
fn a_full_page_says_where_the_next_one_starts() {
    let mut t = NotificationTable::new();
    for c in 0..3 {
        t.emit(mention(Some(DOC), c), at(0), &refs()).unwrap();
    }
    let first = get(&t, BOB, ask(None, Some(2), None), &[]);
    assert_eq!(first.items.len(), 2);
    assert_eq!(first.next_cursor, Some(first.items[1].id));
    let second = get(&t, BOB, ask(None, Some(2), first.next_cursor), &[]);
    assert_eq!(second.items.len(), 1);
    assert_eq!(second.next_cursor, None);
    // Rows that are left out still count for the page.
    let hidden = get(&t, BOB, ask(None, Some(2), None), &[DOC]);
    assert!(hidden.items.is_empty());
    assert_eq!(hidden.next_cursor, first.next_cursor);
}

#[test]
fn a_failed_check_fails_the_page() {
    let mut t = NotificationTable::new();
    t.emit(mention(Some(DOC), 1), at(0), &refs()).unwrap();
    t.emit(mention(None, 2), at(0), &refs()).unwrap();
    let none: Vec<NameEntry> = vec![];
    let rows = t.list(BOB, false, 50, None, &none, &none);
    let failed = vec![RoleLookup::Role(WorkspaceRole::Owner), RoleLookup::Failed];
    let e = page_response(&rows, &failed, 50).unwrap_err();
    assert_eq!((e.status, e.code), (500, "internal"));
    // A row without a document needs no check.
    let skipped = vec![RoleLookup::Failed, RoleLookup::NoRole];
    let page = page_response(&rows, &skipped, 50).unwrap();
    assert_eq!(page.items.len(), 1);
    assert_eq!(page.items[0].doc_id, None);
}

#[test]
fn requests_are_refused_in_order() {
    let e = list(None, false, &ask(None, None, None)).unwrap_err();
    assert_eq!((e.status, e.code), (401, "auth.session_required"));
    assert_eq!(list(auth(BOB), false, &ask(None, None, None)).unwrap_err().status, 500);
    assert_eq!(unread_count(None, true).unwrap_err().status, 401);
    assert_eq!(unread_count(auth(BOB), false).unwrap_err().status, 500);
    assert_eq!(mark_read(None, true, Received::Unreadable).unwrap_err().status, 401);
    assert_eq!(mark_read(auth(BOB), false, Received::Unreadable).unwrap_err().status, 500);
    let e = mark_read(auth(BOB), true, Received::Unreadable).unwrap_err();
    assert_eq!((e.status, e.code), (413, "bad_request"));
    let e = mark_read(auth(BOB), true, Received::Malformed).unwrap_err();
    assert_eq!((e.status, e.code), (400, "bad_request"));
    assert_eq!(marked(false).unwrap_err().status, 500);
}

#[test]
fn the_badge_is_capped_at_a_hundred() {
    assert!(!count_response(99).capped);
    assert!(count_response(100).capped);
    assert_eq!(count_response(7).count, 7);
}
