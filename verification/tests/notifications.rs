use knot::ids::{uuid_to_text, Uuid};
use knot::notifications::{
    Batch, BatchNext, NameEntry, NewNotification, Notification, NotificationData,
    NotificationKind, NotificationStoreError, NotificationTable, References,
};
use knot::time::{Timestamp, DAY_MICROS};

const WS: Uuid = 10;
const DOC: Uuid = 20;
const ALICE: Uuid = 30;
const BOB: Uuid = 31;

/// Everything that these tests name is there.
fn refs() -> References {
    References {
        workspaces: (0..1000).collect(),
        users: (0..1000).collect(),
        docs: (0..1000).collect(),
    }
}

fn at(days: i64) -> Timestamp {
    Timestamp::from_micros(days * DAY_MICROS).unwrap()
}

fn users() -> Vec<NameEntry> {
    vec![
        NameEntry { id: ALICE, name: "Alice".to_string() },
        NameEntry { id: BOB, name: "Bob Smith".to_string() },
    ]
}

fn titles() -> Vec<NameEntry> {
    vec![NameEntry { id: DOC, name: "Doc".to_string() }]
}

fn list(
    t: &NotificationTable,
    user: Uuid,
    unread_only: bool,
    limit: i64,
    cursor: Option<i64>,
) -> Vec<Notification> {
    t.list(user, unread_only, limit, cursor, &users(), &titles())
}

fn mention_for(recipient: Uuid, actor: Uuid, comment: Uuid) -> NewNotification {
    NewNotification {
        workspace_id: WS,
        user_id: recipient,
        actor_id: Some(actor),
        kind: NotificationKind::Mention,
        doc_id: Some(DOC),
        target_kind: "comment".to_string(),
        target_id: uuid_to_text(comment),
        dedupe_key: format!("mention:{}", uuid_to_text(comment)),
        data: NotificationData::Other { json: "{\"excerpt\":\"hello @Bob Smith\"}".to_string() },
    }
}

#[test]
fn emit_then_list_returns_the_row_with_actor_and_doc_title() {
    let mut t = NotificationTable::new();
    assert!(t.emit(mention_for(BOB, ALICE, 1), at(0), &refs()).unwrap());

    let rows = list(&t, BOB, false, 50, None);
    assert_eq!(rows.len(), 1);
    assert_eq!(rows[0].kind, "mention");
    assert_eq!(rows[0].actor_display_name.as_deref(), Some("Alice"));
    assert_eq!(rows[0].doc_title.as_deref(), Some("Doc"));
    assert!(rows[0].read_at.is_none());

    // Alice is the actor, not a recipient.
    assert!(list(&t, ALICE, false, 50, None).is_empty());
}

#[test]
fn emit_is_idempotent_on_dedupe_key() {
    let mut t = NotificationTable::new();
    assert!(t.emit(mention_for(BOB, ALICE, 1), at(0), &refs()).unwrap(), "first emit inserts");
    assert!(!t.emit(mention_for(BOB, ALICE, 1), at(1), &refs()).unwrap(), "second emit is deduped");
    assert_eq!(list(&t, BOB, false, 50, None).len(), 1);
}

#[test]
fn self_notification_is_dropped() {
    let mut t = NotificationTable::new();
    // Alice mentions herself.
    assert!(!t.emit(mention_for(ALICE, ALICE, 1), at(0), &refs()).unwrap());
    assert!(list(&t, ALICE, false, 50, None).is_empty());
}

#[test]
fn unread_count_caps_and_mark_read_clears() {
    let mut t = NotificationTable::new();
    for comment in 0..3 {
        t.emit(mention_for(BOB, ALICE, comment), at(0), &refs()).unwrap();
    }
    assert_eq!(t.unread_count(BOB, 100), 3);
    // The cap actually binds.
    assert_eq!(t.unread_count(BOB, 2), 2);

    let rows = list(&t, BOB, true, 50, None);
    let first = rows[0].id;
    assert_eq!(t.mark_read(BOB, &vec![first], at(1)), 1);
    assert_eq!(t.unread_count(BOB, 100), 2);

    assert_eq!(t.mark_all_read(BOB, at(1)), 2);
    assert_eq!(t.unread_count(BOB, 100), 0);
    // Reading does not delete.
    assert_eq!(list(&t, BOB, false, 50, None).len(), 3);
    assert!(list(&t, BOB, true, 50, None).is_empty());
}

#[test]
fn mark_read_cannot_touch_another_users_rows() {
    let mut t = NotificationTable::new();
    t.emit(mention_for(BOB, ALICE, 1), at(0), &refs()).unwrap();
    let bobs = list(&t, BOB, true, 50, None);

    assert_eq!(t.mark_read(ALICE, &vec![bobs[0].id], at(0)), 0);
    assert_eq!(t.unread_count(BOB, 100), 1);
}

#[test]
fn list_pages_backwards_on_the_cursor() {
    let mut t = NotificationTable::new();
    for comment in 0..3 {
        t.emit(mention_for(BOB, ALICE, comment), at(0), &refs()).unwrap();
    }
    let page1 = list(&t, BOB, false, 2, None);
    assert_eq!(page1.len(), 2);
    let page2 = list(&t, BOB, false, 2, Some(page1[1].id));
    assert_eq!(page2.len(), 1);
    assert!(page2[0].id < page1[1].id, "ids descend across pages");
}

#[test]
fn prune_drops_read_rows_past_ninety_days_and_everything_past_one_eighty() {
    let now = at(1000);
    let mut t = NotificationTable::new();
    t.emit(mention_for(BOB, ALICE, 1), at(1000 - 200), &refs()).unwrap();
    t.emit(mention_for(BOB, ALICE, 2), at(1000 - 100), &refs()).unwrap();
    t.emit(mention_for(BOB, ALICE, 3), at(1000 - 100), &refs()).unwrap();
    let rows = list(&t, BOB, false, 50, None);
    // Row 0: read, 100 days old  -> pruned.
    // Row 1: unread, 100 days old -> kept.
    // Row 2: unread, 200 days old -> pruned.
    t.mark_read(BOB, &vec![rows[0].id], at(1000 - 100));

    assert_eq!(t.prune(now), 2);
    let left = list(&t, BOB, false, 50, None);
    assert_eq!(left.len(), 1);
    assert_eq!(left[0].id, rows[1].id);
}

#[test]
fn deleting_a_doc_cascades_its_notifications() {
    let mut t = NotificationTable::new();
    t.emit(mention_for(BOB, ALICE, 1), at(0), &refs()).unwrap();
    assert_eq!(t.remove_doc(DOC), 1);
    assert!(list(&t, BOB, false, 50, None).is_empty());
}

#[test]
fn deleting_another_doc_keeps_them() {
    let mut t = NotificationTable::new();
    t.emit(mention_for(BOB, ALICE, 1), at(0), &refs()).unwrap();
    assert_eq!(t.remove_doc(DOC + 1), 0);
    assert_eq!(list(&t, BOB, false, 50, None).len(), 1);
}

#[test]
fn retention_spares_assigned_tasks() {
    let mut t = NotificationTable::new();
    let mut assigned = mention_for(BOB, ALICE, 1);
    assigned.kind = NotificationKind::TaskAssigned;
    assigned.dedupe_key = "task_assigned:x".to_string();
    t.emit(assigned, at(0), &refs()).unwrap();
    t.emit(mention_for(BOB, ALICE, 2), at(0), &refs()).unwrap();
    t.mark_all_read(BOB, at(0));
    assert_eq!(t.prune(at(500)), 1);
    let left = list(&t, BOB, false, 50, None);
    assert_eq!(left.len(), 1);
    assert_eq!(left[0].kind, "task_assigned");
    // Pruning again finds nothing.
    assert_eq!(t.prune(at(500)), 0);
    // The assignment is still known.
    let mut again = mention_for(BOB, ALICE, 1);
    again.kind = NotificationKind::TaskAssigned;
    again.dedupe_key = "task_assigned:x".to_string();
    assert!(!t.emit(again, at(501), &refs()).unwrap());
}

#[test]
fn retention_counts_whole_spans() {
    let mut t = NotificationTable::new();
    t.emit(mention_for(BOB, ALICE, 1), at(0), &refs()).unwrap();
    t.mark_all_read(BOB, at(0));
    assert_eq!(t.prune(at(90)), 0);
    assert_eq!(t.prune(Timestamp::from_micros(90 * DAY_MICROS + 1).unwrap()), 1);

    let mut t = NotificationTable::new();
    t.emit(mention_for(BOB, ALICE, 1), at(0), &refs()).unwrap();
    assert_eq!(t.prune(at(180)), 0);
    assert_eq!(t.prune(Timestamp::from_micros(180 * DAY_MICROS + 1).unwrap()), 1);
}

#[test]
fn reading_does_not_reopen_a_key() {
    let mut t = NotificationTable::new();
    t.emit(mention_for(BOB, ALICE, 1), at(0), &refs()).unwrap();
    t.mark_all_read(BOB, at(1));
    assert!(!t.emit(mention_for(BOB, ALICE, 1), at(2), &refs()).unwrap());
    assert_eq!(t.unread_count(BOB, 10), 0);
}

#[test]
fn one_key_serves_several_recipients() {
    let mut t = NotificationTable::new();
    assert!(t.emit(mention_for(BOB, ALICE, 1), at(0), &refs()).unwrap());
    assert!(t.emit(mention_for(32, ALICE, 1), at(0), &refs()).unwrap());
    assert_eq!(list(&t, 32, false, 50, None).len(), 1);
}

#[test]
fn batches_count_what_they_created() {
    let mut t = NotificationTable::new();
    let batch = vec![
        mention_for(BOB, ALICE, 1),
        mention_for(ALICE, ALICE, 1),
        mention_for(BOB, ALICE, 1),
        mention_for(BOB, ALICE, 2),
    ];
    assert_eq!(t.emit_many(batch, at(0), &refs()).unwrap(), 2);
    let rows = list(&t, BOB, false, 50, None);
    assert_eq!(rows[0].target_id, uuid_to_text(2));
    assert_eq!(rows[1].target_id, uuid_to_text(1));
    assert!(rows[0].id > rows[1].id);
    let again = vec![mention_for(BOB, ALICE, 2), mention_for(BOB, ALICE, 1)];
    assert_eq!(t.emit_many(again, at(1), &refs()).unwrap(), 0);
}

#[test]
fn replicas_converge_whatever_the_order() {
    let mut a = NotificationTable::new();
    let mut b = NotificationTable::new();
    a.emit(mention_for(BOB, ALICE, 1), at(0), &refs()).unwrap();
    a.emit(mention_for(BOB, ALICE, 2), at(0), &refs()).unwrap();
    b.emit(mention_for(BOB, ALICE, 2), at(0), &refs()).unwrap();
    b.emit(mention_for(BOB, ALICE, 1), at(0), &refs()).unwrap();
    assert!(!a.emit(mention_for(BOB, ALICE, 1), at(1), &refs()).unwrap());
    assert!(!b.emit(mention_for(BOB, ALICE, 2), at(1), &refs()).unwrap());
    assert_eq!(list(&a, BOB, false, 50, None).len(), list(&b, BOB, false, 50, None).len());
}

#[test]
fn pages_of_unread_rows_skip_the_read_ones() {
    let mut t = NotificationTable::new();
    for comment in 0..4 {
        t.emit(mention_for(BOB, ALICE, comment), at(0), &refs()).unwrap();
    }
    let all = list(&t, BOB, false, 50, None);
    t.mark_read(BOB, &vec![all[1].id], at(0));
    let unread = list(&t, BOB, true, 2, None);
    assert_eq!(unread[0].id, all[0].id);
    assert_eq!(unread[1].id, all[2].id);
    let rest = list(&t, BOB, true, 2, Some(unread[1].id));
    assert_eq!(rest.len(), 1);
    assert_eq!(rest[0].id, all[3].id);
    assert!(list(&t, BOB, true, 0, None).is_empty());
    assert_eq!(t.mark_read(BOB, &vec![], at(0)), 0);
    assert_eq!(t.mark_read(BOB, &vec![all[1].id], at(0)), 0);
}

#[test]
fn kinds_have_their_stored_names() {
    assert_eq!(NotificationKind::Mention.as_str(), "mention");
    assert_eq!(NotificationKind::Reply.as_str(), "reply");
    assert_eq!(NotificationKind::TaskAssigned.as_str(), "task_assigned");
    assert_eq!(NotificationKind::TaskDue.as_str(), "task_due");
    assert_eq!(NotificationKind::DocShared.as_str(), "doc_shared");
}

const UNKNOWN: Result<bool, NotificationStoreError> =
    Err(NotificationStoreError::UnknownReference);

#[test]
fn a_row_names_only_what_is_there() {
    let mut t = NotificationTable::new();
    let mut without = refs();
    without.users.retain(|u| *u != BOB);
    assert_eq!(t.emit(mention_for(BOB, ALICE, 1), at(0), &without), UNKNOWN);
    assert_eq!(t.emit(mention_for(32, BOB, 1), at(0), &without), UNKNOWN);
    let mut without = refs();
    without.workspaces.retain(|w| *w != WS);
    assert_eq!(t.emit(mention_for(BOB, ALICE, 1), at(0), &without), UNKNOWN);
    let mut without = refs();
    without.docs.retain(|d| *d != DOC);
    assert_eq!(t.emit(mention_for(BOB, ALICE, 1), at(0), &without), UNKNOWN);
    assert_eq!(t.unread_count(BOB, 100), 0);
    // What calls for no row is no error.
    assert_eq!(t.emit(mention_for(BOB, BOB, 1), at(0), &without), Ok(false));
    assert_eq!(t.emit(mention_for(BOB, ALICE, 1), at(0), &refs()), Ok(true));
    assert_eq!(t.emit(mention_for(BOB, ALICE, 1), at(1), &without), Ok(false));
    // Nor is an actor or a document that is not named.
    let mut bare = mention_for(BOB, ALICE, 2);
    bare.actor_id = None;
    bare.doc_id = None;
    assert_eq!(t.emit(bare, at(1), &without), Ok(true));
}

#[test]
fn a_failure_in_the_middle_keeps_what_was_stored_and_tries_no_more() {
    let mut known = refs();
    known.users.retain(|u| *u != 32);
    let batch = || {
        vec![
            mention_for(BOB, ALICE, 1),
            mention_for(ALICE, ALICE, 1),
            mention_for(32, ALICE, 1),
            mention_for(BOB, ALICE, 2),
        ]
    };
    let mut t = NotificationTable::new();
    let failed = Err(NotificationStoreError::UnknownReference);
    assert_eq!(t.emit_many(batch(), at(0), &known), failed);
    let rows = list(&t, BOB, false, 50, None);
    assert_eq!(rows.len(), 1);
    assert_eq!(rows[0].target_id, mention_for(BOB, ALICE, 1).target_id);
    // Together none is stored.
    let mut t = NotificationTable::new();
    assert_eq!(t.emit_together(batch(), at(0), &known), failed);
    assert_eq!(t.unread_count(BOB, 100), 0);
    assert_eq!(t.emit_together(batch(), at(0), &refs()), Ok(3));
    assert_eq!(t.unread_count(BOB, 100), 2);
}

#[test]
fn a_batch_goes_from_one_to_the_next_until_one_fails() {
    let (b, next) = Batch::begin::<&str>(0);
    assert!(matches!(next, BatchNext::Stored(0)));
    assert_eq!(b, Batch { len: 0, tried: 0, created: 0 });
    let (b, next) = Batch::begin::<&str>(3);
    assert!(matches!(next, BatchNext::Try(0)));
    let (b, next) = b.next::<&str>(Ok(true));
    assert!(matches!(next, BatchNext::Try(1)));
    let (b, next) = b.next::<&str>(Ok(false));
    assert!(matches!(next, BatchNext::Try(2)));
    assert!(matches!(b.next(Err("lost")).1, BatchNext::Failed("lost")));
    assert!(matches!(b.next::<&str>(Ok(true)).1, BatchNext::Stored(2)));
}
