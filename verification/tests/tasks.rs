use knot::ids::{uuid_to_text, Uuid};
use knot::notifications::{
    NameEntry, NotificationData, NotificationKind, NotificationStoreError, NotificationTable,
    References,
};
use knot::tasks::{task_assigned_dedupe_key, task_id, upsert_and_notify, DocTaskInput, TaskTable};
use knot::time::{Timestamp, DAY_MICROS};

const WS: Uuid = 1;
const DOC: Uuid = 2;
const USER: Uuid = 3;
const ACTOR: Uuid = 4;

/// Everything that these tests name is there.
fn refs() -> References {
    References {
        workspaces: (0..1000).collect(),
        users: (0..1000).collect(),
        docs: (0..1000).collect(),
    }
}

fn at(days: i64) -> Timestamp {
    Timestamp::from_micros(days * DAY_MICROS).unwrap()
}

fn item(item_index: i32, text: &str, checked: bool) -> DocTaskInput {
    DocTaskInput {
        item_index,
        text: text.to_string(),
        assignee_user_id: Some(USER),
        checked,
        due_at: None,
    }
}

#[test]
fn upsert_then_list_returns_rows() {
    let mut store = TaskTable::new();
    let items = vec![item(0, "Buy milk", false), item(1, "Read book", true)];
    store.upsert_for_doc(WS, DOC, &items, None, at(0));
    assert_eq!(store.list_for_doc(DOC).len(), 2);
    assert_eq!(store.list_for_assignee(WS, USER, true).len(), 2);
}

#[test]
fn list_excludes_completed_by_default() {
    let mut store = TaskTable::new();
    let items = vec![item(0, "Open", false), item(1, "Done", true)];
    store.upsert_for_doc(WS, DOC, &items, None, at(0));
    let open_only = store.list_for_assignee(WS, USER, false);
    assert_eq!(open_only.len(), 1);
    assert_eq!(open_only[0].text, "Open");
}

#[test]
fn upsert_replaces_set_dropping_removed_items() {
    let mut store = TaskTable::new();
    // First pass: three items.
    let v1 = vec![item(0, "A", false), item(1, "B", false), item(2, "C", false)];
    store.upsert_for_doc(WS, DOC, &v1, None, at(0));
    assert_eq!(store.list_for_doc(DOC).len(), 3);
    // Second pass: only index 0 and 2 remain. Index 1 must be deleted.
    let v2 = vec![item(0, "A", false), item(2, "C-renamed", false)];
    store.upsert_for_doc(WS, DOC, &v2, None, at(1));
    let after = store.list_for_doc(DOC);
    assert_eq!(after.len(), 2);
    assert!(after.iter().any(|t| t.item_index == 0));
    assert!(after.iter().any(|t| t.item_index == 2));
    assert!(after.iter().all(|t| t.item_index != 1));
    // C's text reflects the rename.
    let c = after.iter().find(|t| t.item_index == 2).unwrap();
    assert_eq!(c.text, "C-renamed");
}

#[test]
fn empty_upsert_clears_all_doc_tasks() {
    let mut store = TaskTable::new();
    store.upsert_for_doc(WS, DOC, &vec![item(0, "only", false)], None, at(0));
    assert_eq!(store.list_for_doc(DOC).len(), 1);
    store.upsert_for_doc(WS, DOC, &vec![], None, at(0));
    assert_eq!(store.list_for_doc(DOC).len(), 0);
}

#[test]
fn checked_transition_stamps_completed_at_and_clears_on_uncheck() {
    let mut store = TaskTable::new();
    // Start unchecked.
    store.upsert_for_doc(WS, DOC, &vec![item(0, "t", false)], None, at(0));
    assert!(store.list_for_doc(DOC)[0].completed_at.is_none());
    // Flip to checked: completed_at populated.
    store.upsert_for_doc(WS, DOC, &vec![item(0, "t", true)], None, at(1));
    assert!(store.list_for_doc(DOC)[0].completed_at.is_some());
    // Flip back: completed_at cleared.
    store.upsert_for_doc(WS, DOC, &vec![item(0, "t", false)], None, at(2));
    assert!(store.list_for_doc(DOC)[0].completed_at.is_none());
}

#[test]
fn unchanged_checked_preserves_completed_at_across_reindex() {
    let mut store = TaskTable::new();
    // Land as checked once: completed_at populated.
    store.upsert_for_doc(WS, DOC, &vec![item(0, "t", true)], None, at(0));
    let first = store.list_for_doc(DOC)[0]
        .completed_at
        .expect("expected completed_at after first check");
    // Re-upsert identical checked=true content; completed_at must not move.
    store.upsert_for_doc(WS, DOC, &vec![item(0, "t", true)], None, at(5));
    let second = store.list_for_doc(DOC)[0]
        .completed_at
        .expect("expected completed_at preserved across reindex");
    assert_eq!(first, second);
    assert_eq!(store.list_for_doc(DOC)[0].created_at, at(0));
    assert_eq!(store.list_for_doc(DOC)[0].updated_at, at(5));
}

#[test]
fn identifiers_name_document_and_place() {
    assert_eq!(task_id(0xabc, 7), "00000000-0000-0000-0000-000000000abc:7");
    assert_eq!(task_id(0, -1), "00000000-0000-0000-0000-000000000000:-1");
    assert_eq!(task_id(0, i32::MIN), format!("{}:-2147483648", uuid_to_text(0)));
}

#[test]
fn assignment_keys_hold_the_start_of_the_digest() {
    // SHA-256 of "abc" starts with ba7816bf8f01cfea.
    assert_eq!(
        task_assigned_dedupe_key(1, "abc", 2),
        "task_assigned:00000000-0000-0000-0000-000000000001:ba7816bf8f01cfea:\
         00000000-0000-0000-0000-000000000002"
    );
    // SHA-256 of nothing starts with e3b0c44298fc1c14.
    assert!(task_assigned_dedupe_key(1, "", 2).contains(":e3b0c44298fc1c14:"));
    let key = task_assigned_dedupe_key(1, "ü", 2);
    assert_ne!(key, task_assigned_dedupe_key(1, "u", 2));
    assert_eq!(key.len(), "task_assigned:".len() + 90);
}

#[test]
fn an_assignment_notifies_the_assignee() {
    let mut store = TaskTable::new();
    let notes = store.upsert_for_doc(WS, DOC, &vec![item(3, "t", false)], Some(ACTOR), at(0));
    assert_eq!(notes.len(), 1);
    let n = &notes[0];
    assert_eq!(n.user_id, USER);
    assert_eq!(n.actor_id, Some(ACTOR));
    assert_eq!(n.kind, NotificationKind::TaskAssigned);
    assert_eq!(n.doc_id, Some(DOC));
    assert_eq!(n.workspace_id, WS);
    assert_eq!(n.target_kind, "task");
    assert_eq!(n.target_id, task_id(DOC, 3));
    assert_eq!(n.dedupe_key, task_assigned_dedupe_key(DOC, "t", USER));
    assert!(matches!(&n.data, NotificationData::Task { text } if text == "t"));
}

#[test]
fn finished_unassigned_and_own_tasks_notify_nobody() {
    let mut store = TaskTable::new();
    let mut unassigned = item(1, "free", false);
    unassigned.assignee_user_id = None;
    let items = vec![item(0, "done", true), unassigned];
    assert!(store.upsert_for_doc(WS, DOC, &items, Some(ACTOR), at(0)).is_empty());
    let own = vec![item(0, "mine", false)];
    assert!(store.upsert_for_doc(WS, DOC, &own, Some(USER), at(0)).is_empty());
    // Without an actor nothing is taken for one's own.
    assert_eq!(store.upsert_for_doc(WS, DOC, &own, None, at(0)).len(), 1);
}

#[test]
fn reordering_notifies_nobody_again_and_editing_does() {
    let none: Vec<NameEntry> = vec![];
    let mut store = TaskTable::new();
    let mut inbox = NotificationTable::new();
    let first = vec![item(0, "one", false), item(1, "two", false)];
    let notes = store.upsert_for_doc(WS, DOC, &first, Some(ACTOR), at(0));
    assert_eq!(inbox.emit_many(notes, at(0), &refs()).unwrap(), 2);
    // Swapped, with another item in front.
    let mut unassigned = item(0, "new", false);
    unassigned.assignee_user_id = None;
    let second = vec![unassigned, item(1, "two", false), item(2, "one", false)];
    let notes = store.upsert_for_doc(WS, DOC, &second, Some(ACTOR), at(1));
    assert_eq!(inbox.emit_many(notes, at(1), &refs()).unwrap(), 0);
    // Edited.
    let third = vec![item(0, "one!", false)];
    let notes = store.upsert_for_doc(WS, DOC, &third, Some(ACTOR), at(2));
    assert_eq!(inbox.emit_many(notes, at(2), &refs()).unwrap(), 1);
    // Two items with one text notify once.
    let fourth = vec![item(0, "same", false), item(1, "same", false)];
    let notes = store.upsert_for_doc(WS, DOC, &fourth, Some(ACTOR), at(3));
    assert_eq!(notes.len(), 2);
    assert_eq!(inbox.emit_many(notes, at(3), &refs()).unwrap(), 1);
    assert_eq!(inbox.list(USER, false, 50, None, &none, &none).len(), 4);
}

#[test]
fn other_documents_are_left_alone() {
    let mut store = TaskTable::new();
    store.upsert_for_doc(WS, DOC, &vec![item(0, "a", false)], None, at(0));
    store.upsert_for_doc(WS, 9, &vec![item(0, "b", true)], None, at(1));
    store.upsert_for_doc(WS, DOC, &vec![], None, at(2));
    let left = store.list_for_doc(9);
    assert_eq!(left.len(), 1);
    assert_eq!(left[0].text, "b");
    assert_eq!(left[0].updated_at, at(1));
}

#[test]
fn a_place_that_comes_twice_takes_the_later_item() {
    let mut store = TaskTable::new();
    let items = vec![item(0, "first", true), item(0, "second", true)];
    store.upsert_for_doc(WS, DOC, &items, None, at(0));
    let rows = store.list_for_doc(DOC);
    assert_eq!(rows.len(), 1);
    assert_eq!(rows[0].text, "second");
}

#[test]
fn lists_are_ordered_by_due_time_then_update() {
    let mut store = TaskTable::new();
    let mut late = item(0, "late", false);
    late.due_at = Some(at(9));
    let mut soon = item(1, "soon", false);
    soon.due_at = Some(at(3));
    let mut done = item(2, "done", true);
    done.due_at = Some(at(1));
    let undated = item(3, "undated", false);
    store.upsert_for_doc(WS, DOC, &vec![undated, done, late, soon], None, at(0));
    store.upsert_for_doc(WS, 9, &vec![item(0, "newer undated", false)], None, at(1));
    let texts: Vec<String> =
        store.list_for_assignee(WS, USER, true).into_iter().map(|t| t.text).collect();
    assert_eq!(texts, ["soon", "late", "newer undated", "undated", "done"]);
    let open: Vec<String> =
        store.list_for_assignee(WS, USER, false).into_iter().map(|t| t.text).collect();
    assert_eq!(open, ["soon", "late", "newer undated", "undated"]);
    assert!(store.list_for_assignee(WS + 1, USER, true).is_empty());
    assert!(store.list_for_assignee(WS, USER + 1, true).is_empty());
    let places: Vec<i32> = store.list_for_doc(DOC).into_iter().map(|t| t.item_index).collect();
    assert_eq!(places, [0, 1, 2, 3]);
}

#[test]
fn stored_rows_load_where_they_form_an_index() {
    let mut store = TaskTable::new();
    store.upsert_for_doc(WS, DOC, &vec![item(0, "a", false), item(1, "b", false)], None, at(0));
    let rows = store.into_rows();
    let again = TaskTable::load(rows).unwrap();
    assert_eq!(again.rows().len(), 2);
    let mut rows = again.into_rows();
    rows[1].item_index = 5;
    assert!(TaskTable::load(rows).is_none());
    let mut store = TaskTable::new();
    store.upsert_for_doc(WS, DOC, &vec![item(0, "a", false)], None, at(0));
    let mut twice = store.into_rows();
    twice.push(twice[0].clone());
    assert!(TaskTable::load(twice).is_none());
}

#[test]
fn tasks_and_their_notifications_are_stored_both_or_neither() {
    let none: Vec<NameEntry> = vec![];
    let mut tasks = TaskTable::new();
    let mut inbox = NotificationTable::new();
    let items = vec![item(0, "one", false), item(1, "two", false)];
    let mut known = refs();
    known.users.retain(|u| *u != USER);
    let by = Some(ACTOR);
    let r = upsert_and_notify(&mut tasks, &mut inbox, WS, DOC, &items, by, at(0), &known);
    assert_eq!(r, Err(NotificationStoreError::UnknownReference));
    assert!(tasks.list_for_doc(DOC).is_empty());
    assert!(inbox.list(USER, false, 50, None, &none, &none).is_empty());
    let r = upsert_and_notify(&mut tasks, &mut inbox, WS, DOC, &items, by, at(0), &refs());
    assert_eq!(r, Ok(()));
    assert_eq!(tasks.list_for_doc(DOC).len(), 2);
    assert_eq!(inbox.list(USER, false, 50, None, &none, &none).len(), 2);
}
