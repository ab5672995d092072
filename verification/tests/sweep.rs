use knot::ids::Uuid;
use knot::notifications::{
    NameEntry, NewNotification, NotificationData, NotificationKind, NotificationStoreError,
    NotificationTable, References,
};
use knot::sweep::{due_notification, run_once, SweepOutcome};
use knot::tasks::{task_assigned_dedupe_key, DocTaskInput, TaskTable};
use knot::time::{Timestamp, DAY_MICROS};

const WS: Uuid = 1;
const DOC: Uuid = 2;
const ALICE: Uuid = 3;
const BOB: Uuid = 4;

/// Everything that these tests name is there.
fn refs() -> References {
    References {
        workspaces: (0..1000).collect(),
        users: (0..1000).collect(),
        docs: (0..1000).collect(),
    }
}

fn at(micros: i64) -> Timestamp {
    Timestamp::from_micros(micros).unwrap()
}

const NOW: i64 = 20_000 * DAY_MICROS + 5_000_000;

fn item(place: i32, text: &str, checked: bool, due: i64) -> DocTaskInput {
    DocTaskInput {
        item_index: place,
        text: text.to_string(),
        assignee_user_id: Some(BOB),
        checked,
        due_at: Some(at(due)),
    }
}

fn rows_of(inbox: &NotificationTable, user: Uuid) -> usize {
    let none: Vec<NameEntry> = vec![];
    inbox.list(user, false, 50, None, &none, &none).len()
}

#[test]
fn overdue_task_emits_once_per_day_even_across_concurrent_sweeps() {
    let mut tasks = TaskTable::new();
    let mut inbox = NotificationTable::new();
    let items = vec![item(0, "overdue thing", false, NOW - DAY_MICROS)];
    let notes = tasks.upsert_for_doc(WS, DOC, &items, Some(ALICE), at(NOW));
    inbox.emit_many(notes, at(NOW), &refs()).unwrap();
    // The assignment itself notified once; count from there.
    let before = rows_of(&inbox, BOB);

    // Two replicas sweeping at the same moment.
    let a = run_once(&tasks, &mut inbox, at(NOW), &refs()).unwrap();
    let b = run_once(&tasks, &mut inbox, at(NOW), &refs()).unwrap();
    assert_eq!(a.due_emitted + b.due_emitted, 1, "concurrent sweeps must produce exactly one row");
    assert_eq!(rows_of(&inbox, BOB), before + 1);
    let none: Vec<NameEntry> = vec![];
    assert!(inbox.list(BOB, false, 50, None, &none, &none).iter().any(|r| r.kind == "task_due"));

    // Same day again: nothing new.
    let again = run_once(&tasks, &mut inbox, at(NOW), &refs()).unwrap();
    assert_eq!(again.due_emitted, 0);
    let later_that_day = run_once(&tasks, &mut inbox, at(NOW + 3_600_000_000), &refs()).unwrap();
    assert_eq!(later_that_day.due_emitted, 0);

    // Tomorrow: one more.
    let tomorrow = run_once(&tasks, &mut inbox, at(NOW + DAY_MICROS), &refs()).unwrap();
    assert_eq!(tomorrow.due_emitted, 1);
}

#[test]
fn a_checked_task_is_never_overdue() {
    let mut tasks = TaskTable::new();
    let mut inbox = NotificationTable::new();
    let items = vec![item(0, "already done", true, NOW - 3 * DAY_MICROS)];
    tasks.upsert_for_doc(WS, DOC, &items, Some(ALICE), at(NOW));
    assert_eq!(run_once(&tasks, &mut inbox, at(NOW), &refs()).unwrap().due_emitted, 0);
}

#[test]
fn run_once_prunes_via_the_notification_store_and_reports_the_count() {
    let mut inbox = NotificationTable::new();
    inbox.emit(
        NewNotification {
            workspace_id: WS,
            user_id: BOB,
            actor_id: Some(ALICE),
            kind: NotificationKind::Mention,
            doc_id: Some(DOC),
            target_kind: "comment".to_string(),
            target_id: "c".to_string(),
            dedupe_key: "mention:c".to_string(),
            data: NotificationData::Other { json: "{}".to_string() },
        },
        at(NOW - 200 * DAY_MICROS), &refs()).unwrap();
    let out = run_once(&TaskTable::new(), &mut inbox, at(NOW), &refs()).unwrap();
    assert_eq!(out.pruned, 1, "SweepOutcome.pruned must reflect the row prune deleted");
    assert_eq!(rows_of(&inbox, BOB), 0, "the backdated row must actually be gone");
}

#[test]
fn a_moved_task_is_not_notified_twice_a_day() {
    let mut tasks = TaskTable::new();
    let mut inbox = NotificationTable::new();
    let items = vec![item(0, "overdue thing", false, NOW - DAY_MICROS)];
    tasks.upsert_for_doc(WS, DOC, &items, Some(ALICE), at(NOW));
    assert_eq!(run_once(&tasks, &mut inbox, at(NOW), &refs()).unwrap().due_emitted, 1);
    let mut unrelated = item(0, "unrelated", false, NOW + DAY_MICROS);
    unrelated.assignee_user_id = None;
    let items = vec![unrelated, item(1, "overdue thing", false, NOW - DAY_MICROS)];
    tasks.upsert_for_doc(WS, DOC, &items, Some(ALICE), at(NOW));
    assert_eq!(run_once(&tasks, &mut inbox, at(NOW), &refs()).unwrap().due_emitted, 0);
}

#[test]
fn only_the_last_seven_days_count() {
    for (due, told) in [
        (NOW, false),
        (NOW + 1, false),
        (NOW - 1, true),
        (NOW - 7 * DAY_MICROS + 1, true),
        (NOW - 7 * DAY_MICROS, false),
        (NOW - 30 * DAY_MICROS, false),
    ] {
        let mut tasks = TaskTable::new();
        tasks.upsert_for_doc(WS, DOC, &vec![item(0, "t", false, due)], None, at(NOW));
        assert_eq!(due_notification(&tasks.rows()[0], at(NOW)).is_some(), told, "{due}");
    }
}

#[test]
fn unassigned_and_undated_tasks_are_not_overdue() {
    let mut tasks = TaskTable::new();
    let mut unassigned = item(0, "a", false, NOW - 1);
    unassigned.assignee_user_id = None;
    let mut undated = item(1, "b", false, NOW - 1);
    undated.due_at = None;
    tasks.upsert_for_doc(WS, DOC, &vec![unassigned, undated], None, at(NOW));
    let mut inbox = NotificationTable::new();
    assert_eq!(
        run_once(&tasks, &mut inbox, at(NOW), &refs()).unwrap(),
        SweepOutcome { due_emitted: 0, pruned: 0 }
    );
}

#[test]
fn a_notice_says_what_is_due() {
    let mut tasks = TaskTable::new();
    tasks.upsert_for_doc(WS, DOC, &vec![item(2, "abc", false, NOW - 1)], None, at(NOW));
    let n = due_notification(&tasks.rows()[0], at(NOW)).unwrap();
    assert_eq!(n.workspace_id, WS);
    assert_eq!(n.user_id, BOB);
    assert_eq!(n.actor_id, None);
    assert_eq!(n.kind, NotificationKind::TaskDue);
    assert_eq!(n.doc_id, Some(DOC));
    assert_eq!(n.target_kind, "task");
    assert_eq!(n.target_id, "00000000-0000-0000-0000-000000000002:2");
    assert_eq!(
        n.dedupe_key,
        "task_due:00000000-0000-0000-0000-000000000002:ba7816bf8f01cfea:\
         00000000-0000-0000-0000-000000000004:2024-10-04"
    );
    assert!(
        matches!(&n.data, NotificationData::TaskDue { text, due_at } if text == "abc"
            && *due_at == at(NOW - 1))
    );
}

#[test]
fn the_outcome_starts_at_nothing() {
    assert_eq!(SweepOutcome::default(), SweepOutcome { due_emitted: 0, pruned: 0 });
}

#[test]
fn an_assignment_and_a_due_notice_have_keys_of_their_own() {
    let mut tasks = TaskTable::new();
    let items = vec![item(0, "ship", false, NOW - 1)];
    let assigned = tasks.upsert_for_doc(WS, DOC, &items, None, at(NOW));
    assert_eq!(assigned[0].dedupe_key, task_assigned_dedupe_key(DOC, "ship", BOB));
    let mut inbox = NotificationTable::new();
    assert_eq!(inbox.emit_many(assigned, at(NOW), &refs()).unwrap(), 1);
    run_once(&tasks, &mut inbox, at(NOW), &refs()).unwrap();
    assert_eq!(rows_of(&inbox, BOB), 2);
}

#[test]
fn a_later_sweep_of_the_day_only_prunes() {
    let mut tasks = TaskTable::new();
    let items = vec![item(0, "late", false, NOW - DAY_MICROS)];
    tasks.upsert_for_doc(WS, DOC, &items, None, at(NOW - 2 * DAY_MICROS));
    let mut inbox = NotificationTable::new();
    let first = run_once(&tasks, &mut inbox, at(NOW), &refs()).unwrap();
    assert_eq!(first, SweepOutcome { due_emitted: 1, pruned: 0 });
    // The task moves down in its document.
    let moved = vec![
        item(0, "another", true, NOW - DAY_MICROS),
        item(1, "late", false, NOW - DAY_MICROS),
    ];
    tasks.upsert_for_doc(WS, DOC, &moved, None, at(NOW));
    let second = run_once(&tasks, &mut inbox, at(NOW + 7_200_000_000), &refs()).unwrap();
    assert_eq!(second, SweepOutcome { due_emitted: 0, pruned: 0 });
    let third = run_once(&tasks, &mut inbox, at(NOW + DAY_MICROS), &refs()).unwrap();
    assert_eq!(third, SweepOutcome { due_emitted: 1, pruned: 0 });
    assert_eq!(rows_of(&inbox, BOB), 2);
}

#[test]
fn a_sweep_that_fails_changes_nothing() {
    let mut tasks = TaskTable::new();
    let items = vec![
        item(0, "late", false, NOW - DAY_MICROS),
        item(1, "later", false, NOW - DAY_MICROS),
    ];
    tasks.upsert_for_doc(WS, DOC, &items, None, at(NOW));
    let mut inbox = NotificationTable::new();
    let mut known = refs();
    known.users.retain(|u| *u != BOB);
    let failed = Err(NotificationStoreError::UnknownReference);
    assert_eq!(run_once(&tasks, &mut inbox, at(NOW), &known), failed);
    assert_eq!(rows_of(&inbox, BOB), 0);
    assert_eq!(run_once(&tasks, &mut inbox, at(NOW), &refs()).unwrap().due_emitted, 2);
}
