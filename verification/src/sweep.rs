//! Periodic notification work: overdue tasks, and retention.
//!
//! It runs on every replica with no leader election. Both halves are safe to
//! run concurrently: the overdue notices are deduplicated by the inbox, and
//! pruning is idempotent.

use crate::ids::Uuid;
use crate::notifications::{
    NewNotification, NotificationData, NotificationKind, NotificationStoreError, NotificationTable,
    References,
};
use crate::tasks::{content_key, DocTask, TaskTable};
use crate::time::{Timestamp, DAY_MICROS};
use vstd::prelude::*;
use vstd::string::*;

verus! {

/// How often the sweep runs.
pub const INTERVAL_SECS: u64 = 900;

/// A task that has been overdue for longer than this is not notified any more.
pub const OVERDUE_WINDOW_DAYS: u16 = 7;

/// What a sweep did.
#[derive(Debug, Clone, Copy, PartialEq, Eq, Structural)]
pub struct SweepOutcome {
    pub due_emitted: u64,
    pub pruned: u64,
}

impl Default for SweepOutcome {
    fn default() -> (r: Self)
        ensures
            r.due_emitted == 0,
            r.pruned == 0,
    {
        SweepOutcome { due_emitted: 0, pruned: 0 }
    }
}

/// Whether a task is open, assigned, past its due time, and not by more than the
/// window.
pub open spec fn is_overdue(t: crate::tasks::DocTaskView, now: int) -> bool {
    t.assignee_user_id is Some && !t.checked && t.due_at is Some && t.due_at->0 < now && t.due_at->0
        > now - OVERDUE_WINDOW_DAYS * crate::time::DAY_MICROS
}

/// The dedupe key of an overdue notice: the task's content, its assignee and
/// the day of the sweep, so that a task is notified once a day however often
/// the sweep runs.
pub open spec fn due_key_text(doc_id: Uuid, text: Seq<char>, assignee: Uuid, now: i64) -> Seq<char> {
    crate::tasks::content_key_text("task_due:"@, doc_id, text, assignee) + ":"@
        + crate::time::date_text(crate::time::day_number(now as int) as i32)
}

/// The notice of an overdue task.
pub open spec fn due_notice(t: crate::tasks::DocTaskView, now: i64) -> Option<
    crate::notifications::NewNotificationView,
> {
    if is_overdue(t, now as int) {
        Some(
            crate::notifications::NewNotificationView {
                workspace_id: t.workspace_id,
                user_id: t.assignee_user_id->0,
                actor_id: None,
                kind: NotificationKind::TaskDue,
                doc_id: Some(t.doc_id),
                target_kind: "task"@,
                target_id: t.id,
                dedupe_key: due_key_text(t.doc_id, t.text, t.assignee_user_id->0, now),
                data: crate::notifications::NotificationDataView::TaskDue {
                    text: t.text,
                    due_at: t.due_at->0,
                },
            },
        )
    } else {
        None
    }
}

/// The notices of all overdue tasks, in the order of the index.
pub open spec fn due_notices(rows: Seq<crate::tasks::DocTaskView>, now: i64) -> Seq<
    crate::notifications::NewNotificationView,
>
    decreases rows.len(),
{
    if rows.len() == 0 {
        Seq::empty()
    } else {
        let rest = due_notices(rows.drop_last(), now);
        match due_notice(rows.last(), now) {
            Some(n) => rest.push(n),
            None => rest,
        }
    }
}

/// The inbox after a sweep.
pub open spec fn after_sweep(
    rows: Seq<crate::tasks::DocTaskView>,
    inbox: crate::notifications::InboxView,
    now: i64,
) -> crate::notifications::InboxView {
    let told = crate::notifications::after_emits(inbox, due_notices(rows, now), now);
    crate::notifications::InboxView {
        rows: told.rows.filter(crate::notifications::retained(now as int)),
        next_id: told.next_id,
    }
}

/// The inbox that a sweep leaves behind, or why it does nothing.
pub open spec fn sweep_outcome(
    rows: Seq<crate::tasks::DocTaskView>,
    inbox: crate::notifications::InboxView,
    refs: crate::notifications::ReferencesView,
    now: i64,
) -> Result<crate::notifications::InboxView, NotificationStoreError> {
    let notices = due_notices(rows, now);
    if crate::notifications::stops_at(inbox, notices, refs, now) < notices.len() {
        Err(NotificationStoreError::UnknownReference)
    } else {
        Ok(after_sweep(rows, inbox, now))
    }
}

/// The notice of a task, where it is overdue.
pub fn due_notification(task: &DocTask, now: Timestamp) -> (r: Option<NewNotification>)
    ensures
        r is Some <==> due_notice(task@, now@) is Some,
        r is Some ==> Some(r->0@) == due_notice(task@, now@),
{
    match (task.assignee_user_id, task.due_at) {
        (Some(assignee), Some(due_at)) => {
            let window: i64 = (OVERDUE_WINDOW_DAYS as i64) * DAY_MICROS;
            let now_micros: i64 = now.micros();
            let due_micros: i64 = due_at.micros();
            if task.checked || due_micros >= now_micros || due_micros + window <= now_micros {
                return None;
            }
            let mut key = content_key("task_due:", task.doc_id, task.text.as_str(), assignee);
            key.append(":");
            key.append(now.to_date().as_str());
            Some(
                NewNotification {
                    workspace_id: task.workspace_id,
                    user_id: assignee,
                    actor_id: None,
                    kind: NotificationKind::TaskDue,
                    doc_id: Some(task.doc_id),
                    target_kind: "task".to_owned(),
                    target_id: task.id.clone(),
                    dedupe_key: key,
                    data: NotificationData::TaskDue { text: task.text.clone(), due_at },
                },
            )
        },
        _ => None,
    }
}

/// The notices of all overdue tasks, in their order.
pub fn due_notifications(tasks: &Vec<DocTask>, now: Timestamp) -> (r: Vec<NewNotification>)
    ensures
        crate::notifications::notes_view(r@) == due_notices(
            crate::tasks::tasks_view(tasks@),
            now@,
        ),
        r@.len() <= tasks@.len(),
{
    let ghost rows = crate::tasks::tasks_view(tasks@);
    let mut out: Vec<NewNotification> = Vec::new();
    let mut i: usize = 0;
    proof {
        assert(rows.take(0) =~= Seq::<crate::tasks::DocTaskView>::empty());
        assert(crate::notifications::notes_view(out@) =~= due_notices(rows.take(0), now@));
    }
    while i < tasks.len()
        invariant
            i <= tasks@.len(),
            rows == crate::tasks::tasks_view(tasks@),
            crate::notifications::notes_view(out@) == due_notices(rows.take(i as int), now@),
            out@.len() <= i,
        decreases tasks@.len() - i,
    {
        proof {
            assert(rows.take(i + 1).drop_last() =~= rows.take(i as int));
            assert(rows.take(i + 1).last() == tasks@[i as int]@);
        }
        let ghost out0 = out@;
        match due_notification(&tasks[i], now) {
            Some(n) => {
                out.push(n);
                assert(crate::notifications::notes_view(out@)
                    =~= crate::notifications::notes_view(out0).push(n@));
            },
            None => {},
        }
        i += 1;
    }
    assert(rows.take(i as int) =~= rows);
    out
}

/// Notifies every open, assigned, overdue task of the day, then prunes. The notices
/// are stored together: where one fails none is stored and nothing is pruned.
pub fn run_once(
    tasks: &TaskTable,
    inbox: &mut NotificationTable,
    now: Timestamp,
    refs: &References,
) -> (r: Result<SweepOutcome, NotificationStoreError>)
    requires
        old(inbox).wf(),
        old(inbox)@.next_id + tasks@.len() <= i64::MAX,
    ensures
        final(inbox).wf(),
        ({
            let notices = due_notices(tasks@, now@);
            if crate::notifications::stops_at(old(inbox)@, notices, refs@, now@) < notices.len() {
                &&& r == Err::<SweepOutcome, _>(NotificationStoreError::UnknownReference)
                &&& final(inbox)@ == old(inbox)@
            } else {
                &&& r is Ok
                &&& final(inbox)@ == after_sweep(tasks@, old(inbox)@, now@)
                &&& r->Ok_0.due_emitted == crate::notifications::after_emits(
                    old(inbox)@,
                    notices,
                    now@,
                ).rows.len() - old(inbox)@.rows.len()
                &&& r->Ok_0.pruned == old(inbox)@.rows.len() + r->Ok_0.due_emitted - final(inbox)@.rows.len()
            }
        }),
        match sweep_outcome(tasks@, old(inbox)@, refs@, now@) {
            Ok(after) => r is Ok && final(inbox)@ == after,
            Err(e) => r is Err && r->Err_0 == e && final(inbox)@ == old(inbox)@,
        },
{
    let notices = due_notifications(tasks.rows(), now);
    match inbox.emit_together(notices, now, refs) {
        Ok(emitted) => {
            let pruned: u64 = inbox.prune(now);
            Ok(SweepOutcome { due_emitted: emitted as u64, pruned })
        },
        Err(e) => Err(e),
    }
}

/// A finished or unassigned task is never overdue, nor is one without a due
/// time, one whose time has not come, or one that is more than seven days late.
pub proof fn law_only_open_recent_tasks_are_overdue(t: crate::tasks::DocTaskView, now: i64)
    requires
        t.checked || t.assignee_user_id is None || t.due_at is None || t.due_at->0 >= now
            || crate::time::older_than(t.due_at->0 as int, OVERDUE_WINDOW_DAYS as int, now as int),
    ensures
        due_notice(t, now) is None,
{
}

/// Two overdue notices share a key exactly where they tell one assignee of one
/// task's text in one document on one date.
pub proof fn law_due_notice_is_keyed_on_content_and_date(
    d1: Uuid,
    t1: Seq<char>,
    a1: Uuid,
    n1: i64,
    d2: Uuid,
    t2: Seq<char>,
    a2: Uuid,
    n2: i64,
)
    ensures
        due_key_text(d1, t1, a1, n1) == due_key_text(d2, t2, a2, n2) <==> d1 == d2
            && crate::tasks::text_digest(t1) == crate::tasks::text_digest(t2) && a1 == a2
            && crate::time::date_text(crate::time::day_number(n1 as int) as i32)
            == crate::time::date_text(crate::time::day_number(n2 as int) as i32),
{
    reveal_strlit(":");
    let p = "task_due:"@;
    let x = due_key_text(d1, t1, a1, n1);
    let y = due_key_text(d2, t2, a2, n2);
    let kx = crate::tasks::content_key_text(p, d1, t1, a1);
    let ky = crate::tasks::content_key_text(p, d2, t2, a2);
    let n = p.len() as int + 90;
    crate::tasks::lemma_content_key(p, d1, t1, a1, d2, t2, a2);
    crate::tasks::lemma_content_key(p, d2, t2, a2, d1, t1, a1);
    assert(x.take(n) =~= kx);
    assert(y.take(n) =~= ky);
    assert(x.skip(n + 1) =~= crate::time::date_text(
        crate::time::day_number(n1 as int) as i32,
    ));
    assert(y.skip(n + 1) =~= crate::time::date_text(
        crate::time::day_number(n2 as int) as i32,
    ));
}

/// One index holds the keys of all kinds of notifications, and a notification of
/// one kind never stands in the way of another: their keys start differently.
pub proof fn law_kinds_never_share_a_key(
    comment_id: Uuid,
    doc_id: Uuid,
    text: Seq<char>,
    user: Uuid,
    now: i64,
    other_doc: Uuid,
    other_text: Seq<char>,
    other_user: Uuid,
)
    ensures
        ({
            let mention = crate::comments::comment_key(NotificationKind::Mention, comment_id);
            let reply = crate::comments::comment_key(NotificationKind::Reply, comment_id);
            let share = crate::grants::share_key(doc_id, user);
            let assigned = crate::tasks::assigned_key_text(doc_id, text, user);
            let due = due_key_text(other_doc, other_text, other_user, now);
            &&& mention != reply && mention != share && mention != assigned && mention != due
            &&& reply != share && reply != assigned && reply != due
            &&& share != assigned && share != due
            &&& assigned != due
        }),
{
    reveal_strlit("mention:");
    reveal_strlit("reply:");
    reveal_strlit("share:");
    reveal_strlit("task_assigned:");
    reveal_strlit("task_due:");
    let assigned = crate::tasks::assigned_key_text(doc_id, text, user);
    let due = due_key_text(other_doc, other_text, other_user, now);
    assert(crate::comments::comment_key(NotificationKind::Mention, comment_id)[0] == 'm');
    assert(crate::comments::comment_key(NotificationKind::Reply, comment_id)[0] == 'r');
    assert(crate::grants::share_key(doc_id, user)[0] == 's');
    assert(assigned[0] == 't' && assigned[5] == 'a');
    assert(due[0] == 't' && due[5] == 'd');
}

proof fn lemma_notices_from(rows: Seq<crate::tasks::DocTaskView>, now: i64, k: int) -> (j: int)
    requires
        0 <= k < due_notices(rows, now).len(),
    ensures
        0 <= j < rows.len(),
        due_notice(rows[j], now) == Some(due_notices(rows, now)[k]),
    decreases rows.len(),
{
    let rest = due_notices(rows.drop_last(), now);
    if k < rest.len() {
        let j = lemma_notices_from(rows.drop_last(), now, k);
        assert(rows.drop_last()[j] == rows[j]);
        j
    } else {
        rows.len() - 1
    }
}

proof fn lemma_notices_have(rows: Seq<crate::tasks::DocTaskView>, now: i64, j: int) -> (k: int)
    requires
        0 <= j < rows.len(),
        due_notice(rows[j], now) is Some,
    ensures
        0 <= k < due_notices(rows, now).len(),
        due_notice(rows[j], now) == Some(due_notices(rows, now)[k]),
    decreases rows.len(),
{
    let rest = due_notices(rows.drop_last(), now);
    if j < rows.len() - 1 {
        assert(rows.drop_last()[j] == rows[j]);
        lemma_notices_have(rows.drop_last(), now, j)
    } else {
        rest.len() as int
    }
}

/// A task is notified as overdue once a day. Where two sweeps fall on one day
/// and every task that is overdue at the second was overdue at the first with
/// the same document, text and assignee, the second adds nothing. Where the
/// task stands in its document plays no part.
pub proof fn law_second_notice_of_a_day_adds_nothing(
    inbox: crate::notifications::InboxView,
    first: Seq<crate::tasks::DocTaskView>,
    second: Seq<crate::tasks::DocTaskView>,
    now: i64,
    later: i64,
)
    requires
        crate::time::day_number(now as int) == crate::time::day_number(later as int),
        forall|j: int|
            0 <= j < second.len() && is_overdue(#[trigger] second[j], later as int) ==> exists|
                i: int,
            |
                0 <= i < first.len() && is_overdue(#[trigger] first[i], now as int)
                    && first[i].doc_id == second[j].doc_id && first[i].text == second[j].text
                    && first[i].assignee_user_id == second[j].assignee_user_id,
    ensures
        crate::notifications::after_emits(
            crate::notifications::after_emits(inbox, due_notices(first, now), now),
            due_notices(second, later),
            later,
        ) == crate::notifications::after_emits(inbox, due_notices(first, now), now),
{
    let n1 = due_notices(first, now);
    let n2 = due_notices(second, later);
    assert forall|l: int| 0 <= l < n2.len() implies crate::notifications::is_self_notification(
        #[trigger] n2[l],
    ) || exists|k: int|
        0 <= k < n1.len() && !crate::notifications::is_self_notification(n1[k])
            && (#[trigger] n1[k]).user_id == n2[l].user_id && n1[k].dedupe_key
            == n2[l].dedupe_key by {
        let j = lemma_notices_from(second, later, l);
        assert(is_overdue(second[j], later as int));
        let i = choose|i: int|
            0 <= i < first.len() && is_overdue(#[trigger] first[i], now as int) && first[i].doc_id
                == second[j].doc_id && first[i].text == second[j].text && first[i].assignee_user_id
                == second[j].assignee_user_id;
        let k = lemma_notices_have(first, now, i);
        assert(n1[k].user_id == n2[l].user_id);
    }
    crate::notifications::law_repeated_batch_adds_nothing(inbox, n1, n2, now, later);
}

/// On another date the same task is notified again: its notice is new unless the
/// inbox already holds one for that date.
pub proof fn law_next_day_notifies_again(
    inbox: crate::notifications::InboxView,
    t: crate::tasks::DocTaskView,
    now: i64,
    tomorrow: i64,
)
    requires
        is_overdue(t, now as int),
        is_overdue(t, tomorrow as int),
        crate::time::date_text(crate::time::day_number(now as int) as i32)
            != crate::time::date_text(crate::time::day_number(tomorrow as int) as i32),
        crate::notifications::is_new(inbox, due_notice(t, tomorrow)->0),
    ensures
        crate::notifications::is_new(
            crate::notifications::after_emit(inbox, due_notice(t, now)->0, now),
            due_notice(t, tomorrow)->0,
        ),
{
    let a = t.assignee_user_id->0;
    let n1 = due_notice(t, now)->0;
    let n2 = due_notice(t, tomorrow)->0;
    law_due_notice_is_keyed_on_content_and_date(
        t.doc_id,
        t.text,
        a,
        now,
        t.doc_id,
        t.text,
        a,
        tomorrow,
    );
    crate::notifications::lemma_emit_keeps_keys(inbox, n1, now, n2.user_id, n2.dedupe_key);
}

/// Whether every row that an inbox already holds under one of a sweep's keys is
/// still within its retention. Rows that a sweep wrote are: they are as old as the
/// day that their key names.
pub open spec fn keys_in_retention(
    rows: Seq<crate::tasks::DocTaskView>,
    inbox: crate::notifications::InboxView,
    now: i64,
) -> bool {
    forall|i: int, k: int|
        0 <= i < inbox.rows.len() && 0 <= k < due_notices(rows, now).len() && (
        #[trigger] inbox.rows[i]).note.user_id == (#[trigger] due_notices(rows, now)[k]).user_id
            && inbox.rows[i].note.dedupe_key == due_notices(rows, now)[k].dedupe_key
            ==> !crate::notifications::is_expired(inbox.rows[i], now as int)
}

/// What a sweep told is known once it has pruned.
proof fn lemma_swept_knows(
    rows: Seq<crate::tasks::DocTaskView>,
    inbox: crate::notifications::InboxView,
    now: i64,
    k: int,
)
    requires
        keys_in_retention(rows, inbox, now),
        0 <= k < due_notices(rows, now).len(),
    ensures
        crate::notifications::has_key(
            after_sweep(rows, inbox, now).rows,
            due_notices(rows, now)[k].user_id,
            due_notices(rows, now)[k].dedupe_key,
        ),
{
    let ns = due_notices(rows, now);
    let told = crate::notifications::after_emits(inbox, ns, now);
    let p = crate::notifications::retained(now as int);
    let swept = after_sweep(rows, inbox, now);
    crate::notifications::lemma_emits_settle(inbox, ns, now, k);
    let j = lemma_notices_from(rows, now, k);
    let u = ns[k].user_id;
    let key = ns[k].dedupe_key;
    assert(crate::notifications::has_key(told.rows, u, key));
    let i = choose|i: int|
        0 <= i < told.rows.len() && (#[trigger] told.rows[i]).note.user_id == u
            && told.rows[i].note.dedupe_key == key;
    lemma_told_rows(inbox, ns, now, i);
    if i < inbox.rows.len() {
        assert(told.rows[i] == inbox.rows[i]);
    }
    assert(p(told.rows[i]));
    assert(told.rows.contains(told.rows[i]));
    crate::seqs::lemma_filter_contains(told.rows, p, told.rows[i]);
    let l = choose|l: int| 0 <= l < swept.rows.len() && swept.rows[l] == told.rows[i];
    assert(swept.rows[l].note.user_id == u);
}

/// Pruning makes no key known.
proof fn lemma_pruned_keys(
    rows: Seq<crate::notifications::NotificationRowView>,
    now: int,
    user: Uuid,
    key: Seq<char>,
)
    requires
        !crate::notifications::has_key(rows, user, key),
    ensures
        !crate::notifications::has_key(
            rows.filter(crate::notifications::retained(now)),
            user,
            key,
        ),
{
    let p = crate::notifications::retained(now);
    let kept = rows.filter(p);
    if crate::notifications::has_key(kept, user, key) {
        let i = choose|i: int|
            0 <= i < kept.len() && (#[trigger] kept[i]).note.user_id == user
                && kept[i].note.dedupe_key == key;
        assert(kept.contains(kept[i]));
        crate::seqs::lemma_filter_contains(rows, p, kept[i]);
        let l = choose|l: int| 0 <= l < rows.len() && rows[l] == kept[i];
        assert(rows[l].note.user_id == user);
    }
}

/// A second sweep of a day tells nobody anything, whatever the first one pruned:
/// where both fall on one day and every task that is overdue at the second was
/// overdue at the first with the same document, text and assignee, the second
/// adds no row, and all it does is prune. Where a task stands in its document
/// plays no part.
pub proof fn law_second_sweep_of_a_day_only_prunes(
    inbox: crate::notifications::InboxView,
    first: Seq<crate::tasks::DocTaskView>,
    second: Seq<crate::tasks::DocTaskView>,
    now: i64,
    later: i64,
)
    requires
        keys_in_retention(first, inbox, now),
        crate::time::day_number(now as int) == crate::time::day_number(later as int),
        forall|j: int|
            0 <= j < second.len() && is_overdue(#[trigger] second[j], later as int) ==> exists|
                i: int,
            |
                0 <= i < first.len() && is_overdue(#[trigger] first[i], now as int)
                    && first[i].doc_id == second[j].doc_id && first[i].text == second[j].text
                    && first[i].assignee_user_id == second[j].assignee_user_id,
    ensures
        ({
            let swept = after_sweep(first, inbox, now);
            &&& crate::notifications::after_emits(swept, due_notices(second, later), later) == swept
            &&& after_sweep(second, swept, later) == (crate::notifications::InboxView {
                rows: swept.rows.filter(crate::notifications::retained(later as int)),
                next_id: swept.next_id,
            })
        }),
{
    let n1 = due_notices(first, now);
    let n2 = due_notices(second, later);
    let swept = after_sweep(first, inbox, now);
    assert forall|l: int| 0 <= l < n2.len() implies !crate::notifications::is_new(
        swept,
        #[trigger] n2[l],
    ) by {
        let j = lemma_notices_from(second, later, l);
        assert(is_overdue(second[j], later as int));
        let i = choose|i: int|
            0 <= i < first.len() && is_overdue(#[trigger] first[i], now as int) && first[i].doc_id
                == second[j].doc_id && first[i].text == second[j].text && first[i].assignee_user_id
                == second[j].assignee_user_id;
        let k = lemma_notices_have(first, now, i);
        lemma_swept_knows(first, inbox, now, k);
        assert(n1[k].user_id == n2[l].user_id);
        assert(n1[k].dedupe_key == n2[l].dedupe_key);
    }
    crate::notifications::lemma_emits_nothing_new(swept, n2, later);
}

/// Sweeping again at the same instant changes nothing.
pub proof fn law_repeated_sweep_changes_nothing(
    rows: Seq<crate::tasks::DocTaskView>,
    inbox: crate::notifications::InboxView,
    now: i64,
)
    requires
        keys_in_retention(rows, inbox, now),
    ensures
        after_sweep(rows, after_sweep(rows, inbox, now), now) == after_sweep(rows, inbox, now),
{
    law_second_sweep_of_a_day_only_prunes(inbox, rows, rows, now, now);
    crate::notifications::law_prune_is_idempotent(
        crate::notifications::after_emits(inbox, due_notices(rows, now), now).rows,
        now,
    );
}

/// The notices where one task alone is overdue.
proof fn lemma_lone_notice(rows: Seq<crate::tasks::DocTaskView>, now: i64, j: int)
    requires
        0 <= j < rows.len(),
        is_overdue(rows[j], now as int),
        forall|i: int|
            0 <= i < rows.len() && i != j ==> !is_overdue(#[trigger] rows[i], now as int),
    ensures
        due_notices(rows, now) == seq![due_notice(rows[j], now)->0],
    decreases rows.len(),
{
    let front = rows.drop_last();
    assert forall|i: int| 0 <= i < front.len() implies front[i] == #[trigger] rows[i] by {}
    if j == rows.len() - 1 {
        lemma_no_notices(front, now);
        assert(due_notices(rows, now) =~= seq![due_notice(rows[j], now)->0]);
    } else {
        assert(!is_overdue(rows[rows.len() - 1], now as int));
        lemma_lone_notice(front, now, j);
    }
}

proof fn lemma_no_notices(rows: Seq<crate::tasks::DocTaskView>, now: i64)
    requires
        forall|i: int| 0 <= i < rows.len() ==> !is_overdue(#[trigger] rows[i], now as int),
    ensures
        due_notices(rows, now).len() == 0,
    decreases rows.len(),
{
    if rows.len() > 0 {
        assert forall|i: int| 0 <= i < rows.drop_last().len() implies !is_overdue(
            #[trigger] rows.drop_last()[i],
            now as int,
        ) by {
            assert(rows.drop_last()[i] == rows[i]);
        }
        lemma_no_notices(rows.drop_last(), now);
        assert(!is_overdue(rows[rows.len() - 1], now as int));
    }
}

/// An overdue task is told once a day, sweep by sweep: where it alone is overdue
/// at three sweeps, two of them on one day and the third on another date, and the
/// inbox knows neither day's notice, the first adds its notice, the second nothing
/// and the third its notice again.
pub proof fn law_an_overdue_task_is_told_once_a_day(
    inbox: crate::notifications::InboxView,
    rows: Seq<crate::tasks::DocTaskView>,
    j: int,
    now: i64,
    later: i64,
    tomorrow: i64,
)
    requires
        0 <= j < rows.len(),
        is_overdue(rows[j], now as int) && is_overdue(rows[j], later as int) && is_overdue(
            rows[j],
            tomorrow as int,
        ),
        forall|i: int|
            0 <= i < rows.len() && i != j ==> !is_overdue(#[trigger] rows[i], now as int)
                && !is_overdue(rows[i], later as int) && !is_overdue(rows[i], tomorrow as int),
        crate::time::day_number(now as int) == crate::time::day_number(later as int),
        crate::time::date_text(crate::time::day_number(now as int) as i32)
            != crate::time::date_text(crate::time::day_number(tomorrow as int) as i32),
        crate::notifications::is_new(inbox, due_notice(rows[j], now)->0),
        crate::notifications::is_new(inbox, due_notice(rows[j], tomorrow)->0),
    ensures
        ({
            let once = after_sweep(rows, inbox, now);
            let twice = after_sweep(rows, once, later);
            &&& crate::notifications::after_emits(inbox, due_notices(rows, now), now).rows
                == inbox.rows.push(
                crate::notifications::new_row(
                    inbox.next_id,
                    due_notice(rows[j], now)->0,
                    now,
                ),
            )
            &&& crate::notifications::after_emits(once, due_notices(rows, later), later) == once
            &&& crate::notifications::after_emits(twice, due_notices(rows, tomorrow), tomorrow).rows
                == twice.rows.push(
                crate::notifications::new_row(
                    twice.next_id,
                    due_notice(rows[j], tomorrow)->0,
                    tomorrow,
                ),
            )
        }),
{
    let a = rows[j].assignee_user_id->0;
    let n1 = due_notice(rows[j], now)->0;
    let n3 = due_notice(rows[j], tomorrow)->0;
    let told = crate::notifications::after_emits(inbox, due_notices(rows, now), now);
    let once = after_sweep(rows, inbox, now);
    let twice = after_sweep(rows, once, later);
    lemma_lone_notice(rows, now, j);
    lemma_lone_notice(rows, tomorrow, j);
    reveal_with_fuel(crate::notifications::after_emits, 2);
    assert(seq![n1].drop_last() =~= Seq::empty());
    assert(seq![n3].drop_last() =~= Seq::empty());
    assert forall|i: int, k: int|
        0 <= i < inbox.rows.len() && 0 <= k < due_notices(rows, now).len() && (
        #[trigger] inbox.rows[i]).note.user_id == (#[trigger] due_notices(rows, now)[k]).user_id
            && inbox.rows[i].note.dedupe_key == due_notices(
            rows,
            now,
        )[k].dedupe_key implies !crate::notifications::is_expired(inbox.rows[i], now as int) by {
        assert(due_notices(rows, now)[k] == n1);
        assert(crate::notifications::has_key(inbox.rows, n1.user_id, n1.dedupe_key));
    }
    assert forall|i: int|
        0 <= i < rows.len() && is_overdue(#[trigger] rows[i], later as int) implies exists|i2: int|
        0 <= i2 < rows.len() && is_overdue(#[trigger] rows[i2], now as int) && rows[i2].doc_id
            == rows[i].doc_id && rows[i2].text == rows[i].text && rows[i2].assignee_user_id
            == rows[i].assignee_user_id by {
        assert(i == j);
        assert(is_overdue(rows[j], now as int));
    }
    law_second_sweep_of_a_day_only_prunes(inbox, rows, rows, now, later);
    law_due_notice_is_keyed_on_content_and_date(
        rows[j].doc_id,
        rows[j].text,
        a,
        now,
        rows[j].doc_id,
        rows[j].text,
        a,
        tomorrow,
    );
    crate::notifications::lemma_emit_keeps_keys(inbox, n1, now, n3.user_id, n3.dedupe_key);
    lemma_pruned_keys(told.rows, now as int, n3.user_id, n3.dedupe_key);
    lemma_pruned_keys(once.rows, later as int, n3.user_id, n3.dedupe_key);
}

/// What storing a batch leaves at each place: the old row, or one of the batch,
/// unread and created now.
proof fn lemma_told_rows(
    inbox: crate::notifications::InboxView,
    ns: Seq<crate::notifications::NewNotificationView>,
    now: i64,
    i: int,
)
    requires
        0 <= i < crate::notifications::after_emits(inbox, ns, now).rows.len(),
    ensures
        ({
            let told = crate::notifications::after_emits(inbox, ns, now);
            &&& inbox.rows.len() <= told.rows.len()
            &&& i < inbox.rows.len() ==> told.rows[i] == inbox.rows[i]
            &&& i >= inbox.rows.len() ==> told.rows[i].created_at == now && told.rows[i].read_at is None
        }),
    decreases ns.len(),
{
    if ns.len() > 0 {
        let before = crate::notifications::after_emits(inbox, ns.drop_last(), now);
        lemma_told_len(inbox, ns.drop_last(), now);
        if i < before.rows.len() {
            lemma_told_rows(inbox, ns.drop_last(), now, i);
        }
    }
}

proof fn lemma_told_len(
    inbox: crate::notifications::InboxView,
    ns: Seq<crate::notifications::NewNotificationView>,
    now: i64,
)
    ensures
        inbox.rows.len() <= crate::notifications::after_emits(inbox, ns, now).rows.len(),
    decreases ns.len(),
{
    if ns.len() > 0 {
        lemma_told_len(inbox, ns.drop_last(), now);
    }
}

/// A task is told as overdue exactly where it is assigned, its box is not ticked,
/// it has a due time, and that time has passed by less than seven days; when it was
/// indexed or updated, and all else about it, plays no part. The notice goes to the
/// assignee, names nobody as who acted, points to the task, and shows its text and
/// its due time.
pub proof fn law_exactly_open_late_tasks_are_told(t: crate::tasks::DocTaskView, now: i64)
    ensures
        due_notice(t, now) is Some <==> {
            &&& t.assignee_user_id is Some
            &&& !t.checked
            &&& t.due_at is Some
            &&& t.due_at->0 < now
            &&& now - t.due_at->0 < 7 * 24 * 60 * 60 * 1_000_000
        },
        due_notice(t, now) matches Some(n) ==> {
            &&& Some(n.user_id) == t.assignee_user_id
            &&& n.workspace_id == t.workspace_id
            &&& n.actor_id is None
            &&& n.kind == NotificationKind::TaskDue
            &&& n.doc_id == Some(t.doc_id)
            &&& n.target_kind == "task"@
            &&& n.target_id == t.id
            &&& n.data is TaskDue
            &&& n.data->TaskDue_text == t.text
            &&& Some(n.data->TaskDue_due_at) == t.due_at
            &&& n.dedupe_key == "task_due:"@ + crate::ids::uuid_text(t.doc_id) + ":"@
                + crate::tasks::text_digest(t.text) + ":"@ + crate::ids::uuid_text(n.user_id)
                + ":"@ + crate::time::date_text(crate::time::day_number(now as int) as i32)
        },
{
}

/// Which tasks a sweep tells of: assigned ones that are open and whose due time
/// has passed by less than seven days.
pub open spec fn is_late(now: i64) -> spec_fn(crate::tasks::DocTaskView) -> bool {
    |t: crate::tasks::DocTaskView|
        {
            &&& t.assignee_user_id is Some
            &&& !t.checked
            &&& t.due_at is Some
            &&& t.due_at->0 < now
            &&& now - t.due_at->0 < 7 * 24 * 60 * 60 * 1_000_000
        }
}

/// A sweep tells of every task that is late, once for each and in their order, and
/// of no other.
pub proof fn law_a_sweep_tells_of_every_late_task(rows: Seq<crate::tasks::DocTaskView>, now: i64)
    ensures
        ({
            let notices = due_notices(rows, now);
            let late = rows.filter(is_late(now));
            &&& notices.len() == late.len()
            &&& forall|k: int|
                0 <= k < notices.len() ==> {
                    let n = #[trigger] notices[k];
                    &&& Some(n.user_id) == late[k].assignee_user_id
                    &&& n.target_id == late[k].id
                    &&& n.data is TaskDue
                    &&& n.data->TaskDue_text == late[k].text
                    &&& Some(n) == due_notice(late[k], now)
                }
        }),
    decreases rows.len(),
{
    reveal(Seq::filter);
    if rows.len() > 0 {
        law_a_sweep_tells_of_every_late_task(rows.drop_last(), now);
        law_exactly_open_late_tasks_are_told(rows.last(), now);
    }
}

/// What a sweep leaves in the inbox: of the rows that were there it keeps the
/// assigned tasks, the unread rows of the last 180 days and the read rows of the
/// last 90, unchanged, and no others; and every late task whose key the inbox did
/// not hold has an unread row of now.
pub proof fn law_a_sweep_keeps_and_tells(
    rows: Seq<crate::tasks::DocTaskView>,
    inbox: crate::notifications::InboxView,
    now: i64,
)
    ensures
        ({
            let after = after_sweep(rows, inbox, now);
            let notices = due_notices(rows, now);
            &&& forall|i: int|
                0 <= i < inbox.rows.len() && {
                    let r = #[trigger] inbox.rows[i];
                    let age = now - r.created_at;
                    ||| r.note.kind == NotificationKind::TaskAssigned
                    ||| r.read_at is None && age <= 180 * 24 * 60 * 60 * 1_000_000
                    ||| age <= 90 * 24 * 60 * 60 * 1_000_000
                } ==> after.rows.contains(inbox.rows[i])
            &&& forall|i: int|
                0 <= i < after.rows.len() ==> {
                    let r = #[trigger] after.rows[i];
                    let age = now - r.created_at;
                    ||| r.note.kind == NotificationKind::TaskAssigned
                    ||| r.read_at is None && age <= 180 * 24 * 60 * 60 * 1_000_000
                    ||| age <= 90 * 24 * 60 * 60 * 1_000_000
                }
            &&& forall|k: int|
                0 <= k < notices.len() && !crate::notifications::has_key(
                    inbox.rows,
                    (#[trigger] notices[k]).user_id,
                    notices[k].dedupe_key,
                ) ==> exists|i: int|
                    0 <= i < after.rows.len() && (#[trigger] after.rows[i]).note.user_id
                        == notices[k].user_id && after.rows[i].note.dedupe_key
                        == notices[k].dedupe_key && after.rows[i].created_at == now
                        && after.rows[i].read_at is None
        }),
{
    let after = after_sweep(rows, inbox, now);
    let notices = due_notices(rows, now);
    let told = crate::notifications::after_emits(inbox, notices, now);
    let p = crate::notifications::retained(now as int);
    lemma_told_len(inbox, notices, now);
    assert forall|i: int|
        0 <= i < inbox.rows.len() && {
            let r = #[trigger] inbox.rows[i];
            let age = now - r.created_at;
            ||| r.note.kind == NotificationKind::TaskAssigned
            ||| r.read_at is None && age <= 180 * 24 * 60 * 60 * 1_000_000
            ||| age <= 90 * 24 * 60 * 60 * 1_000_000
        } implies after.rows.contains(inbox.rows[i]) by {
        lemma_told_rows(inbox, notices, now, i);
        assert(told.rows.contains(inbox.rows[i]));
        crate::seqs::lemma_filter_contains(told.rows, p, inbox.rows[i]);
    }
    assert forall|i: int| 0 <= i < after.rows.len() implies ({
        let r = #[trigger] after.rows[i];
        let age = now - r.created_at;
        ||| r.note.kind == NotificationKind::TaskAssigned
        ||| r.read_at is None && age <= 180 * 24 * 60 * 60 * 1_000_000
        ||| age <= 90 * 24 * 60 * 60 * 1_000_000
    }) by {
        told.rows.lemma_filter_pred(p, i);
    }
    assert forall|k: int|
        0 <= k < notices.len() && !crate::notifications::has_key(
            inbox.rows,
            (#[trigger] notices[k]).user_id,
            notices[k].dedupe_key,
        ) implies exists|i: int|
        0 <= i < after.rows.len() && (#[trigger] after.rows[i]).note.user_id == notices[k].user_id
            && after.rows[i].note.dedupe_key == notices[k].dedupe_key && after.rows[i].created_at
            == now && after.rows[i].read_at is None by {
        let n = notices[k];
        let j = lemma_notices_from(rows, now, k);
        crate::notifications::lemma_emits_settle(inbox, notices, now, k);
        let h = choose|h: int|
            0 <= h < told.rows.len() && (#[trigger] told.rows[h]).note.user_id == n.user_id
                && told.rows[h].note.dedupe_key == n.dedupe_key;
        lemma_told_rows(inbox, notices, now, h);
        if h < inbox.rows.len() {
            assert(inbox.rows[h].note.user_id == n.user_id);
        }
        assert(told.rows.contains(told.rows[h]));
        crate::seqs::lemma_filter_contains(told.rows, p, told.rows[h]);
        let i = choose|i: int| 0 <= i < after.rows.len() && after.rows[i] == told.rows[h];
        assert(after.rows[i].note.user_id == n.user_id);
    }
}

/// A sweep tells and prunes, or it fails and does neither. It fails only where the
/// notice of a late task names something that is not there.
pub proof fn law_a_sweep_does_both_or_neither(
    rows: Seq<crate::tasks::DocTaskView>,
    inbox: crate::notifications::InboxView,
    refs: crate::notifications::ReferencesView,
    now: i64,
)
    ensures
        sweep_outcome(rows, inbox, refs, now) matches Ok(after) ==> after == after_sweep(
            rows,
            inbox,
            now,
        ),
        (forall|j: int|
            0 <= j < rows.len() ==> refs.workspaces.contains((#[trigger] rows[j]).workspace_id)
                && refs.docs.contains(rows[j].doc_id) && (rows[j].assignee_user_id is Some
                ==> refs.users.contains(rows[j].assignee_user_id->0))) ==> sweep_outcome(
            rows,
            inbox,
            refs,
            now,
        ) is Ok,
{
    let notices = due_notices(rows, now);
    if forall|j: int|
        0 <= j < rows.len() ==> refs.workspaces.contains((#[trigger] rows[j]).workspace_id)
            && refs.docs.contains(rows[j].doc_id) && (rows[j].assignee_user_id is Some
            ==> refs.users.contains(rows[j].assignee_user_id->0)) {
        assert forall|k: int| 0 <= k < notices.len() implies refs.workspaces.contains(
            (#[trigger] notices[k]).workspace_id,
        ) && refs.users.contains(notices[k].user_id) && (notices[k].actor_id is Some
            ==> refs.users.contains(notices[k].actor_id->0)) && (notices[k].doc_id is Some
            ==> refs.docs.contains(notices[k].doc_id->0)) by {
            let j = lemma_notices_from(rows, now, k);
        }
        crate::notifications::law_known_names_never_fail(inbox, notices, refs, now);
    }
}

} // verus!
