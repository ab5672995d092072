//! The task index behind the workspace's to-do view.
//!
//! Tasks are derived from the contents of each document: whenever a document is
//! reindexed, its task items are extracted again and handed to
//! `TaskTable::upsert_for_doc`. A task's identifier is its place in the
//! document and changes with every reorder, so the notification of a new
//! assignment is keyed on the task's text instead.

use crate::ids::{format_uuid, Uuid};
use crate::notifications::{
    NewNotification, NotificationData, NotificationKind, NotificationStoreError, NotificationTable,
    References,
};
use crate::order::{insert_in_order, Order};
use crate::text::{any_text, hex_prefix, push_int, same_text};
use crate::time::Timestamp;
use vstd::prelude::*;
use vstd::string::*;

verus! {

/// An indexed task.
#[derive(Debug)]
pub struct DocTask {
    pub id: String,
    pub workspace_id: Uuid,
    pub doc_id: Uuid,
    pub item_index: i32,
    pub text: String,
    pub assignee_user_id: Option<Uuid>,
    pub checked: bool,
    pub completed_at: Option<Timestamp>,
    /// When the task is due, where its text says so.
    pub due_at: Option<Timestamp>,
    pub created_at: Timestamp,
    pub updated_at: Timestamp,
}

#[verifier::ext_equal]
pub struct DocTaskView {
    pub id: Seq<char>,
    pub workspace_id: Uuid,
    pub doc_id: Uuid,
    pub item_index: i32,
    pub text: Seq<char>,
    pub assignee_user_id: Option<Uuid>,
    pub checked: bool,
    pub completed_at: Option<i64>,
    pub due_at: Option<i64>,
    pub created_at: i64,
    pub updated_at: i64,
}

impl View for DocTask {
    type V = DocTaskView;

    open spec fn view(&self) -> DocTaskView {
        DocTaskView {
            id: self.id@,
            workspace_id: self.workspace_id,
            doc_id: self.doc_id,
            item_index: self.item_index,
            text: self.text@,
            assignee_user_id: self.assignee_user_id,
            checked: self.checked,
            completed_at: crate::notifications::opt_micros(self.completed_at),
            due_at: crate::notifications::opt_micros(self.due_at),
            created_at: self.created_at@,
            updated_at: self.updated_at@,
        }
    }
}

impl Clone for DocTask {
    fn clone(&self) -> (r: Self)
        ensures
            r == *self,
    {
        DocTask {
            id: self.id.clone(),
            workspace_id: self.workspace_id,
            doc_id: self.doc_id,
            item_index: self.item_index,
            text: self.text.clone(),
            assignee_user_id: self.assignee_user_id,
            checked: self.checked,
            completed_at: self.completed_at,
            due_at: self.due_at,
            created_at: self.created_at,
            updated_at: self.updated_at,
        }
    }
}

/// A task item as it was extracted from a document. Its identifier follows from
/// the document and the item's place in it.
#[derive(Debug)]
pub struct DocTaskInput {
    pub item_index: i32,
    pub text: String,
    pub assignee_user_id: Option<Uuid>,
    pub checked: bool,
    pub due_at: Option<Timestamp>,
}

#[verifier::ext_equal]
pub struct DocTaskInputView {
    pub item_index: i32,
    pub text: Seq<char>,
    pub assignee_user_id: Option<Uuid>,
    pub checked: bool,
    pub due_at: Option<i64>,
}

impl View for DocTaskInput {
    type V = DocTaskInputView;

    open spec fn view(&self) -> DocTaskInputView {
        DocTaskInputView {
            item_index: self.item_index,
            text: self.text@,
            assignee_user_id: self.assignee_user_id,
            checked: self.checked,
            due_at: crate::notifications::opt_micros(self.due_at),
        }
    }
}

/// The views of a sequence of items.
pub open spec fn items_view(items: Seq<DocTaskInput>) -> Seq<DocTaskInputView> {
    Seq::new(items.len(), |i: int| items[i]@)
}

/// The views of a sequence of tasks.
pub open spec fn tasks_view(tasks: Seq<DocTask>) -> Seq<DocTaskView> {
    Seq::new(tasks.len(), |i: int| tasks[i]@)
}

/// The identifier of the task at a place in a document.
pub open spec fn task_id_text(doc_id: Uuid, item_index: int) -> Seq<char> {
    crate::ids::uuid_text(doc_id) + ":"@ + crate::text::int_text(item_index)
}

/// The identifier of the task at a place in a document.
pub fn task_id(doc_id: Uuid, item_index: i32) -> (r: String)
    ensures
        r@ == task_id_text(doc_id, item_index as int),
{
    let mut out = format_uuid(doc_id);
    out.append(":");
    push_int(&mut out, item_index);
    out
}

/// The SHA-256 digest of a sequence of bytes.
pub uninterp spec fn sha256(bytes: Seq<u8>) -> Seq<u8>;

/// The SHA-256 digest of some bytes.
///
/// Calls `sha2::Sha256::digest`. The digest is named; of it only its length,
/// thirty-two bytes, is claimed.
#[verifier::external_body]
fn sha256_digest(bytes: &[u8]) -> (r: Vec<u8>)
    ensures
        r@ == sha256(bytes@),
        r@.len() == 32,
{
    <sha2::Sha256 as sha2::Digest>::digest(bytes).to_vec()
}

/// The part of a dedupe key that stands for a task's text: the start of the
/// digest of its UTF-8 bytes.
pub open spec fn text_digest(text: Seq<char>) -> Seq<char> {
    crate::text::hex16(sha256(vstd::utf8::encode_utf8(text)))
}

/// A dedupe key that names a document, a task's text and an assignee.
pub open spec fn content_key_text(
    prefix: Seq<char>,
    doc_id: Uuid,
    text: Seq<char>,
    assignee: Uuid,
) -> Seq<char> {
    prefix + crate::ids::uuid_text(doc_id) + ":"@ + text_digest(text) + ":"@
        + crate::ids::uuid_text(assignee)
}

/// The dedupe key of an assignment.
pub open spec fn assigned_key_text(doc_id: Uuid, text: Seq<char>, assignee: Uuid) -> Seq<char> {
    content_key_text("task_assigned:"@, doc_id, text, assignee)
}

pub(crate) fn content_key(prefix: &str, doc_id: Uuid, text: &str, assignee: Uuid) -> (r: String)
    ensures
        r@ == content_key_text(prefix@, doc_id, text@, assignee),
{
    let digest = sha256_digest(text.as_bytes());
    let mut out = prefix.to_owned();
    out.append(format_uuid(doc_id).as_str());
    out.append(":");
    out.append(hex_prefix(digest.as_slice()).as_str());
    out.append(":");
    out.append(format_uuid(assignee).as_str());
    out
}

/// The dedupe key of an assignment:
/// `task_assigned:<document>:<start of the digest of the text>:<assignee>`.
pub fn task_assigned_dedupe_key(doc_id: Uuid, text: &str, assignee: Uuid) -> (r: String)
    ensures
        r@ == assigned_key_text(doc_id, text@, assignee),
{
    content_key("task_assigned:", doc_id, text, assignee)
}

/// The notification that a reindexed item gives rise to, if any: one for an
/// open item whose assignee is not the one who edited.
pub open spec fn assignment(
    workspace_id: Uuid,
    doc_id: Uuid,
    item: DocTaskInputView,
    actor_id: Option<Uuid>,
) -> Option<crate::notifications::NewNotificationView> {
    match item.assignee_user_id {
        Some(assignee) if !item.checked && actor_id != Some(assignee) => Some(
            crate::notifications::NewNotificationView {
                workspace_id,
                user_id: assignee,
                actor_id,
                kind: NotificationKind::TaskAssigned,
                doc_id: Some(doc_id),
                target_kind: "task"@,
                target_id: task_id_text(doc_id, item.item_index as int),
                dedupe_key: assigned_key_text(doc_id, item.text, assignee),
                data: crate::notifications::NotificationDataView::Task { text: item.text },
            },
        ),
        _ => None,
    }
}

/// The notifications that reindexing `items` gives rise to, in their order.
pub open spec fn assignments(
    workspace_id: Uuid,
    doc_id: Uuid,
    items: Seq<DocTaskInputView>,
    actor_id: Option<Uuid>,
) -> Seq<crate::notifications::NewNotificationView>
    decreases items.len(),
{
    if items.len() == 0 {
        Seq::empty()
    } else {
        let rest = assignments(workspace_id, doc_id, items.drop_last(), actor_id);
        match assignment(workspace_id, doc_id, items.last(), actor_id) {
            Some(n) => rest.push(n),
            None => rest,
        }
    }
}

/// The notification that a reindexed item gives rise to, if any.
pub fn assignment_notification(
    workspace_id: Uuid,
    doc_id: Uuid,
    item: &DocTaskInput,
    actor_id: Option<Uuid>,
) -> (r: Option<NewNotification>)
    ensures
        r is Some <==> assignment(workspace_id, doc_id, item@, actor_id) is Some,
        r is Some ==> Some(r->0@) == assignment(workspace_id, doc_id, item@, actor_id),
{
    match item.assignee_user_id {
        None => None,
        Some(assignee) => {
            let own = match actor_id {
                Some(a) => a == assignee,
                None => false,
            };
            if item.checked || own {
                return None;
            }
            Some(
                NewNotification {
                    workspace_id,
                    user_id: assignee,
                    actor_id,
                    kind: NotificationKind::TaskAssigned,
                    doc_id: Some(doc_id),
                    target_kind: "task".to_owned(),
                    target_id: task_id(doc_id, item.item_index),
                    dedupe_key: task_assigned_dedupe_key(doc_id, item.text.as_str(), assignee),
                    data: NotificationData::Task { text: item.text.clone() },
                },
            )
        },
    }
}

/// Whether a task with this identifier is indexed.
pub open spec fn has_task(rows: Seq<DocTaskView>, id: Seq<char>) -> bool {
    exists|i: int| 0 <= i < rows.len() && (#[trigger] rows[i]).id == id
}

/// What holds of every index: each task's identifier names its place, and no
/// identifier occurs twice.
pub open spec fn valid_tasks(rows: Seq<DocTaskView>) -> bool {
    &&& forall|i: int|
        0 <= i < rows.len() ==> (#[trigger] rows[i]).id == task_id_text(
            rows[i].doc_id,
            rows[i].item_index as int,
        )
    &&& forall|i: int, j: int|
        0 <= i < j < rows.len() ==> (#[trigger] rows[i]).id != (#[trigger] rows[j]).id
}

/// A task that was not indexed before.
pub open spec fn fresh_task(
    workspace_id: Uuid,
    doc_id: Uuid,
    item: DocTaskInputView,
    now: i64,
) -> DocTaskView {
    DocTaskView {
        id: task_id_text(doc_id, item.item_index as int),
        workspace_id,
        doc_id,
        item_index: item.item_index,
        text: item.text,
        assignee_user_id: item.assignee_user_id,
        checked: item.checked,
        completed_at: if item.checked { Some(now) } else { None },
        due_at: item.due_at,
        created_at: now,
        updated_at: now,
    }
}

/// An indexed task whose item was extracted again. The time of completion is
/// kept while the box stays as it was, taken when it is ticked and dropped when
/// it is cleared.
pub open spec fn reindexed(old_task: DocTaskView, item: DocTaskInputView, now: i64) -> DocTaskView {
    DocTaskView {
        text: item.text,
        assignee_user_id: item.assignee_user_id,
        checked: item.checked,
        completed_at: if old_task.checked == item.checked {
            old_task.completed_at
        } else if item.checked {
            Some(now)
        } else {
            None
        },
        due_at: item.due_at,
        updated_at: now,
        ..old_task
    }
}

/// The index after one item of a document was extracted.
pub open spec fn put_task(
    rows: Seq<DocTaskView>,
    workspace_id: Uuid,
    doc_id: Uuid,
    item: DocTaskInputView,
    now: i64,
) -> Seq<DocTaskView> {
    let id = task_id_text(doc_id, item.item_index as int);
    if has_task(rows, id) {
        Seq::new(
            rows.len(),
            |i: int|
                if rows[i].id == id {
                    reindexed(rows[i], item, now)
                } else {
                    rows[i]
                },
        )
    } else {
        rows.push(fresh_task(workspace_id, doc_id, item, now))
    }
}

/// The index after each of the items was extracted in turn.
pub open spec fn put_tasks(
    rows: Seq<DocTaskView>,
    workspace_id: Uuid,
    doc_id: Uuid,
    items: Seq<DocTaskInputView>,
    now: i64,
) -> Seq<DocTaskView>
    decreases items.len(),
{
    if items.len() == 0 {
        rows
    } else {
        put_task(
            put_tasks(rows, workspace_id, doc_id, items.drop_last(), now),
            workspace_id,
            doc_id,
            items.last(),
            now,
        )
    }
}

/// Whether one of the items has this identifier.
pub open spec fn has_item(doc_id: Uuid, items: Seq<DocTaskInputView>, id: Seq<char>) -> bool {
    exists|j: int|
        0 <= j < items.len() && task_id_text(doc_id, (#[trigger] items[j]).item_index as int) == id
}

/// Which tasks stay when a document's items are replaced: those of other
/// documents, and those whose identifier occurs among the new items.
pub open spec fn stays(doc_id: Uuid, items: Seq<DocTaskInputView>) -> spec_fn(DocTaskView) -> bool {
    |t: DocTaskView| t.doc_id != doc_id || has_item(doc_id, items, t.id)
}

/// The index after a document's items were replaced.
pub open spec fn after_upsert(
    rows: Seq<DocTaskView>,
    workspace_id: Uuid,
    doc_id: Uuid,
    items: Seq<DocTaskInputView>,
    now: i64,
) -> Seq<DocTaskView> {
    put_tasks(rows.filter(stays(doc_id, items)), workspace_id, doc_id, items, now)
}

/// Which tasks a user's list shows.
pub open spec fn on_list(
    workspace_id: Uuid,
    user_id: Uuid,
    include_completed: bool,
) -> spec_fn(DocTaskView) -> bool {
    |t: DocTaskView|
        t.workspace_id == workspace_id && t.assignee_user_id == Some(user_id) && (include_completed
            || t.completed_at is None)
}

/// The order of a user's list: open tasks first where `checked_last` is set,
/// then by due time with undated tasks last, then the most recently updated
/// first.
pub struct ByDue {
    pub checked_last: bool,
}

/// Where an optional due time stands among all of them.
pub open spec fn due_rank(due: Option<i64>) -> int {
    match due {
        Some(t) => t as int,
        None => i64::MAX + 1,
    }
}

impl Order<DocTask> for ByDue {
    open spec fn at_most(&self, a: DocTaskView, b: DocTaskView) -> bool {
        if self.checked_last && a.checked != b.checked {
            b.checked
        } else if due_rank(a.due_at) != due_rank(b.due_at) {
            due_rank(a.due_at) < due_rank(b.due_at)
        } else {
            a.updated_at >= b.updated_at
        }
    }

    proof fn total(&self, a: DocTaskView, b: DocTaskView) {
    }

    proof fn transitive(&self, a: DocTaskView, b: DocTaskView, c: DocTaskView) {
    }

    fn is_at_most(&self, a: &DocTask, b: &DocTask) -> (r: bool) {
        if self.checked_last && a.checked != b.checked {
            return b.checked;
        }
        match (a.due_at, b.due_at) {
            (Some(x), Some(y)) => {
                if x.micros() != y.micros() {
                    return x.micros() < y.micros();
                }
            },
            (Some(x), None) => {
                return true;
            },
            (None, Some(y)) => {
                return false;
            },
            (None, None) => {},
        }
        a.updated_at.micros() >= b.updated_at.micros()
    }
}

/// The order of a document's tasks: by their place.
pub struct ByPlace;

impl Order<DocTask> for ByPlace {
    open spec fn at_most(&self, a: DocTaskView, b: DocTaskView) -> bool {
        a.item_index <= b.item_index
    }

    proof fn total(&self, a: DocTaskView, b: DocTaskView) {
    }

    proof fn transitive(&self, a: DocTaskView, b: DocTaskView, c: DocTaskView) {
    }

    fn is_at_most(&self, a: &DocTask, b: &DocTask) -> (r: bool) {
        a.item_index <= b.item_index
    }
}

/// A user's list of tasks, in its order.
pub open spec fn assignee_listing(
    rows: Seq<DocTaskView>,
    workspace_id: Uuid,
    user_id: Uuid,
    include_completed: bool,
) -> Seq<DocTaskView> {
    crate::order::sorted::<DocTask, ByDue>(
        &(ByDue { checked_last: include_completed }),
        rows.filter(on_list(workspace_id, user_id, include_completed)),
    )
}

/// Which tasks are a document's.
pub open spec fn of_doc(doc_id: Uuid) -> spec_fn(DocTaskView) -> bool {
    |t: DocTaskView| t.doc_id == doc_id
}

/// A document's tasks, in the order of their places.
pub open spec fn doc_listing(rows: Seq<DocTaskView>, doc_id: Uuid) -> Seq<DocTaskView> {
    crate::order::sorted::<DocTask, ByPlace>(&ByPlace, rows.filter(of_doc(doc_id)))
}

/// The notifications that a reindexing calls for, in the order of its items.
pub fn assignment_notifications(
    workspace_id: Uuid,
    doc_id: Uuid,
    items: &Vec<DocTaskInput>,
    actor_id: Option<Uuid>,
) -> (r: Vec<NewNotification>)
    ensures
        crate::notifications::notes_view(r@) == assignments(
            workspace_id,
            doc_id,
            items_view(items@),
            actor_id,
        ),
        r@.len() <= items@.len(),
{
    let ghost iv = items_view(items@);
    let mut out: Vec<NewNotification> = Vec::new();
    let mut i: usize = 0;
    proof {
        assert(iv.take(0) =~= Seq::<DocTaskInputView>::empty());
        assert(crate::notifications::notes_view(out@) =~= assignments(
            workspace_id,
            doc_id,
            iv.take(0),
            actor_id,
        ));
    }
    while i < items.len()
        invariant
            i <= items@.len(),
            iv == items_view(items@),
            crate::notifications::notes_view(out@) == assignments(
                workspace_id,
                doc_id,
                iv.take(i as int),
                actor_id,
            ),
            out@.len() <= i,
        decreases items@.len() - i,
    {
        proof {
            assert(iv.take(i + 1).drop_last() =~= iv.take(i as int));
            assert(iv.take(i + 1).last() == items@[i as int]@);
        }
        let ghost out0 = out@;
        match assignment_notification(workspace_id, doc_id, &items[i], actor_id) {
            Some(n) => {
                out.push(n);
                assert(crate::notifications::notes_view(out@)
                    =~= crate::notifications::notes_view(out0).push(n@));
            },
            None => {},
        }
        i += 1;
    }
    assert(iv.take(i as int) =~= iv);
    out
}

/// What becomes of the index and the inbox when a document's tasks are replaced, or
/// why nothing does.
pub open spec fn indexing_outcome(
    rows: Seq<DocTaskView>,
    inbox: crate::notifications::InboxView,
    workspace_id: Uuid,
    doc_id: Uuid,
    items: Seq<DocTaskInputView>,
    actor_id: Option<Uuid>,
    refs: crate::notifications::ReferencesView,
    now: i64,
) -> Result<(Seq<DocTaskView>, crate::notifications::InboxView), NotificationStoreError> {
    let notes = assignments(workspace_id, doc_id, items, actor_id);
    if crate::notifications::stops_at(inbox, notes, refs, now) < notes.len() {
        Err(NotificationStoreError::UnknownReference)
    } else {
        Ok(
            (
                after_upsert(rows, workspace_id, doc_id, items, now),
                crate::notifications::after_emits(inbox, notes, now),
            ),
        )
    }
}

/// Replaces a document's tasks and stores the notifications of that, both or
/// neither: where a notification fails, the index and the inbox stay as they were.
pub fn upsert_and_notify(
    tasks: &mut TaskTable,
    inbox: &mut NotificationTable,
    workspace_id: Uuid,
    doc_id: Uuid,
    items: &Vec<DocTaskInput>,
    actor_id: Option<Uuid>,
    now: Timestamp,
    refs: &References,
) -> (r: Result<(), NotificationStoreError>)
    requires
        old(tasks).wf(),
        old(inbox).wf(),
        old(inbox)@.next_id + items@.len() <= i64::MAX,
    ensures
        final(tasks).wf(),
        final(inbox).wf(),
        ({
            let notes = assignments(workspace_id, doc_id, items_view(items@), actor_id);
            if crate::notifications::stops_at(old(inbox)@, notes, refs@, now@) < notes.len() {
                &&& r == Err::<(), _>(NotificationStoreError::UnknownReference)
                &&& final(tasks)@ == old(tasks)@
                &&& final(inbox)@ == old(inbox)@
            } else {
                &&& r is Ok
                &&& final(tasks)@ == after_upsert(
                    old(tasks)@,
                    workspace_id,
                    doc_id,
                    items_view(items@),
                    now@,
                )
                &&& final(inbox)@ == crate::notifications::after_emits(
                    old(inbox)@,
                    notes,
                    now@,
                )
            }
        }),
        match indexing_outcome(
            old(tasks)@,
            old(inbox)@,
            workspace_id,
            doc_id,
            items_view(items@),
            actor_id,
            refs@,
            now@,
        ) {
            Ok(after) => r is Ok && final(tasks)@ == after.0 && final(inbox)@ == after.1,
            Err(e) => r is Err && r->Err_0 == e && final(tasks)@ == old(tasks)@ && final(inbox)@
                == old(inbox)@,
        },
{
    let notes = assignment_notifications(workspace_id, doc_id, items, actor_id);
    match inbox.emit_together(notes, now, refs) {
        Ok(_) => {
            let _ = tasks.upsert_for_doc(workspace_id, doc_id, items, actor_id, now);
            Ok(())
        },
        Err(e) => Err(e),
    }
}

/// The task index.
#[derive(Debug)]
pub struct TaskTable {
    rows: Vec<DocTask>,
}

impl View for TaskTable {
    type V = Seq<DocTaskView>;

    closed spec fn view(&self) -> Seq<DocTaskView> {
        tasks_view(self.rows@)
    }
}

fn fresh(workspace_id: Uuid, doc_id: Uuid, item: &DocTaskInput, now: Timestamp) -> (r: DocTask)
    ensures
        r@ == fresh_task(workspace_id, doc_id, item@, now@),
{
    DocTask {
        id: task_id(doc_id, item.item_index),
        workspace_id,
        doc_id,
        item_index: item.item_index,
        text: item.text.clone(),
        assignee_user_id: item.assignee_user_id,
        checked: item.checked,
        completed_at: if item.checked {
            Some(now)
        } else {
            None
        },
        due_at: item.due_at,
        created_at: now,
        updated_at: now,
    }
}

fn reindex(task: &DocTask, item: &DocTaskInput, now: Timestamp) -> (r: DocTask)
    ensures
        r@ == reindexed(task@, item@, now@),
{
    DocTask {
        id: task.id.clone(),
        workspace_id: task.workspace_id,
        doc_id: task.doc_id,
        item_index: task.item_index,
        text: item.text.clone(),
        assignee_user_id: item.assignee_user_id,
        checked: item.checked,
        completed_at: if task.checked == item.checked {
            task.completed_at
        } else if item.checked {
            Some(now)
        } else {
            None
        },
        due_at: item.due_at,
        created_at: task.created_at,
        updated_at: now,
    }
}

impl TaskTable {
    /// Whether this index is one that the operations below can have produced.
    pub open spec fn wf(&self) -> bool {
        valid_tasks(self@)
    }

    /// An index without tasks.
    pub fn new() -> (r: TaskTable)
        ensures
            r.wf(),
            r@.len() == 0,
    {
        TaskTable { rows: Vec::new() }
    }

    /// An index of tasks that were stored, where they form one: every
    /// identifier names its task's place and none occurs twice.
    pub fn load(rows: Vec<DocTask>) -> (r: Option<TaskTable>)
        ensures
            r is Some <==> valid_tasks(tasks_view(rows@)),
            r is Some ==> r->0@ == tasks_view(rows@) && r->0.wf(),
    {
        let ghost v = tasks_view(rows@);
        let mut i: usize = 0;
        while i < rows.len()
            invariant
                i <= rows@.len(),
                v == tasks_view(rows@),
                forall|k: int|
                    0 <= k < i ==> (#[trigger] v[k]).id == task_id_text(
                        v[k].doc_id,
                        v[k].item_index as int,
                    ),
                forall|k: int, l: int|
                    0 <= k < l < i ==> (#[trigger] v[k]).id != (#[trigger] v[l]).id,
            decreases rows@.len() - i,
        {
            assert(v[i as int] == rows@[i as int]@);
            let id = task_id(rows[i].doc_id, rows[i].item_index);
            if !same_text(id.as_str(), rows[i].id.as_str()) {
                return None;
            }
            let mut j: usize = 0;
            while j < i
                invariant
                    j <= i < rows@.len(),
                    v == tasks_view(rows@),
                    forall|k: int| 0 <= k < j ==> (#[trigger] v[k]).id != v[i as int].id,
                decreases i - j,
            {
                assert(v[j as int] == rows@[j as int]@);
                assert(v[i as int] == rows@[i as int]@);
                if same_text(rows[j].id.as_str(), rows[i].id.as_str()) {
                    return None;
                }
                j += 1;
            }
            i += 1;
        }
        Some(TaskTable { rows })
    }

    /// The tasks, in the order of the index.
    pub fn rows(&self) -> (r: &Vec<DocTask>)
        ensures
            tasks_view(r@) == self@,
    {
        &self.rows
    }

    /// The tasks, handed out.
    pub fn into_rows(self) -> (r: Vec<DocTask>)
        ensures
            tasks_view(r@) == self@,
    {
        self.rows
    }

    fn position(&self, id: &str) -> (r: Option<usize>)
        ensures
            r is Some ==> r->0 < self@.len() && self@[r->0 as int].id == id@,
            r is None ==> !has_task(self@, id@),
    {
        let mut i: usize = 0;
        while i < self.rows.len()
            invariant
                i <= self.rows@.len(),
                self@ == tasks_view(self.rows@),
                forall|k: int| 0 <= k < i ==> (#[trigger] self@[k]).id != id@,
            decreases self.rows@.len() - i,
        {
            assert(self@[i as int] == self.rows@[i as int]@);
            if same_text(self.rows[i].id.as_str(), id) {
                return Some(i);
            }
            i += 1;
        }
        None
    }

    fn drop_stale(&mut self, doc_id: Uuid, items: &Vec<DocTaskInput>)
        requires
            old(self).wf(),
        ensures
            final(self).wf(),
            final(self)@ == old(self)@.filter(stays(doc_id, items_view(items@))),
    {
        let ghost rows = self@;
        let ghost iv = items_view(items@);
        let ghost p = stays(doc_id, iv);
        let mut new_ids: Vec<String> = Vec::new();
        let mut j: usize = 0;
        while j < items.len()
            invariant
                j <= items@.len(),
                new_ids@.len() == j,
                forall|k: int|
                    0 <= k < j ==> (#[trigger] new_ids@[k])@ == task_id_text(
                        doc_id,
                        items@[k].item_index as int,
                    ),
            decreases items@.len() - j,
        {
            new_ids.push(task_id(doc_id, items[j].item_index));
            j += 1;
        }
        assert forall|id: Seq<char>| (exists|k: int|
            0 <= k < new_ids@.len() && #[trigger] new_ids@[k]@ == id) == #[trigger] has_item(
            doc_id,
            iv,
            id,
        ) by {
            if exists|k: int| 0 <= k < new_ids@.len() && #[trigger] new_ids@[k]@ == id {
                let k = choose|k: int| 0 <= k < new_ids@.len() && #[trigger] new_ids@[k]@ == id;
                assert(iv[k] == items@[k]@);
            }
            if has_item(doc_id, iv, id) {
                let k = choose|k: int|
                    0 <= k < iv.len() && task_id_text(
                        doc_id,
                        (#[trigger] iv[k]).item_index as int,
                    ) == id;
                assert(new_ids@[k]@ == id);
            }
        }
        let stored: usize = self.rows.len();
        let mut gone: usize = 0;
        let mut i: usize = 0;
        proof {
            reveal(Seq::filter);
            assert(rows.take(0) =~= Seq::<DocTaskView>::empty());
            assert(rows.skip(0) =~= rows);
        }
        while i < self.rows.len()
            invariant
                i <= self.rows@.len(),
                p == stays(doc_id, iv),
                rows.len() == stored,
                gone + self.rows@.len() == rows.len(),
                forall|id: Seq<char>| (exists|k: int|
                    0 <= k < new_ids@.len() && #[trigger] new_ids@[k]@ == id)
                    == #[trigger] has_item(doc_id, iv, id),
                tasks_view(self.rows@).take(i as int) == rows.take(gone + i).filter(p),
                tasks_view(self.rows@).skip(i as int) == rows.skip(gone + i),
            decreases self.rows@.len() - i,
        {
            let ghost before = tasks_view(self.rows@);
            let ghost k = gone + i;
            proof {
                assert(before.skip(i as int)[0] == rows.skip(k)[0]);
                assert(self.rows@[i as int]@ == rows[k]);
                crate::seqs::lemma_filter_step(rows, k, p);
                assert(rows.skip(k + 1) =~= rows.skip(k).skip(1));
                assert(has_item(doc_id, iv, rows[k].id) == has_item(doc_id, iv, rows[k].id));
            }
            if self.rows[i].doc_id == doc_id && !any_text(&new_ids, self.rows[i].id.as_str()) {
                self.rows.remove(i);
                gone += 1;
                proof {
                    let after = tasks_view(self.rows@);
                    assert(after.take(i as int) =~= before.take(i as int));
                    assert(after.skip(i as int) =~= before.skip(i as int).skip(1));
                }
            } else {
                i += 1;
                proof {
                    assert(before.take(i as int) =~= before.take(i - 1).push(before[i - 1]));
                    assert(before.skip(i as int) =~= before.skip(i - 1).skip(1));
                }
            }
        }
        proof {
            assert(rows.take(gone + i) =~= rows);
            assert(tasks_view(self.rows@).take(i as int) =~= tasks_view(self.rows@));
            lemma_filter_valid_tasks(rows, p);
        }
    }

    fn put(
        &mut self,
        workspace_id: Uuid,
        doc_id: Uuid,
        item: &DocTaskInput,
        now: Timestamp,
    )
        requires
            old(self).wf(),
        ensures
            final(self).wf(),
            final(self)@ == put_task(old(self)@, workspace_id, doc_id, item@, now@),
    {
        let ghost rows = self@;
        proof {
            lemma_put_valid(rows, workspace_id, doc_id, item@, now@);
        }
        let id = task_id(doc_id, item.item_index);
        match self.position(id.as_str()) {
            Some(i) => {
                let task = reindex(&self.rows[i], item, now);
                self.rows.set(i, task);
                proof {
                    assert(rows[i as int].id == id@);
                    assert forall|k: int| 0 <= k < rows.len() implies #[trigger] self@[k]
                        == put_task(rows, workspace_id, doc_id, item@, now@)[k] by {
                        if k < i {
                            assert(rows[k].id != rows[i as int].id);
                        } else if i < k {
                            assert(rows[i as int].id != rows[k].id);
                        }
                    }
                    assert(self@ =~= put_task(rows, workspace_id, doc_id, item@, now@));
                }
            },
            None => {
                self.rows.push(fresh(workspace_id, doc_id, item, now));
                assert(self@ =~= put_task(rows, workspace_id, doc_id, item@, now@));
            },
        }
    }

    /// Replaces the task set of a document with `items` and returns the
    /// notifications that this gives rise to.
    ///
    /// Tasks that fell out of the new set go. The time of completion is kept
    /// across reindexing while the box stays as it was. `actor_id` is whoever's
    /// edit caused the reindexing; it becomes the actor of the notifications,
    /// and nobody is notified of a task they assigned to themselves.
    pub fn upsert_for_doc(
        &mut self,
        workspace_id: Uuid,
        doc_id: Uuid,
        items: &Vec<DocTaskInput>,
        actor_id: Option<Uuid>,
        now: Timestamp,
    ) -> (r: Vec<NewNotification>)
        requires
            old(self).wf(),
        ensures
            final(self).wf(),
            final(self)@ == after_upsert(
                old(self)@,
                workspace_id,
                doc_id,
                items_view(items@),
                now@,
            ),
            crate::notifications::notes_view(r@) == assignments(
                workspace_id,
                doc_id,
                items_view(items@),
                actor_id,
            ),
    {
        let ghost iv = items_view(items@);
        self.drop_stale(doc_id, items);
        let ghost kept = self@;
        let mut i: usize = 0;
        assert(iv.take(0) =~= Seq::<DocTaskInputView>::empty());
        while i < items.len()
            invariant
                i <= items@.len(),
                self.wf(),
                iv == items_view(items@),
                self@ == put_tasks(kept, workspace_id, doc_id, iv.take(i as int), now@),
            decreases items@.len() - i,
        {
            proof {
                assert(iv.take(i + 1).drop_last() =~= iv.take(i as int));
                assert(iv.take(i + 1).last() == items@[i as int]@);
            }
            self.put(workspace_id, doc_id, &items[i], now);
            i += 1;
        }
        assert(iv.take(i as int) =~= iv);
        assignment_notifications(workspace_id, doc_id, items, actor_id)
    }

    /// The tasks assigned to a user in a workspace, in the order of their list.
    pub fn list_for_assignee(
        &self,
        workspace_id: Uuid,
        user_id: Uuid,
        include_completed: bool,
    ) -> (r: Vec<DocTask>)
        ensures
            tasks_view(r@) == assignee_listing(self@, workspace_id, user_id, include_completed),
            crate::order::in_order::<DocTask, ByDue>(
                &(ByDue { checked_last: include_completed }),
                tasks_view(r@),
            ),
            tasks_view(r@).to_multiset() == self@.filter(
                on_list(workspace_id, user_id, include_completed),
            ).to_multiset(),
    {
        let order = ByDue { checked_last: include_completed };
        let ghost rows = self@;
        let ghost p = on_list(workspace_id, user_id, include_completed);
        let mut out: Vec<DocTask> = Vec::new();
        let mut i: usize = 0;
        proof {
            reveal(Seq::filter);
            assert(rows.take(0) =~= Seq::<DocTaskView>::empty());
            assert(tasks_view(out@) =~= crate::order::sorted::<DocTask, ByDue>(
                &order,
                rows.take(0).filter(p),
            ));
        }
        while i < self.rows.len()
            invariant
                i <= self.rows@.len(),
                rows == tasks_view(self.rows@),
                p == on_list(workspace_id, user_id, include_completed),
                tasks_view(out@) == crate::order::sorted::<DocTask, ByDue>(
                    &order,
                    rows.take(i as int).filter(p),
                ),
            decreases self.rows@.len() - i,
        {
            let row = &self.rows[i];
            assert(rows[i as int] == row@);
            proof {
                crate::seqs::lemma_filter_step(rows, i as int, p);
            }
            let theirs = match row.assignee_user_id {
                Some(a) => a == user_id,
                None => false,
            };
            if row.workspace_id == workspace_id && theirs && (include_completed
                || row.completed_at.is_none()) {
                let ghost before = out@;
                insert_in_order(&order, &mut out, row.clone());
                proof {
                    let front = rows.take(i as int).filter(p);
                    assert(crate::order::views(before) =~= tasks_view(before));
                    assert(crate::order::views(out@) =~= tasks_view(out@));
                    assert(front.push(row@).drop_last() =~= front);
                }
            }
            i += 1;
        }
        proof {
            assert(rows.take(i as int) =~= rows);
            crate::order::lemma_sorted::<DocTask, ByDue>(&order, rows.filter(p));
        }
        out
    }

    /// All tasks of a document, in the order of their places.
    pub fn list_for_doc(&self, doc_id: Uuid) -> (r: Vec<DocTask>)
        ensures
            tasks_view(r@) == doc_listing(self@, doc_id),
            crate::order::in_order::<DocTask, ByPlace>(&ByPlace, tasks_view(r@)),
            tasks_view(r@).to_multiset() == self@.filter(of_doc(doc_id)).to_multiset(),
    {
        let order = ByPlace;
        let ghost rows = self@;
        let ghost p = of_doc(doc_id);
        let mut out: Vec<DocTask> = Vec::new();
        let mut i: usize = 0;
        proof {
            reveal(Seq::filter);
            assert(rows.take(0) =~= Seq::<DocTaskView>::empty());
            assert(tasks_view(out@) =~= crate::order::sorted::<DocTask, ByPlace>(
                &order,
                rows.take(0).filter(p),
            ));
        }
        while i < self.rows.len()
            invariant
                i <= self.rows@.len(),
                rows == tasks_view(self.rows@),
                p == of_doc(doc_id),
                tasks_view(out@) == crate::order::sorted::<DocTask, ByPlace>(
                    &order,
                    rows.take(i as int).filter(p),
                ),
            decreases self.rows@.len() - i,
        {
            let row = &self.rows[i];
            assert(rows[i as int] == row@);
            proof {
                crate::seqs::lemma_filter_step(rows, i as int, p);
            }
            if row.doc_id == doc_id {
                let ghost before = out@;
                insert_in_order(&order, &mut out, row.clone());
                proof {
                    let front = rows.take(i as int).filter(p);
                    assert(crate::order::views(before) =~= tasks_view(before));
                    assert(crate::order::views(out@) =~= tasks_view(out@));
                    assert(front.push(row@).drop_last() =~= front);
                }
            }
            i += 1;
        }
        proof {
            assert(rows.take(i as int) =~= rows);
            crate::order::lemma_sorted::<DocTask, ByPlace>(&order, rows.filter(p));
        }
        out
    }
}

/// Dropping tasks keeps an index valid.
proof fn lemma_filter_valid_tasks(rows: Seq<DocTaskView>, p: spec_fn(DocTaskView) -> bool)
    requires
        valid_tasks(rows),
    ensures
        valid_tasks(rows.filter(p)),
{
    let kept = rows.filter(p);
    let at = crate::seqs::lemma_filter_order(rows, p);
    assert forall|i: int| 0 <= i < kept.len() implies (#[trigger] kept[i]).id == task_id_text(
        kept[i].doc_id,
        kept[i].item_index as int,
    ) by {
        assert(kept[i] == rows[at[i]]);
    }
    assert forall|i: int, j: int| 0 <= i < j < kept.len() implies (#[trigger] kept[i]).id != (
    #[trigger] kept[j]).id by {
        assert(kept[i] == rows[at[i]] && kept[j] == rows[at[j]]);
        assert(at[i] < at[j]);
    }
}

/// Extracting an item keeps an index valid.
proof fn lemma_put_valid(
    rows: Seq<DocTaskView>,
    workspace_id: Uuid,
    doc_id: Uuid,
    item: DocTaskInputView,
    now: i64,
)
    requires
        valid_tasks(rows),
    ensures
        valid_tasks(put_task(rows, workspace_id, doc_id, item, now)),
{
    let id = task_id_text(doc_id, item.item_index as int);
    let after = put_task(rows, workspace_id, doc_id, item, now);
    assert forall|i: int| 0 <= i < after.len() implies (#[trigger] after[i]).id == task_id_text(
        after[i].doc_id,
        after[i].item_index as int,
    ) by {
        if i < rows.len() {
            assert(rows[i].id == task_id_text(rows[i].doc_id, rows[i].item_index as int));
        }
    }
    assert forall|i: int, j: int| 0 <= i < j < after.len() implies (#[trigger] after[i]).id != (
    #[trigger] after[j]).id by {
        assert(after[i].id == rows[i].id);
        if j < rows.len() {
            assert(after[j].id == rows[j].id);
        }
    }
}

/// A task's identifier names one document and one place in it.
pub proof fn law_task_id_names_one_place(d1: Uuid, i1: int, d2: Uuid, i2: int)
    requires
        task_id_text(d1, i1) == task_id_text(d2, i2),
    ensures
        d1 == d2,
        i1 == i2,
{
    reveal_strlit(":");
    let a = task_id_text(d1, i1);
    let b = task_id_text(d2, i2);
    assert(a.take(36) =~= crate::ids::uuid_text(d1));
    assert(b.take(36) =~= crate::ids::uuid_text(d2));
    assert(a.skip(37) =~= crate::text::int_text(i1));
    assert(b.skip(37) =~= crate::text::int_text(i2));
    crate::ids::lemma_uuid_text_injective(d1, d2);
    crate::text::lemma_int_text_injective(i1, i2);
}

/// Two content keys with one prefix agree exactly where document, assignee and
/// digest of the text agree.
pub proof fn lemma_content_key(
    prefix: Seq<char>,
    d1: Uuid,
    t1: Seq<char>,
    a1: Uuid,
    d2: Uuid,
    t2: Seq<char>,
    a2: Uuid,
)
    ensures
        content_key_text(prefix, d1, t1, a1).len() == prefix.len() + 90,
        content_key_text(prefix, d1, t1, a1) == content_key_text(prefix, d2, t2, a2) <==> d1 == d2
            && text_digest(t1) == text_digest(t2) && a1 == a2,
{
    reveal_strlit(":");
    let n = prefix.len() as int;
    let x = content_key_text(prefix, d1, t1, a1);
    let y = content_key_text(prefix, d2, t2, a2);
    assert(x.subrange(n, n + 36) =~= crate::ids::uuid_text(d1));
    assert(y.subrange(n, n + 36) =~= crate::ids::uuid_text(d2));
    assert(x.subrange(n + 37, n + 53) =~= text_digest(t1));
    assert(y.subrange(n + 37, n + 53) =~= text_digest(t2));
    assert(x.subrange(n + 54, n + 90) =~= crate::ids::uuid_text(a1));
    assert(y.subrange(n + 54, n + 90) =~= crate::ids::uuid_text(a2));
    if x == y {
        crate::ids::lemma_uuid_text_injective(d1, d2);
        crate::ids::lemma_uuid_text_injective(a1, a2);
    }
}

/// An assignment is keyed on the document, the text and the assignee and on
/// nothing else: two share a key exactly where these agree, the text by the
/// start of its digest. So moving a task does not change its key, and editing
/// its text does wherever the digests differ.
pub proof fn law_assignment_is_keyed_on_content(
    d1: Uuid,
    t1: Seq<char>,
    a1: Uuid,
    d2: Uuid,
    t2: Seq<char>,
    a2: Uuid,
)
    ensures
        assigned_key_text(d1, t1, a1) == assigned_key_text(d2, t2, a2) <==> d1 == d2
            && text_digest(t1) == text_digest(t2) && a1 == a2,
{
    lemma_content_key("task_assigned:"@, d1, t1, a1, d2, t2, a2);
}

/// Every notification of a reindexing comes from one of its items.
proof fn lemma_assignments_from(
    workspace_id: Uuid,
    doc_id: Uuid,
    items: Seq<DocTaskInputView>,
    actor_id: Option<Uuid>,
    k: int,
) -> (j: int)
    requires
        0 <= k < assignments(workspace_id, doc_id, items, actor_id).len(),
    ensures
        0 <= j < items.len(),
        assignment(workspace_id, doc_id, items[j], actor_id) == Some(
            assignments(workspace_id, doc_id, items, actor_id)[k],
        ),
    decreases items.len(),
{
    let rest = assignments(workspace_id, doc_id, items.drop_last(), actor_id);
    if k < rest.len() {
        let j = lemma_assignments_from(workspace_id, doc_id, items.drop_last(), actor_id, k);
        assert(items.drop_last()[j] == items[j]);
        j
    } else {
        items.len() - 1
    }
}

/// Every item that calls for a notification gives one.
proof fn lemma_assignments_has(
    workspace_id: Uuid,
    doc_id: Uuid,
    items: Seq<DocTaskInputView>,
    actor_id: Option<Uuid>,
    j: int,
) -> (k: int)
    requires
        0 <= j < items.len(),
        assignment(workspace_id, doc_id, items[j], actor_id) is Some,
    ensures
        0 <= k < assignments(workspace_id, doc_id, items, actor_id).len(),
        assignment(workspace_id, doc_id, items[j], actor_id) == Some(
            assignments(workspace_id, doc_id, items, actor_id)[k],
        ),
    decreases items.len(),
{
    let rest = assignments(workspace_id, doc_id, items.drop_last(), actor_id);
    if j < items.len() - 1 {
        assert(items.drop_last()[j] == items[j]);
        lemma_assignments_has(workspace_id, doc_id, items.drop_last(), actor_id, j)
    } else {
        rest.len() as int
    }
}

/// A finished task notifies nobody, and nobody is notified of a task they
/// assigned to themselves.
pub proof fn law_only_open_tasks_of_others_notify(
    workspace_id: Uuid,
    doc_id: Uuid,
    items: Seq<DocTaskInputView>,
    actor_id: Option<Uuid>,
    k: int,
)
    requires
        0 <= k < assignments(workspace_id, doc_id, items, actor_id).len(),
    ensures
        ({
            let n = assignments(workspace_id, doc_id, items, actor_id)[k];
            &&& n.kind == NotificationKind::TaskAssigned
            &&& n.actor_id == actor_id
            &&& Some(n.user_id) != actor_id
            &&& exists|j: int|
                0 <= j < items.len() && !(#[trigger] items[j]).checked && items[j].assignee_user_id
                    == Some(n.user_id) && n.dedupe_key == assigned_key_text(
                    doc_id,
                    items[j].text,
                    n.user_id,
                )
        }),
{
    let j = lemma_assignments_from(workspace_id, doc_id, items, actor_id, k);
    assert(!items[j].checked);
}

/// Reordering a document's tasks, or inserting and removing others around them,
/// notifies nobody again: where every open task of the second reindexing has
/// one with the same text and assignee in the first, nothing is added.
pub proof fn law_reordering_notifies_nobody(
    inbox: crate::notifications::InboxView,
    workspace_id: Uuid,
    doc_id: Uuid,
    first: Seq<DocTaskInputView>,
    second: Seq<DocTaskInputView>,
    actor_id: Option<Uuid>,
    now: i64,
    later: i64,
)
    requires
        forall|j: int|
            0 <= j < second.len() && !(#[trigger] second[j]).checked ==> exists|i: int|
                0 <= i < first.len() && !(#[trigger] first[i]).checked && first[i].text
                    == second[j].text && first[i].assignee_user_id == second[j].assignee_user_id,
    ensures
        crate::notifications::after_emits(
            crate::notifications::after_emits(
                inbox,
                assignments(workspace_id, doc_id, first, actor_id),
                now,
            ),
            assignments(workspace_id, doc_id, second, actor_id),
            later,
        ) == crate::notifications::after_emits(
            inbox,
            assignments(workspace_id, doc_id, first, actor_id),
            now,
        ),
{
    let n1 = assignments(workspace_id, doc_id, first, actor_id);
    let n2 = assignments(workspace_id, doc_id, second, actor_id);
    assert forall|l: int| 0 <= l < n2.len() implies crate::notifications::is_self_notification(
        #[trigger] n2[l],
    ) || exists|k: int|
        0 <= k < n1.len() && !crate::notifications::is_self_notification(n1[k])
            && (#[trigger] n1[k]).user_id == n2[l].user_id && n1[k].dedupe_key
            == n2[l].dedupe_key by {
        let j = lemma_assignments_from(workspace_id, doc_id, second, actor_id, l);
        assert(!second[j].checked);
        let i = choose|i: int|
            0 <= i < first.len() && !(#[trigger] first[i]).checked && first[i].text
                == second[j].text && first[i].assignee_user_id == second[j].assignee_user_id;
        let k = lemma_assignments_has(workspace_id, doc_id, first, actor_id, i);
        assert(n1[k].user_id == n2[l].user_id);
    }
    crate::notifications::law_repeated_batch_adds_nothing(inbox, n1, n2, now, later);
}

/// Editing a task's text notifies its assignee again, once: where one item of the
/// second reindexing calls for a notification and its text has another digest
/// than every open task of that assignee in the first, and where every other open
/// task has one with the same text and assignee in the first or is the edited one
/// over again, the second adds exactly one row, unless the inbox knew the edited
/// task before. The row is the edited task's.
pub proof fn law_editing_the_text_notifies(
    inbox: crate::notifications::InboxView,
    workspace_id: Uuid,
    doc_id: Uuid,
    first: Seq<DocTaskInputView>,
    second: Seq<DocTaskInputView>,
    e: int,
    actor_id: Option<Uuid>,
    now: i64,
    later: i64,
)
    requires
        0 <= e < second.len(),
        assignment(workspace_id, doc_id, second[e], actor_id) is Some,
        forall|i: int|
            0 <= i < first.len() && !(#[trigger] first[i]).checked && first[i].assignee_user_id
                == second[e].assignee_user_id ==> text_digest(first[i].text) != text_digest(
                second[e].text,
            ),
        forall|j: int|
            0 <= j < second.len() && !(#[trigger] second[j]).checked ==> (second[j].text
                == second[e].text && second[j].assignee_user_id == second[e].assignee_user_id)
                || exists|i: int|
                0 <= i < first.len() && !(#[trigger] first[i]).checked && first[i].text
                    == second[j].text && first[i].assignee_user_id == second[j].assignee_user_id,
        !crate::notifications::has_key(
            inbox.rows,
            second[e].assignee_user_id->0,
            assigned_key_text(doc_id, second[e].text, second[e].assignee_user_id->0),
        ),
    ensures
        ({
            let before = crate::notifications::after_emits(
                inbox,
                assignments(workspace_id, doc_id, first, actor_id),
                now,
            );
            let after = crate::notifications::after_emits(
                before,
                assignments(workspace_id, doc_id, second, actor_id),
                later,
            );
            &&& after.rows.len() == before.rows.len() + 1
            &&& after.rows.drop_last() == before.rows
            &&& after.rows.last().note.user_id == second[e].assignee_user_id->0
            &&& after.rows.last().note.dedupe_key == assigned_key_text(
                doc_id,
                second[e].text,
                second[e].assignee_user_id->0,
            )
        }),
{
    let n1 = assignments(workspace_id, doc_id, first, actor_id);
    let n2 = assignments(workspace_id, doc_id, second, actor_id);
    let n = assignment(workspace_id, doc_id, second[e], actor_id)->0;
    let before = crate::notifications::after_emits(inbox, n1, now);
    assert forall|k: int| 0 <= k < n1.len() implies !((#[trigger] n1[k]).user_id == n.user_id
        && n1[k].dedupe_key == n.dedupe_key) by {
        let j = lemma_assignments_from(workspace_id, doc_id, first, actor_id, k);
        assert(!first[j].checked);
        law_assignment_is_keyed_on_content(
            doc_id,
            first[j].text,
            n1[k].user_id,
            doc_id,
            second[e].text,
            n.user_id,
        );
    }
    crate::notifications::lemma_emits_add_only_the_batch(inbox, n1, now, n.user_id, n.dedupe_key);
    let k = lemma_assignments_has(workspace_id, doc_id, second, actor_id, e);
    assert forall|l: int| 0 <= l < n2.len() implies !crate::notifications::is_new(
        before,
        #[trigger] n2[l],
    ) || (n2[l].user_id == n2[k].user_id && n2[l].dedupe_key == n2[k].dedupe_key) by {
        let j = lemma_assignments_from(workspace_id, doc_id, second, actor_id, l);
        assert(!second[j].checked);
        if !(second[j].text == second[e].text && second[j].assignee_user_id
            == second[e].assignee_user_id) {
            let i = choose|i: int|
                0 <= i < first.len() && !(#[trigger] first[i]).checked && first[i].text
                    == second[j].text && first[i].assignee_user_id == second[j].assignee_user_id;
            let q = lemma_assignments_has(workspace_id, doc_id, first, actor_id, i);
            crate::notifications::lemma_emits_settle(inbox, n1, now, q);
        }
    }
    let m = crate::notifications::lemma_emits_add_one(before, n2, later, k);
    let after = crate::notifications::after_emits(before, n2, later);
    assert(after.rows.drop_last() =~= before.rows);
}

proof fn lemma_put_has(
    rows: Seq<DocTaskView>,
    workspace_id: Uuid,
    doc_id: Uuid,
    item: DocTaskInputView,
    now: i64,
    id: Seq<char>,
)
    ensures
        has_task(put_task(rows, workspace_id, doc_id, item, now), id) <==> has_task(rows, id) || id
            == task_id_text(doc_id, item.item_index as int),
{
    let after = put_task(rows, workspace_id, doc_id, item, now);
    if has_task(rows, id) {
        let i = choose|i: int| 0 <= i < rows.len() && (#[trigger] rows[i]).id == id;
        assert(after[i].id == id);
    }
    if has_task(after, id) {
        let i = choose|i: int| 0 <= i < after.len() && (#[trigger] after[i]).id == id;
        if i < rows.len() {
            assert(rows[i].id == id);
        }
    }
    if id == task_id_text(doc_id, item.item_index as int) && !has_task(rows, id) {
        assert(after[rows.len() as int].id == id);
    }
}

proof fn lemma_puts_have(
    rows: Seq<DocTaskView>,
    workspace_id: Uuid,
    doc_id: Uuid,
    items: Seq<DocTaskInputView>,
    now: i64,
    id: Seq<char>,
)
    ensures
        has_task(put_tasks(rows, workspace_id, doc_id, items, now), id) <==> has_task(rows, id)
            || has_item(doc_id, items, id),
    decreases items.len(),
{
    if items.len() > 0 {
        let rest = items.drop_last();
        lemma_puts_have(rows, workspace_id, doc_id, rest, now, id);
        lemma_put_has(
            put_tasks(rows, workspace_id, doc_id, rest, now),
            workspace_id,
            doc_id,
            items.last(),
            now,
            id,
        );
        if has_item(doc_id, rest, id) {
            let j = choose|j: int|
                0 <= j < rest.len() && task_id_text(doc_id, (#[trigger] rest[j]).item_index as int)
                    == id;
            assert(items[j] == rest[j]);
        }
        if has_item(doc_id, items, id) {
            let j = choose|j: int|
                0 <= j < items.len() && task_id_text(
                    doc_id,
                    (#[trigger] items[j]).item_index as int,
                ) == id;
            if j < rest.len() {
                assert(rest[j] == items[j]);
            }
        }
        assert(items[items.len() - 1] == items.last());
    }
}

proof fn lemma_puts_valid(
    rows: Seq<DocTaskView>,
    workspace_id: Uuid,
    doc_id: Uuid,
    items: Seq<DocTaskInputView>,
    now: i64,
)
    requires
        valid_tasks(rows),
    ensures
        valid_tasks(put_tasks(rows, workspace_id, doc_id, items, now)),
    decreases items.len(),
{
    if items.len() > 0 {
        lemma_puts_valid(rows, workspace_id, doc_id, items.drop_last(), now);
        lemma_put_valid(
            put_tasks(rows, workspace_id, doc_id, items.drop_last(), now),
            workspace_id,
            doc_id,
            items.last(),
            now,
        );
    }
}

/// Replacing a document's tasks leaves exactly the places of the new items
/// indexed for it.
pub proof fn law_upsert_replaces_the_set(
    rows: Seq<DocTaskView>,
    workspace_id: Uuid,
    doc_id: Uuid,
    items: Seq<DocTaskInputView>,
    now: i64,
    place: int,
)
    requires
        valid_tasks(rows),
    ensures
        has_task(
            after_upsert(rows, workspace_id, doc_id, items, now),
            task_id_text(doc_id, place),
        ) <==> has_item(doc_id, items, task_id_text(doc_id, place)),
{
    let id = task_id_text(doc_id, place);
    let p = stays(doc_id, items);
    let kept = rows.filter(p);
    lemma_puts_have(kept, workspace_id, doc_id, items, now, id);
    if has_task(kept, id) {
        let i = choose|i: int| 0 <= i < kept.len() && (#[trigger] kept[i]).id == id;
        rows.lemma_filter_pred(p, i);
        let at = crate::seqs::lemma_filter_order(rows, p);
        assert(kept[i] == rows[at[i]]);
        law_task_id_names_one_place(
            kept[i].doc_id,
            kept[i].item_index as int,
            doc_id,
            place,
        );
    }
}

proof fn lemma_put_others(
    rows: Seq<DocTaskView>,
    workspace_id: Uuid,
    doc_id: Uuid,
    item: DocTaskInputView,
    now: i64,
)
    requires
        valid_tasks(rows),
    ensures
        put_task(rows, workspace_id, doc_id, item, now).filter(of_others(doc_id)) == rows.filter(
            of_others(doc_id),
        ),
{
    let id = task_id_text(doc_id, item.item_index as int);
    let p = of_others(doc_id);
    let after = put_task(rows, workspace_id, doc_id, item, now);
    if has_task(rows, id) {
        assert forall|i: int| 0 <= i < after.len() implies p(#[trigger] after[i]) == p(rows[i])
            && (p(after[i]) ==> after[i] == rows[i]) by {
            if rows[i].id == id {
                law_task_id_names_one_place(
                    rows[i].doc_id,
                    rows[i].item_index as int,
                    doc_id,
                    item.item_index as int,
                );
            }
        }
        crate::seqs::lemma_filter_pointwise(after, rows, p);
    } else {
        reveal(Seq::filter);
        assert(after.drop_last() =~= rows);
    }
}

/// The tasks of the other documents.
pub open spec fn of_others(doc_id: Uuid) -> spec_fn(DocTaskView) -> bool {
    |t: DocTaskView| t.doc_id != doc_id
}

proof fn lemma_puts_others(
    rows: Seq<DocTaskView>,
    workspace_id: Uuid,
    doc_id: Uuid,
    items: Seq<DocTaskInputView>,
    now: i64,
)
    requires
        valid_tasks(rows),
    ensures
        put_tasks(rows, workspace_id, doc_id, items, now).filter(of_others(doc_id)) == rows.filter(
            of_others(doc_id),
        ),
    decreases items.len(),
{
    if items.len() > 0 {
        lemma_puts_others(rows, workspace_id, doc_id, items.drop_last(), now);
        lemma_puts_valid(rows, workspace_id, doc_id, items.drop_last(), now);
        lemma_put_others(
            put_tasks(rows, workspace_id, doc_id, items.drop_last(), now),
            workspace_id,
            doc_id,
            items.last(),
            now,
        );
    }
}

/// Replacing a document's tasks leaves those of every other document as they
/// were.
pub proof fn law_upsert_leaves_other_documents(
    rows: Seq<DocTaskView>,
    workspace_id: Uuid,
    doc_id: Uuid,
    items: Seq<DocTaskInputView>,
    now: i64,
)
    requires
        valid_tasks(rows),
    ensures
        after_upsert(rows, workspace_id, doc_id, items, now).filter(of_others(doc_id))
            == rows.filter(of_others(doc_id)),
{
    let p = stays(doc_id, items);
    lemma_filter_valid_tasks(rows, p);
    lemma_puts_others(rows.filter(p), workspace_id, doc_id, items, now);
    crate::seqs::lemma_filter_nested(rows, p, of_others(doc_id));
}

proof fn lemma_put_keeps(
    rows: Seq<DocTaskView>,
    workspace_id: Uuid,
    doc_id: Uuid,
    item: DocTaskInputView,
    now: i64,
    task: DocTaskView,
)
    requires
        rows.contains(task),
    ensures
        task.id != task_id_text(doc_id, item.item_index as int) ==> put_task(
            rows,
            workspace_id,
            doc_id,
            item,
            now,
        ).contains(task),
        task.id == task_id_text(doc_id, item.item_index as int) ==> put_task(
            rows,
            workspace_id,
            doc_id,
            item,
            now,
        ).contains(reindexed(task, item, now)),
{
    let after = put_task(rows, workspace_id, doc_id, item, now);
    let i = choose|i: int| 0 <= i < rows.len() && rows[i] == task;
    if task.id == task_id_text(doc_id, item.item_index as int) {
        assert(has_task(rows, task.id));
        assert(after[i] == reindexed(task, item, now));
    } else {
        assert(after[i] == task);
    }
}

proof fn lemma_puts_keep(
    rows: Seq<DocTaskView>,
    workspace_id: Uuid,
    doc_id: Uuid,
    items: Seq<DocTaskInputView>,
    now: i64,
    task: DocTaskView,
)
    requires
        rows.contains(task),
        !has_item(doc_id, items, task.id),
    ensures
        put_tasks(rows, workspace_id, doc_id, items, now).contains(task),
    decreases items.len(),
{
    if items.len() > 0 {
        let rest = items.drop_last();
        if has_item(doc_id, rest, task.id) {
            let j = choose|j: int|
                0 <= j < rest.len() && task_id_text(doc_id, (#[trigger] rest[j]).item_index as int)
                    == task.id;
            assert(items[j] == rest[j]);
        }
        lemma_puts_keep(rows, workspace_id, doc_id, rest, now, task);
        assert(items[items.len() - 1] == items.last());
        lemma_put_keeps(
            put_tasks(rows, workspace_id, doc_id, rest, now),
            workspace_id,
            doc_id,
            items.last(),
            now,
            task,
        );
    }
}

proof fn lemma_puts_update(
    rows: Seq<DocTaskView>,
    workspace_id: Uuid,
    doc_id: Uuid,
    items: Seq<DocTaskInputView>,
    now: i64,
    task: DocTaskView,
    j: int,
)
    requires
        rows.contains(task),
        0 <= j < items.len(),
        task.id == task_id_text(doc_id, items[j].item_index as int),
        forall|l: int| 0 <= l < items.len() && l != j ==> (#[trigger] items[l]).item_index
            != items[j].item_index,
    ensures
        put_tasks(rows, workspace_id, doc_id, items, now).contains(
            reindexed(task, items[j], now),
        ),
    decreases items.len(),
{
    let rest = items.drop_last();
    let before = put_tasks(rows, workspace_id, doc_id, rest, now);
    if j == items.len() - 1 {
        if has_item(doc_id, rest, task.id) {
            let l = choose|l: int|
                0 <= l < rest.len() && task_id_text(doc_id, (#[trigger] rest[l]).item_index as int)
                    == task.id;
            assert(items[l] == rest[l]);
            law_task_id_names_one_place(
                doc_id,
                items[l].item_index as int,
                doc_id,
                items[j].item_index as int,
            );
        }
        lemma_puts_keep(rows, workspace_id, doc_id, rest, now, task);
        lemma_put_keeps(before, workspace_id, doc_id, items.last(), now, task);
    } else {
        assert(rest[j] == items[j]);
        assert forall|l: int| 0 <= l < rest.len() && l != j implies (#[trigger] rest[l]).item_index
            != rest[j].item_index by {
            assert(rest[l] == items[l]);
        }
        lemma_puts_update(rows, workspace_id, doc_id, rest, now, task, j);
        let last = items[items.len() - 1];
        let t2 = reindexed(task, items[j], now);
        if t2.id == task_id_text(doc_id, last.item_index as int) {
            law_task_id_names_one_place(
                doc_id,
                last.item_index as int,
                doc_id,
                items[j].item_index as int,
            );
        }
        lemma_put_keeps(before, workspace_id, doc_id, last, now, t2);
    }
}

/// A task whose place occurs once among the new items is carried over: it keeps
/// its identity and the time it was indexed first and takes all else from its
/// item. Its time of completion is kept exactly while its box stays as it was:
/// ticking takes the time, clearing drops it.
pub proof fn law_completion_survives_reindexing(
    rows: Seq<DocTaskView>,
    workspace_id: Uuid,
    doc_id: Uuid,
    items: Seq<DocTaskInputView>,
    now: i64,
    task: DocTaskView,
    j: int,
)
    requires
        rows.contains(task),
        task.doc_id == doc_id,
        0 <= j < items.len(),
        task.id == task_id_text(doc_id, items[j].item_index as int),
        forall|l: int| 0 <= l < items.len() && l != j ==> (#[trigger] items[l]).item_index
            != items[j].item_index,
    ensures
        ({
            let t2 = reindexed(task, items[j], now);
            &&& after_upsert(rows, workspace_id, doc_id, items, now).contains(t2)
            &&& t2.id == task.id
            &&& t2.workspace_id == task.workspace_id
            &&& t2.doc_id == task.doc_id
            &&& t2.item_index == task.item_index
            &&& t2.text == items[j].text
            &&& t2.assignee_user_id == items[j].assignee_user_id
            &&& t2.checked == items[j].checked
            &&& t2.due_at == items[j].due_at
            &&& t2.created_at == task.created_at
            &&& t2.updated_at == now
            &&& task.checked == items[j].checked ==> t2.completed_at == task.completed_at
            &&& !task.checked && items[j].checked ==> t2.completed_at == Some(now)
            &&& task.checked && !items[j].checked ==> t2.completed_at is None
        }),
{
    let p = stays(doc_id, items);
    assert(has_item(doc_id, items, task.id));
    crate::seqs::lemma_filter_contains(rows, p, task);
    lemma_puts_update(rows.filter(p), workspace_id, doc_id, items, now, task, j);
}

proof fn lemma_puts_hold(
    rows: Seq<DocTaskView>,
    workspace_id: Uuid,
    doc_id: Uuid,
    items: Seq<DocTaskInputView>,
    now: i64,
    j: int,
) -> (k: int)
    requires
        0 <= j < items.len(),
        forall|l: int| j < l < items.len() ==> (#[trigger] items[l]).item_index
            != items[j].item_index,
    ensures
        ({
            let after = put_tasks(rows, workspace_id, doc_id, items, now);
            &&& 0 <= k < after.len()
            &&& after[k].id == task_id_text(doc_id, items[j].item_index as int)
            &&& after[k].text == items[j].text
            &&& after[k].assignee_user_id == items[j].assignee_user_id
            &&& after[k].checked == items[j].checked
            &&& after[k].due_at == items[j].due_at
            &&& after[k].updated_at == now
        }),
    decreases items.len(),
{
    let rest = items.drop_last();
    let before = put_tasks(rows, workspace_id, doc_id, rest, now);
    let after = put_tasks(rows, workspace_id, doc_id, items, now);
    let id = task_id_text(doc_id, items[j].item_index as int);
    if j == items.len() - 1 {
        if has_task(before, id) {
            let k = choose|k: int| 0 <= k < before.len() && (#[trigger] before[k]).id == id;
            assert(after[k] == reindexed(before[k], items[j], now));
            k
        } else {
            before.len() as int
        }
    } else {
        assert forall|l: int| j < l < rest.len() implies (#[trigger] rest[l]).item_index
            != rest[j].item_index by {
            assert(rest[l] == items[l]);
        }
        let k = lemma_puts_hold(rows, workspace_id, doc_id, rest, now, j);
        let last = items[items.len() - 1];
        if id == task_id_text(doc_id, last.item_index as int) {
            law_task_id_names_one_place(
                doc_id,
                last.item_index as int,
                doc_id,
                items[j].item_index as int,
            );
        }
        assert(after[k] == before[k]);
        k
    }
}

/// What is indexed is what the document says: after a document's items were
/// replaced there is exactly one row at the place of each item, and its text,
/// assignee, box and due time are those of the last item at that place, whether
/// or not the place was indexed before and whatever stood there.
pub proof fn law_items_are_indexed_as_extracted(
    rows: Seq<DocTaskView>,
    workspace_id: Uuid,
    doc_id: Uuid,
    items: Seq<DocTaskInputView>,
    now: i64,
    j: int,
)
    requires
        valid_tasks(rows),
        0 <= j < items.len(),
        forall|l: int| j < l < items.len() ==> (#[trigger] items[l]).item_index
            != items[j].item_index,
    ensures
        ({
            let after = after_upsert(rows, workspace_id, doc_id, items, now);
            exists|k: int|
                {
                    &&& 0 <= k < after.len()
                    &&& (#[trigger] after[k]).doc_id == doc_id
                    &&& after[k].item_index == items[j].item_index
                    &&& after[k].text == items[j].text
                    &&& after[k].assignee_user_id == items[j].assignee_user_id
                    &&& after[k].checked == items[j].checked
                    &&& after[k].due_at == items[j].due_at
                    &&& after[k].updated_at == now
                    &&& forall|m: int|
                        0 <= m < after.len() && m != k ==> !((#[trigger] after[m]).doc_id == doc_id
                            && after[m].item_index == items[j].item_index)
                }
        }),
{
    let kept = rows.filter(stays(doc_id, items));
    let after = after_upsert(rows, workspace_id, doc_id, items, now);
    lemma_filter_valid_tasks(rows, stays(doc_id, items));
    lemma_puts_valid(kept, workspace_id, doc_id, items, now);
    let k = lemma_puts_hold(kept, workspace_id, doc_id, items, now, j);
    law_task_id_names_one_place(
        after[k].doc_id,
        after[k].item_index as int,
        doc_id,
        items[j].item_index as int,
    );
    assert forall|m: int| 0 <= m < after.len() && m != k implies !((#[trigger] after[m]).doc_id
        == doc_id && after[m].item_index == items[j].item_index) by {
        assert(after[m].id != after[k].id);
    }
}

proof fn lemma_puts_fresh(
    rows: Seq<DocTaskView>,
    workspace_id: Uuid,
    doc_id: Uuid,
    items: Seq<DocTaskInputView>,
    now: i64,
    j: int,
)
    requires
        0 <= j < items.len(),
        !has_task(rows, task_id_text(doc_id, items[j].item_index as int)),
        forall|l: int| 0 <= l < items.len() && l != j ==> (#[trigger] items[l]).item_index
            != items[j].item_index,
    ensures
        put_tasks(rows, workspace_id, doc_id, items, now).contains(
            fresh_task(workspace_id, doc_id, items[j], now),
        ),
    decreases items.len(),
{
    let rest = items.drop_last();
    let before = put_tasks(rows, workspace_id, doc_id, rest, now);
    let after = put_tasks(rows, workspace_id, doc_id, items, now);
    let fresh = fresh_task(workspace_id, doc_id, items[j], now);
    if j == items.len() - 1 {
        lemma_puts_have(rows, workspace_id, doc_id, rest, now, fresh.id);
        if has_item(doc_id, rest, fresh.id) {
            let l = choose|l: int|
                0 <= l < rest.len() && task_id_text(doc_id, (#[trigger] rest[l]).item_index as int)
                    == fresh.id;
            assert(items[l] == rest[l]);
            law_task_id_names_one_place(
                doc_id,
                items[l].item_index as int,
                doc_id,
                items[j].item_index as int,
            );
        }
        assert(after[before.len() as int] == fresh);
    } else {
        assert(rest[j] == items[j]);
        assert forall|l: int| 0 <= l < rest.len() && l != j implies (#[trigger] rest[l]).item_index
            != rest[j].item_index by {
            assert(rest[l] == items[l]);
        }
        lemma_puts_fresh(rows, workspace_id, doc_id, rest, now, j);
        let last = items[items.len() - 1];
        if fresh.id == task_id_text(doc_id, last.item_index as int) {
            law_task_id_names_one_place(
                doc_id,
                last.item_index as int,
                doc_id,
                items[j].item_index as int,
            );
        }
        lemma_put_keeps(before, workspace_id, doc_id, last, now, fresh);
    }
}

/// An item at a place that was not indexed before, and that no other item has, is
/// indexed in the workspace it was reported for, from now on, as finished now
/// where its box is ticked and as open where it is not.
pub proof fn law_a_new_item_starts_now(
    rows: Seq<DocTaskView>,
    workspace_id: Uuid,
    doc_id: Uuid,
    items: Seq<DocTaskInputView>,
    now: i64,
    j: int,
)
    requires
        valid_tasks(rows),
        0 <= j < items.len(),
        forall|i: int|
            0 <= i < rows.len() ==> !((#[trigger] rows[i]).doc_id == doc_id && rows[i].item_index
                == items[j].item_index),
        forall|l: int| 0 <= l < items.len() && l != j ==> (#[trigger] items[l]).item_index
            != items[j].item_index,
    ensures
        ({
            let after = after_upsert(rows, workspace_id, doc_id, items, now);
            exists|k: int|
                {
                    &&& 0 <= k < after.len()
                    &&& (#[trigger] after[k]).doc_id == doc_id
                    &&& after[k].item_index == items[j].item_index
                    &&& after[k].workspace_id == workspace_id
                    &&& after[k].created_at == now
                    &&& items[j].checked ==> after[k].completed_at == Some(now)
                    &&& !items[j].checked ==> after[k].completed_at is None
                }
        }),
{
    let kept = rows.filter(stays(doc_id, items));
    let after = after_upsert(rows, workspace_id, doc_id, items, now);
    let id = task_id_text(doc_id, items[j].item_index as int);
    if has_task(kept, id) {
        let i = choose|i: int| 0 <= i < kept.len() && (#[trigger] kept[i]).id == id;
        assert(kept.contains(kept[i]));
        crate::seqs::lemma_filter_contains(rows, stays(doc_id, items), kept[i]);
        let h = choose|h: int| 0 <= h < rows.len() && rows[h] == kept[i];
        law_task_id_names_one_place(
            rows[h].doc_id,
            rows[h].item_index as int,
            doc_id,
            items[j].item_index as int,
        );
    }
    lemma_puts_fresh(kept, workspace_id, doc_id, items, now, j);
    let k = choose|k: int|
        0 <= k < after.len() && after[k] == fresh_task(workspace_id, doc_id, items[j], now);
    assert(after[k].doc_id == doc_id);
}

/// Which items call for a notification: the open ones that are assigned to
/// someone else than who edited.
pub open spec fn calls_for_notice(actor_id: Option<Uuid>) -> spec_fn(DocTaskInputView) -> bool {
    |item: DocTaskInputView|
        !item.checked && item.assignee_user_id is Some && actor_id != item.assignee_user_id
}

/// Reindexing tells of every open item that is assigned to someone else than who
/// edited, once for each and in their order, and of nothing else. The
/// notification goes to the assignee and carries the item's text; it points to
/// the item's place, and its key names document, text and assignee.
pub proof fn law_open_items_of_others_are_told(
    workspace_id: Uuid,
    doc_id: Uuid,
    items: Seq<DocTaskInputView>,
    actor_id: Option<Uuid>,
)
    ensures
        ({
            let notes = assignments(workspace_id, doc_id, items, actor_id);
            let told = items.filter(calls_for_notice(actor_id));
            &&& notes.len() == told.len()
            &&& forall|k: int|
                0 <= k < notes.len() ==> {
                    let n = #[trigger] notes[k];
                    let item = told[k];
                    &&& n.workspace_id == workspace_id
                    &&& Some(n.user_id) == item.assignee_user_id
                    &&& n.actor_id == actor_id
                    &&& n.kind == NotificationKind::TaskAssigned
                    &&& n.doc_id == Some(doc_id)
                    &&& n.target_kind == "task"@
                    &&& n.target_id == crate::ids::uuid_text(doc_id) + ":"@ + crate::text::int_text(
                        item.item_index as int,
                    )
                    &&& n.data is Task
                    &&& n.data->Task_text == item.text
                    &&& n.dedupe_key == "task_assigned:"@ + crate::ids::uuid_text(doc_id) + ":"@
                        + text_digest(item.text) + ":"@ + crate::ids::uuid_text(n.user_id)
                }
        }),
    decreases items.len(),
{
    reveal(Seq::filter);
    if items.len() > 0 {
        law_open_items_of_others_are_told(workspace_id, doc_id, items.drop_last(), actor_id);
    }
}

/// Which tasks a user's list holds: theirs in the workspace, and without the
/// completed ones only those that are open.
pub open spec fn is_on_the_list(
    workspace_id: Uuid,
    user_id: Uuid,
    include_completed: bool,
) -> spec_fn(DocTaskView) -> bool {
    |t: DocTaskView|
        {
            &&& t.workspace_id == workspace_id
            &&& t.assignee_user_id == Some(user_id)
            &&& include_completed || t.completed_at is None
        }
}

/// A user's list holds exactly the tasks of the workspace that are assigned to
/// them, the completed ones where they are asked for. Open tasks come before
/// finished ones; of two that are both open or both finished the one due earlier
/// comes first, and those without a due time come last; where that does not
/// decide, the one updated last comes first.
pub proof fn law_a_list_holds_the_users_tasks_in_order(
    rows: Seq<DocTaskView>,
    workspace_id: Uuid,
    user_id: Uuid,
    include_completed: bool,
)
    ensures
        ({
            let list = assignee_listing(rows, workspace_id, user_id, include_completed);
            &&& list.to_multiset() == rows.filter(
                is_on_the_list(workspace_id, user_id, include_completed),
            ).to_multiset()
            &&& forall|t: DocTaskView| #[trigger]
                list.contains(t) <==> rows.contains(t) && t.workspace_id == workspace_id
                    && t.assignee_user_id == Some(user_id) && (include_completed
                    || t.completed_at is None)
            &&& forall|i: int, j: int|
                0 <= i < j < list.len() ==> {
                    let a = #[trigger] list[i];
                    let b = #[trigger] list[j];
                    &&& include_completed && a.checked ==> b.checked
                    &&& !include_completed || a.checked == b.checked ==> {
                        &&& a.due_at is None ==> b.due_at is None
                        &&& a.due_at is Some && b.due_at is Some ==> a.due_at->0 <= b.due_at->0
                        &&& a.due_at == b.due_at ==> a.updated_at >= b.updated_at
                    }
                }
        }),
{
    let order = ByDue { checked_last: include_completed };
    let p = on_list(workspace_id, user_id, include_completed);
    let q = is_on_the_list(workspace_id, user_id, include_completed);
    let list = assignee_listing(rows, workspace_id, user_id, include_completed);
    crate::order::lemma_sorted::<DocTask, ByDue>(&order, rows.filter(p));
    crate::seqs::lemma_filter_agree(rows, p, q);
    assert forall|t: DocTaskView| #[trigger] list.contains(t) <==> rows.contains(t) && q(t) by {
        crate::seqs::lemma_same_multiset_contains(list, rows.filter(q), t);
        crate::seqs::lemma_filter_contains(rows, q, t);
    }
    assert forall|i: int, j: int| 0 <= i < j < list.len() implies order.at_most(
        #[trigger] list[i],
        #[trigger] list[j],
    ) by {}
}

/// A document's list holds exactly its tasks, by their places.
pub proof fn law_a_document_lists_its_tasks_by_place(rows: Seq<DocTaskView>, doc_id: Uuid)
    ensures
        ({
            let list = doc_listing(rows, doc_id);
            &&& list.to_multiset() == rows.filter(|t: DocTaskView| t.doc_id == doc_id).to_multiset()
            &&& forall|t: DocTaskView| #[trigger]
                list.contains(t) <==> rows.contains(t) && t.doc_id == doc_id
            &&& forall|i: int, j: int|
                0 <= i < j < list.len() ==> (#[trigger] list[i]).item_index <= (
                #[trigger] list[j]).item_index
        }),
{
    let q = |t: DocTaskView| t.doc_id == doc_id;
    let list = doc_listing(rows, doc_id);
    crate::order::lemma_sorted::<DocTask, ByPlace>(&ByPlace, rows.filter(of_doc(doc_id)));
    crate::seqs::lemma_filter_agree(rows, of_doc(doc_id), q);
    assert forall|t: DocTaskView| #[trigger] list.contains(t) <==> rows.contains(t) && t.doc_id
        == doc_id by {
        crate::seqs::lemma_same_multiset_contains(list, rows.filter(of_doc(doc_id)), t);
        crate::seqs::lemma_filter_contains(rows, of_doc(doc_id), t);
    }
    assert forall|i: int, j: int| 0 <= i < j < list.len() implies ByPlace.at_most(
        #[trigger] list[i],
        #[trigger] list[j],
    ) by {}
}

/// Giving a task to someone else takes it off the list it was on: after a
/// document's items were replaced, whatever is on a user's list at the place of an
/// item is assigned to that user by the last item there, and is listed as that
/// item says.
pub proof fn law_a_list_follows_the_document(
    rows: Seq<DocTaskView>,
    workspace_id: Uuid,
    doc_id: Uuid,
    items: Seq<DocTaskInputView>,
    now: i64,
    j: int,
    user_id: Uuid,
)
    requires
        valid_tasks(rows),
        0 <= j < items.len(),
        forall|l: int| j < l < items.len() ==> (#[trigger] items[l]).item_index
            != items[j].item_index,
    ensures
        ({
            let list = assignee_listing(
                after_upsert(rows, workspace_id, doc_id, items, now),
                workspace_id,
                user_id,
                true,
            );
            forall|k: int|
                0 <= k < list.len() && (#[trigger] list[k]).doc_id == doc_id && list[k].item_index
                    == items[j].item_index ==> items[j].assignee_user_id == Some(user_id)
                    && list[k].text == items[j].text && list[k].checked == items[j].checked
                    && list[k].due_at == items[j].due_at
        }),
{
    let after = after_upsert(rows, workspace_id, doc_id, items, now);
    let list = assignee_listing(after, workspace_id, user_id, true);
    law_items_are_indexed_as_extracted(rows, workspace_id, doc_id, items, now, j);
    law_a_list_holds_the_users_tasks_in_order(after, workspace_id, user_id, true);
    assert forall|k: int|
        0 <= k < list.len() && (#[trigger] list[k]).doc_id == doc_id && list[k].item_index
            == items[j].item_index implies items[j].assignee_user_id == Some(user_id)
        && list[k].text == items[j].text && list[k].checked == items[j].checked && list[k].due_at
        == items[j].due_at by {
        assert(list.contains(list[k]));
        let m = choose|m: int| 0 <= m < after.len() && after[m] == list[k];
        assert(after[m].doc_id == doc_id);
    }
}

/// After a document's items were replaced nothing is indexed for it but what the items
/// say: every row of the document stands at the place of an item.
pub proof fn law_nothing_stale_stays_indexed(
    rows: Seq<DocTaskView>,
    workspace_id: Uuid,
    doc_id: Uuid,
    items: Seq<DocTaskInputView>,
    now: i64,
    k: int,
)
    requires
        valid_tasks(rows),
        0 <= k < after_upsert(rows, workspace_id, doc_id, items, now).len(),
        after_upsert(rows, workspace_id, doc_id, items, now)[k].doc_id == doc_id,
    ensures
        exists|j: int|
            0 <= j < items.len() && (#[trigger] items[j]).item_index == after_upsert(
                rows,
                workspace_id,
                doc_id,
                items,
                now,
            )[k].item_index,
{
    let after = after_upsert(rows, workspace_id, doc_id, items, now);
    let kept = rows.filter(stays(doc_id, items));
    lemma_filter_valid_tasks(rows, stays(doc_id, items));
    lemma_puts_valid(kept, workspace_id, doc_id, items, now);
    law_upsert_replaces_the_set(
        rows,
        workspace_id,
        doc_id,
        items,
        now,
        after[k].item_index as int,
    );
    assert(has_task(after, after[k].id));
    let j = choose|j: int|
        0 <= j < items.len() && task_id_text(doc_id, (#[trigger] items[j]).item_index as int)
            == after[k].id;
    law_task_id_names_one_place(
        doc_id,
        items[j].item_index as int,
        doc_id,
        after[k].item_index as int,
    );
}

/// Reindexing does both or neither: it replaces the document's tasks and tells of the
/// assignments, or it fails and says why. It fails only where an assignment names
/// something that is not there.
pub proof fn law_indexing_does_both_or_neither(
    rows: Seq<DocTaskView>,
    inbox: crate::notifications::InboxView,
    workspace_id: Uuid,
    doc_id: Uuid,
    items: Seq<DocTaskInputView>,
    actor_id: Option<Uuid>,
    refs: crate::notifications::ReferencesView,
    now: i64,
)
    ensures
        ({
            let outcome = indexing_outcome(
                rows,
                inbox,
                workspace_id,
                doc_id,
                items,
                actor_id,
                refs,
                now,
            );
            let notes = assignments(workspace_id, doc_id, items, actor_id);
            &&& outcome matches Ok(after) ==> after.0 == after_upsert(
                rows,
                workspace_id,
                doc_id,
                items,
                now,
            ) && after.1 == crate::notifications::after_emits(inbox, notes, now)
            &&& refs.workspaces.contains(workspace_id) && refs.docs.contains(doc_id) && (
            actor_id is Some ==> refs.users.contains(actor_id->0)) && (forall|j: int|
                0 <= j < items.len() && (#[trigger] items[j]).assignee_user_id is Some
                    ==> refs.users.contains(items[j].assignee_user_id->0)) ==> outcome is Ok
        }),
{
    let notes = assignments(workspace_id, doc_id, items, actor_id);
    if refs.workspaces.contains(workspace_id) && refs.docs.contains(doc_id) && (actor_id is Some
        ==> refs.users.contains(actor_id->0)) && (forall|j: int|
        0 <= j < items.len() && (#[trigger] items[j]).assignee_user_id is Some
            ==> refs.users.contains(items[j].assignee_user_id->0)) {
        assert forall|k: int| 0 <= k < notes.len() implies refs.workspaces.contains(
            (#[trigger] notes[k]).workspace_id,
        ) && refs.users.contains(notes[k].user_id) && (notes[k].actor_id is Some
            ==> refs.users.contains(notes[k].actor_id->0)) && (notes[k].doc_id is Some
            ==> refs.docs.contains(notes[k].doc_id->0)) by {
            let j = lemma_assignments_from(workspace_id, doc_id, items, actor_id, k);
        }
        crate::notifications::law_known_names_never_fail(inbox, notes, refs, now);
    }
}

} // verus!
