//! The in-app notification inbox.
//!
//! One table serves as inbox and outbox. Idempotency is a property of the table
//! rather than of its callers: a row whose recipient and dedupe key are already
//! there is not added, so emits from several replicas converge on one row
//! without coordination.

use crate::ids::Uuid;
use crate::seqs::{has_i64, has_u128};
use crate::text::same_text;
use crate::time::Timestamp;
use vstd::prelude::*;
use vstd::string::*;

verus! {

/// Read rows are dropped once they are older than this.
pub const READ_RETENTION_DAYS: u16 = 90;

/// Any row is dropped once it is older than this.
pub const RETENTION_DAYS: u16 = 180;

/// What a notification is about.
#[derive(Clone, Copy, Debug, PartialEq, Eq, Structural)]
pub enum NotificationKind {
    Mention,
    Reply,
    TaskAssigned,
    TaskDue,
    DocShared,
}

/// The stored name of a kind.
pub open spec fn kind_text(kind: NotificationKind) -> Seq<char> {
    match kind {
        NotificationKind::Mention => "mention"@,
        NotificationKind::Reply => "reply"@,
        NotificationKind::TaskAssigned => "task_assigned"@,
        NotificationKind::TaskDue => "task_due"@,
        NotificationKind::DocShared => "doc_shared"@,
    }
}

impl NotificationKind {
    pub fn as_str(&self) -> (r: &'static str)
        ensures
            r@ == kind_text(*self),
    {
        match self {
            Self::Mention => "mention",
            Self::Reply => "reply",
            Self::TaskAssigned => "task_assigned",
            Self::TaskDue => "task_due",
            Self::DocShared => "doc_shared",
        }
    }
}

/// Distinct kinds are stored under distinct names.
pub proof fn law_kind_names_distinct(a: NotificationKind, b: NotificationKind)
    requires
        kind_text(a) == kind_text(b),
    ensures
        a == b,
{
    reveal_strlit("mention");
    reveal_strlit("reply");
    reveal_strlit("task_assigned");
    reveal_strlit("task_due");
    reveal_strlit("doc_shared");
    assert("mention"@[0] == 'm');
    assert("reply"@[0] == 'r');
    assert("task_assigned"@.len() == 13);
    assert("task_due"@.len() == 8);
    assert("task_due"@[0] == 't');
    assert("doc_shared"@[0] == 'd');
    assert("task_assigned"@[0] == 't');
}

/// What a notification shows beside its kind and target.
#[derive(Debug)]
pub enum NotificationData {
    /// A mention or a reply.
    Comment { excerpt: String, doc_title: String, thread_id: Uuid },
    /// A document that was shared.
    Share { doc_title: String },
    /// A task that was assigned.
    Task { text: String },
    /// A task that is overdue.
    TaskDue { text: String, due_at: Timestamp },
    /// A stored object of another shape, as JSON text.
    Other { json: String },
}

#[verifier::ext_equal]
pub enum NotificationDataView {
    Comment { excerpt: Seq<char>, doc_title: Seq<char>, thread_id: Uuid },
    Share { doc_title: Seq<char> },
    Task { text: Seq<char> },
    TaskDue { text: Seq<char>, due_at: i64 },
    Other { json: Seq<char> },
}

impl View for NotificationData {
    type V = NotificationDataView;

    open spec fn view(&self) -> NotificationDataView {
        match *self {
            NotificationData::Comment { excerpt, doc_title, thread_id } =>
                NotificationDataView::Comment {
                    excerpt: excerpt@,
                    doc_title: doc_title@,
                    thread_id,
                },
            NotificationData::Share { doc_title } =>
                NotificationDataView::Share { doc_title: doc_title@ },
            NotificationData::Task { text } => NotificationDataView::Task { text: text@ },
            NotificationData::TaskDue { text, due_at } =>
                NotificationDataView::TaskDue { text: text@, due_at: due_at@ },
            NotificationData::Other { json } => NotificationDataView::Other { json: json@ },
        }
    }
}

impl Clone for NotificationData {
    fn clone(&self) -> (r: Self)
        ensures
            r@ == self@,
    {
        match self {
            NotificationData::Comment { excerpt, doc_title, thread_id } =>
                NotificationData::Comment {
                    excerpt: excerpt.clone(),
                    doc_title: doc_title.clone(),
                    thread_id: *thread_id,
                },
            NotificationData::Share { doc_title } =>
                NotificationData::Share { doc_title: doc_title.clone() },
            NotificationData::Task { text } => NotificationData::Task { text: text.clone() },
            NotificationData::TaskDue { text, due_at } =>
                NotificationData::TaskDue { text: text.clone(), due_at: *due_at },
            NotificationData::Other { json } => NotificationData::Other { json: json.clone() },
        }
    }
}

/// A notification that is about to be stored.
#[derive(Debug)]
pub struct NewNotification {
    pub workspace_id: Uuid,
    /// Recipient.
    pub user_id: Uuid,
    /// Who caused it. `None` for system events (`task_due`).
    pub actor_id: Option<Uuid>,
    pub kind: NotificationKind,
    pub doc_id: Option<Uuid>,
    pub target_kind: String,
    pub target_id: String,
    pub dedupe_key: String,
    pub data: NotificationData,
}

#[verifier::ext_equal]
pub struct NewNotificationView {
    pub workspace_id: Uuid,
    pub user_id: Uuid,
    pub actor_id: Option<Uuid>,
    pub kind: NotificationKind,
    pub doc_id: Option<Uuid>,
    pub target_kind: Seq<char>,
    pub target_id: Seq<char>,
    pub dedupe_key: Seq<char>,
    pub data: NotificationDataView,
}

impl View for NewNotification {
    type V = NewNotificationView;

    open spec fn view(&self) -> NewNotificationView {
        NewNotificationView {
            workspace_id: self.workspace_id,
            user_id: self.user_id,
            actor_id: self.actor_id,
            kind: self.kind,
            doc_id: self.doc_id,
            target_kind: self.target_kind@,
            target_id: self.target_id@,
            dedupe_key: self.dedupe_key@,
            data: self.data@,
        }
    }
}

/// The views of a sequence of notifications.
pub open spec fn notes_view(ns: Seq<NewNotification>) -> Seq<NewNotificationView> {
    Seq::new(ns.len(), |i: int| ns[i]@)
}

/// Whether a notification tells someone of what they did themselves.
pub open spec fn is_self_notification(n: NewNotificationView) -> bool {
    n.actor_id == Some(n.user_id)
}

impl NewNotification {
    /// Whether this notification tells someone of what they did themselves.
    pub fn is_self_notification(&self) -> (r: bool)
        ensures
            r == is_self_notification(self@),
    {
        match self.actor_id {
            Some(a) => a == self.user_id,
            None => false,
        }
    }
}

/// A stored notification.
#[derive(Debug)]
pub struct NotificationRow {
    pub id: i64,
    pub note: NewNotification,
    pub created_at: Timestamp,
    pub read_at: Option<Timestamp>,
}

#[verifier::ext_equal]
pub struct NotificationRowView {
    pub id: i64,
    pub note: NewNotificationView,
    pub created_at: i64,
    pub read_at: Option<i64>,
}

/// The microseconds of an optional instant.
pub open spec fn opt_micros(t: Option<Timestamp>) -> Option<i64> {
    match t {
        Some(t) => Some(t@),
        None => None,
    }
}

impl View for NotificationRow {
    type V = NotificationRowView;

    open spec fn view(&self) -> NotificationRowView {
        NotificationRowView {
            id: self.id,
            note: self.note@,
            created_at: self.created_at@,
            read_at: opt_micros(self.read_at),
        }
    }
}

/// The views of a sequence of rows.
pub open spec fn rows_view(rows: Seq<NotificationRow>) -> Seq<NotificationRowView> {
    Seq::new(rows.len(), |i: int| rows[i]@)
}

/// A notification as its recipient reads it: with the name of who caused it and
/// the title of its document.
#[derive(Debug)]
pub struct Notification {
    pub id: i64,
    pub kind: String,
    pub doc_id: Option<Uuid>,
    pub target_kind: String,
    pub target_id: String,
    pub data: NotificationData,
    pub created_at: Timestamp,
    pub read_at: Option<Timestamp>,
    pub actor_id: Option<Uuid>,
    pub actor_display_name: Option<String>,
    pub doc_title: Option<String>,
}

#[verifier::ext_equal]
pub struct NotificationView {
    pub id: i64,
    pub kind: Seq<char>,
    pub doc_id: Option<Uuid>,
    pub target_kind: Seq<char>,
    pub target_id: Seq<char>,
    pub data: NotificationDataView,
    pub created_at: i64,
    pub read_at: Option<i64>,
    pub actor_id: Option<Uuid>,
    pub actor_display_name: Option<Seq<char>>,
    pub doc_title: Option<Seq<char>>,
}

/// The characters of an optional text.
pub open spec fn opt_text(t: Option<String>) -> Option<Seq<char>> {
    match t {
        Some(t) => Some(t@),
        None => None,
    }
}

impl View for Notification {
    type V = NotificationView;

    open spec fn view(&self) -> NotificationView {
        NotificationView {
            id: self.id,
            kind: self.kind@,
            doc_id: self.doc_id,
            target_kind: self.target_kind@,
            target_id: self.target_id@,
            data: self.data@,
            created_at: self.created_at@,
            read_at: opt_micros(self.read_at),
            actor_id: self.actor_id,
            actor_display_name: opt_text(self.actor_display_name),
            doc_title: opt_text(self.doc_title),
        }
    }
}

/// The views of a sequence of notifications that were read.
pub open spec fn read_view(ns: Seq<Notification>) -> Seq<NotificationView> {
    Seq::new(ns.len(), |i: int| ns[i]@)
}

/// An identifier with the name it goes by: a user's display name or a
/// document's title.
#[derive(Debug)]
pub struct NameEntry {
    pub id: Uuid,
    pub name: String,
}

/// The name that the first entry for `id` gives it.
pub open spec fn name_of(entries: Seq<NameEntry>, id: Uuid) -> Option<Seq<char>>
    decreases entries.len(),
{
    if entries.len() == 0 {
        None
    } else if entries[0].id == id {
        Some(entries[0].name@)
    } else {
        name_of(entries.skip(1), id)
    }
}

/// The name of an optional identifier.
pub open spec fn opt_name_of(entries: Seq<NameEntry>, id: Option<Uuid>) -> Option<Seq<char>> {
    match id {
        Some(id) => name_of(entries, id),
        None => None,
    }
}

fn find_name(entries: &Vec<NameEntry>, id: Option<Uuid>) -> (r: Option<String>)
    ensures
        opt_text(r) == opt_name_of(entries@, id),
{
    match id {
        None => None,
        Some(wanted) => {
            let mut i: usize = 0;
            proof {
                assert(entries@.skip(0) =~= entries@);
            }
            while i < entries.len()
                invariant
                    i <= entries@.len(),
                    id == Some(wanted),
                    name_of(entries@.skip(i as int), wanted) == name_of(entries@, wanted),
                decreases entries@.len() - i,
            {
                assert(entries@.skip(i as int).skip(1) =~= entries@.skip(i + 1));
                assert(entries@.skip(i as int)[0] == entries@[i as int]);
                if entries[i].id == wanted {
                    return Some(entries[i].name.clone());
                }
                i += 1;
            }
            None
        },
    }
}

/// What the reader of a row sees.
pub open spec fn as_read(
    row: NotificationRowView,
    users: Seq<NameEntry>,
    docs: Seq<NameEntry>,
) -> NotificationView {
    NotificationView {
        id: row.id,
        kind: kind_text(row.note.kind),
        doc_id: row.note.doc_id,
        target_kind: row.note.target_kind,
        target_id: row.note.target_id,
        data: row.note.data,
        created_at: row.created_at,
        read_at: row.read_at,
        actor_id: row.note.actor_id,
        actor_display_name: opt_name_of(users, row.note.actor_id),
        doc_title: opt_name_of(docs, row.note.doc_id),
    }
}

/// What a sequence of rows looks like to its reader.
pub open spec fn all_as_read(
    rows: Seq<NotificationRowView>,
    users: Seq<NameEntry>,
    docs: Seq<NameEntry>,
) -> Seq<NotificationView> {
    Seq::new(rows.len(), |i: int| as_read(rows[i], users, docs))
}

/// The notifications that are stored, oldest first.
#[derive(Debug)]
pub struct NotificationTable {
    rows: Vec<NotificationRow>,
    next_id: i64,
}

#[verifier::ext_equal]
pub struct InboxView {
    pub rows: Seq<NotificationRowView>,
    /// The identifier that the next row gets.
    pub next_id: i64,
}

impl View for NotificationTable {
    type V = InboxView;

    closed spec fn view(&self) -> InboxView {
        InboxView { rows: rows_view(self.rows@), next_id: self.next_id }
    }
}

/// Whether a row for this recipient and dedupe key is stored.
pub open spec fn has_key(rows: Seq<NotificationRowView>, user: Uuid, key: Seq<char>) -> bool {
    exists|i: int|
        0 <= i < rows.len() && (#[trigger] rows[i]).note.user_id == user && rows[i].note.dedupe_key
            == key
}

/// What holds of every stored inbox: rows are in the order of their
/// identifiers, no recipient has two rows with one dedupe key, and nobody is
/// told of what they did themselves.
pub open spec fn valid_inbox(t: InboxView) -> bool {
    &&& forall|i: int, j: int|
        0 <= i < j < t.rows.len() ==> (#[trigger] t.rows[i]).id < (#[trigger] t.rows[j]).id
    &&& forall|i: int| 0 <= i < t.rows.len() ==> (#[trigger] t.rows[i]).id < t.next_id
    &&& forall|i: int, j: int|
        0 <= i < j < t.rows.len() ==> !((#[trigger] t.rows[i]).note.user_id == (
        #[trigger] t.rows[j]).note.user_id && t.rows[i].note.dedupe_key
            == t.rows[j].note.dedupe_key)
    &&& forall|i: int|
        0 <= i < t.rows.len() ==> !is_self_notification((#[trigger] t.rows[i]).note)
}

/// Whether `n` calls for a row: it is no self-notification and its recipient has
/// no row under its key.
pub open spec fn is_new(t: InboxView, n: NewNotificationView) -> bool {
    !is_self_notification(n) && !has_key(t.rows, n.user_id, n.dedupe_key)
}

/// The row that storing `n` adds.
pub open spec fn new_row(id: i64, n: NewNotificationView, now: i64) -> NotificationRowView {
    NotificationRowView { id, note: n, created_at: now, read_at: None }
}

/// What notifications can name: the workspaces, users and documents that are
/// there.
#[derive(Debug)]
pub struct References {
    pub workspaces: Vec<Uuid>,
    pub users: Vec<Uuid>,
    pub docs: Vec<Uuid>,
}

#[verifier::ext_equal]
pub struct ReferencesView {
    pub workspaces: Seq<Uuid>,
    pub users: Seq<Uuid>,
    pub docs: Seq<Uuid>,
}

impl View for References {
    type V = ReferencesView;

    open spec fn view(&self) -> ReferencesView {
        ReferencesView { workspaces: self.workspaces@, users: self.users@, docs: self.docs@ }
    }
}

/// Whether everything that `n` names is there: its workspace and its recipient,
/// and whoever acted and the document where it names them.
pub open spec fn names_known(refs: ReferencesView, n: NewNotificationView) -> bool {
    &&& refs.workspaces.contains(n.workspace_id)
    &&& refs.users.contains(n.user_id)
    &&& n.actor_id is Some ==> refs.users.contains(n.actor_id->0)
    &&& n.doc_id is Some ==> refs.docs.contains(n.doc_id->0)
}

/// Whether storing `n` fails: it calls for a row that names something unknown.
pub open spec fn is_refused(t: InboxView, n: NewNotificationView, refs: ReferencesView) -> bool {
    is_new(t, n) && !names_known(refs, n)
}

/// Why a notification could not be stored.
#[derive(Clone, Copy, Debug, PartialEq, Eq, Structural)]
pub enum NotificationStoreError {
    /// It names a workspace, a user or a document that is not there.
    UnknownReference,
}

/// The inbox after storing `n`.
pub open spec fn after_emit(t: InboxView, n: NewNotificationView, now: i64) -> InboxView {
    if is_new(t, n) {
        InboxView {
            rows: t.rows.push(new_row(t.next_id, n, now)),
            next_id: (t.next_id + 1) as i64,
        }
    } else {
        t
    }
}

/// The inbox after storing each of `ns` in turn.
pub open spec fn after_emits(t: InboxView, ns: Seq<NewNotificationView>, now: i64) -> InboxView
    decreases ns.len(),
{
    if ns.len() == 0 {
        t
    } else {
        after_emit(after_emits(t, ns.drop_last(), now), ns.last(), now)
    }
}

/// At which of `ns` storing them in turn stops: at the first that fails, or behind
/// the last where none does.
pub open spec fn stops_at(
    t: InboxView,
    ns: Seq<NewNotificationView>,
    refs: ReferencesView,
    now: i64,
) -> int
    decreases ns.len(),
{
    if ns.len() == 0 {
        0
    } else {
        let before = stops_at(t, ns.drop_last(), refs, now);
        if before < ns.len() - 1 {
            before
        } else if is_refused(after_emits(t, ns.drop_last(), now), ns.last(), refs) {
            ns.len() - 1
        } else {
            ns.len() as int
        }
    }
}

/// The storing of a batch, one after the other: how many there are, how many were
/// tried and how many of these added a row.
#[derive(Clone, Copy, Debug, PartialEq, Eq, Structural)]
pub struct Batch {
    pub len: usize,
    pub tried: usize,
    pub created: usize,
}

/// What comes next in storing a batch.
#[derive(Debug)]
pub enum BatchNext<E> {
    /// Try to store the one at this place.
    Try(usize),
    /// All were tried, and so many added a row.
    Stored(usize),
    /// One failed. What was stored before it stays; what follows is not tried.
    Failed(E),
}

impl Batch {
    /// Whether the numbers fit together.
    pub open spec fn wf(self) -> bool {
        self.created <= self.tried <= self.len
    }

    /// What comes next where nothing failed.
    pub open spec fn pending<E>(self) -> BatchNext<E> {
        if self.tried < self.len {
            BatchNext::Try(self.tried)
        } else {
            BatchNext::Stored(self.created)
        }
    }

    /// What becomes of a batch after one was tried, and what comes next.
    pub open spec fn after<E>(self, outcome: Result<bool, E>) -> (Batch, BatchNext<E>) {
        match outcome {
            Err(e) => (self, BatchNext::Failed(e)),
            Ok(added) => {
                let b = Batch {
                    len: self.len,
                    tried: (self.tried + 1) as usize,
                    created: if added {
                        (self.created + 1) as usize
                    } else {
                        self.created
                    },
                };
                (b, b.pending())
            },
        }
    }

    /// A batch of so many, and what comes first.
    pub fn begin<E>(len: usize) -> (r: (Batch, BatchNext<E>))
        ensures
            r.0 == (Batch { len, tried: 0, created: 0 }),
            r.0.wf(),
            r.1 == r.0.pending::<E>(),
    {
        let b = Batch { len, tried: 0, created: 0 };
        if len > 0 {
            (b, BatchNext::Try(0))
        } else {
            (b, BatchNext::Stored(0))
        }
    }

    /// The batch after one was tried, and what comes next.
    pub fn next<E>(self, outcome: Result<bool, E>) -> (r: (Batch, BatchNext<E>))
        requires
            self.wf(),
            self.tried < self.len,
        ensures
            r == self.after(outcome),
            r.0.wf(),
    {
        match outcome {
            Err(e) => (self, BatchNext::Failed(e)),
            Ok(added) => {
                let created: usize = if added {
                    self.created + 1
                } else {
                    self.created
                };
                let b = Batch { len: self.len, tried: self.tried + 1, created };
                if b.tried < b.len {
                    (b, BatchNext::Try(b.tried))
                } else {
                    (b, BatchNext::Stored(b.created))
                }
            },
        }
    }
}

/// What storing a batch has come to after these outcomes, as far as they were
/// asked for.
pub open spec fn after_outcomes<E>(b: Batch, outcomes: Seq<Result<bool, E>>) -> (
    Batch,
    BatchNext<E>,
)
    decreases outcomes.len(),
{
    if outcomes.len() == 0 {
        (b, b.pending())
    } else {
        let (c, next) = after_outcomes(b, outcomes.drop_last());
        match next {
            BatchNext::Try(_) => c.after(outcomes.last()),
            _ => (c, next),
        }
    }
}

/// How many of these outcomes added a row.
pub open spec fn added_count<E>(outcomes: Seq<Result<bool, E>>) -> nat
    decreases outcomes.len(),
{
    if outcomes.len() == 0 {
        0
    } else {
        added_count(outcomes.drop_last()) + if outcomes.last() matches Ok(true) {
            1nat
        } else {
            0nat
        }
    }
}

/// Which rows a listing shows.
pub open spec fn shown(
    user: Uuid,
    unread_only: bool,
    cursor: Option<i64>,
) -> spec_fn(NotificationRowView) -> bool {
    |r: NotificationRowView|
        r.note.user_id == user && (unread_only ==> r.read_at is None) && (cursor is Some ==> r.id
            < cursor->0)
}

/// All the rows that a listing without a limit shows, newest first.
pub open spec fn listing(
    rows: Seq<NotificationRowView>,
    user: Uuid,
    unread_only: bool,
    cursor: Option<i64>,
) -> Seq<NotificationRowView> {
    rows.filter(shown(user, unread_only, cursor)).reverse()
}

/// The rows of one page: at most `limit` of them, newest first, with
/// identifiers below `cursor`.
pub open spec fn page(
    rows: Seq<NotificationRowView>,
    user: Uuid,
    unread_only: bool,
    limit: int,
    cursor: Option<i64>,
) -> Seq<NotificationRowView> {
    let all = listing(rows, user, unread_only, cursor);
    all.take(if limit < all.len() { limit } else { all.len() as int })
}

/// Which rows marking as read changes; `ids` is `None` for all of them.
pub open spec fn to_mark(user: Uuid, ids: Option<Seq<i64>>) -> spec_fn(NotificationRowView) -> bool {
    |r: NotificationRowView|
        r.note.user_id == user && r.read_at is None && (ids is Some ==> ids->0.contains(r.id))
}

/// The rows after marking as read.
pub open spec fn marked(
    rows: Seq<NotificationRowView>,
    user: Uuid,
    ids: Option<Seq<i64>>,
    now: i64,
) -> Seq<NotificationRowView> {
    Seq::new(
        rows.len(),
        |i: int|
            if to_mark(user, ids)(rows[i]) {
                NotificationRowView { read_at: Some(now), ..rows[i] }
            } else {
                rows[i]
            },
    )
}

/// How many of the user's rows are unread.
pub open spec fn unread_total(rows: Seq<NotificationRowView>, user: Uuid) -> nat {
    rows.filter(to_mark(user, None)).len()
}

/// The number of the user's unread rows, counted no further than `cap`.
pub open spec fn counted_unread(rows: Seq<NotificationRowView>, user: Uuid, cap: int) -> int {
    if unread_total(rows, user) < cap {
        unread_total(rows, user) as int
    } else {
        cap
    }
}

/// Whether a row has outlived its retention. An assigned task stays until it is
/// dealt with, so its row never does.
pub open spec fn is_expired(r: NotificationRowView, now: int) -> bool {
    r.note.kind != NotificationKind::TaskAssigned && ((r.read_at is Some
        && crate::time::older_than(r.created_at as int, READ_RETENTION_DAYS as int, now))
        || crate::time::older_than(r.created_at as int, RETENTION_DAYS as int, now))
}

/// The rows that pruning keeps.
pub open spec fn retained(now: int) -> spec_fn(NotificationRowView) -> bool {
    |r: NotificationRowView| !is_expired(r, now)
}

/// The rows that do not belong to a document.
pub open spec fn not_of_doc(doc_id: Uuid) -> spec_fn(NotificationRowView) -> bool {
    |r: NotificationRowView| r.note.doc_id != Some(doc_id)
}

impl NotificationRow {
    /// Whether this row has outlived its retention.
    pub fn is_expired(&self, now: &Timestamp) -> (r: bool)
        ensures
            r == is_expired(self@, now@ as int),
    {
        if self.note.kind == NotificationKind::TaskAssigned {
            return false;
        }
        (self.read_at.is_some() && self.created_at.is_older_than(READ_RETENTION_DAYS, now))
            || self.created_at.is_older_than(RETENTION_DAYS, now)
    }

    fn to_read(&self, users: &Vec<NameEntry>, docs: &Vec<NameEntry>) -> (r: Notification)
        ensures
            r@ == as_read(self@, users@, docs@),
    {
        Notification {
            id: self.id,
            kind: self.note.kind.as_str().to_owned(),
            doc_id: self.note.doc_id,
            target_kind: self.note.target_kind.clone(),
            target_id: self.note.target_id.clone(),
            data: self.note.data.clone(),
            created_at: self.created_at,
            read_at: self.read_at,
            actor_id: self.note.actor_id,
            actor_display_name: find_name(users, self.note.actor_id),
            doc_title: find_name(docs, self.note.doc_id),
        }
    }
}

impl References {
    /// Whether everything that a notification names is there.
    pub fn knows(&self, n: &NewNotification) -> (r: bool)
        ensures
            r == names_known(self@, n@),
    {
        let actor = match n.actor_id {
            Some(a) => has_u128(&self.users, a),
            None => true,
        };
        let doc = match n.doc_id {
            Some(d) => has_u128(&self.docs, d),
            None => true,
        };
        has_u128(&self.workspaces, n.workspace_id) && has_u128(&self.users, n.user_id) && actor
            && doc
    }
}

impl NotificationTable {
    /// Whether this inbox is one that the operations below can have produced.
    pub open spec fn wf(&self) -> bool {
        valid_inbox(self@)
    }

    /// An inbox without rows.
    pub fn new() -> (r: NotificationTable)
        ensures
            r.wf(),
            r@.rows.len() == 0,
            r@.next_id == 1,
    {
        NotificationTable { rows: Vec::new(), next_id: 1 }
    }

    fn holds(&self, user: Uuid, key: &str) -> (r: bool)
        ensures
            r == has_key(self@.rows, user, key@),
    {
        let mut i: usize = 0;
        while i < self.rows.len()
            invariant
                i <= self.rows@.len(),
                self@.rows == rows_view(self.rows@),
                forall|k: int|
                    0 <= k < i ==> !((#[trigger] self@.rows[k]).note.user_id == user
                        && self@.rows[k].note.dedupe_key == key@),
            decreases self.rows@.len() - i,
        {
            assert(self@.rows[i as int] == self.rows@[i as int]@);
            if self.rows[i].note.user_id == user && same_text(
                self.rows[i].note.dedupe_key.as_str(),
                key,
            ) {
                return true;
            }
            i += 1;
        }
        false
    }

    /// Stores one notification. Returns `false` when it was deduped or dropped
    /// as a self-notification, which is never an error. It fails where it calls
    /// for a row that names something unknown.
    pub fn emit(&mut self, n: NewNotification, now: Timestamp, refs: &References) -> (r: Result<
        bool,
        NotificationStoreError,
    >)
        requires
            old(self).wf(),
            old(self)@.next_id < i64::MAX,
        ensures
            final(self).wf(),
            is_refused(old(self)@, n@, refs@) ==> r == Err::<bool, _>(
                NotificationStoreError::UnknownReference,
            ) && final(self)@ == old(self)@,
            !is_refused(old(self)@, n@, refs@) ==> r == Ok::<_, NotificationStoreError>(
                is_new(old(self)@, n@),
            ) && final(self)@ == after_emit(old(self)@, n@, now@),
    {
        if n.is_self_notification() || self.holds(n.user_id, n.dedupe_key.as_str()) {
            return Ok(false);
        }
        if !refs.knows(&n) {
            return Err(NotificationStoreError::UnknownReference);
        }
        let ghost before = *self;
        let id: i64 = self.next_id;
        let row = NotificationRow { id, note: n, created_at: now, read_at: None };
        self.rows.push(row);
        self.next_id = id + 1;
        proof {
            let rows = rows_view(self.rows@);
            assert(rows =~= before@.rows.push(new_row(id, n@, now@)));
            assert forall|i: int, j: int| 0 <= i < j < rows.len() implies !((
            #[trigger] rows[i]).note.user_id == (#[trigger] rows[j]).note.user_id
                && rows[i].note.dedupe_key == rows[j].note.dedupe_key) by {
                assert(rows[i] == before@.rows[i]);
                if j < before@.rows.len() {
                    assert(rows[j] == before@.rows[j]);
                }
            }
        }
        Ok(true)
    }

    /// Stores several, one after the other. Returns how many rows were actually
    /// created. Where one fails that is the result: the rows created before it
    /// stay, and none behind it is tried.
    pub fn emit_many(
        &mut self,
        ns: Vec<NewNotification>,
        now: Timestamp,
        refs: &References,
    ) -> (r: Result<usize, NotificationStoreError>)
        requires
            old(self).wf(),
            old(self)@.next_id + ns@.len() <= i64::MAX,
        ensures
            final(self).wf(),
            ({
                let all = notes_view(ns@);
                let stop = stops_at(old(self)@, all, refs@, now@);
                &&& 0 <= stop <= all.len()
                &&& final(self)@ == after_emits(old(self)@, all.take(stop), now@)
                &&& stop < all.len() ==> r == Err::<usize, _>(
                    NotificationStoreError::UnknownReference,
                )
                &&& stop == all.len() ==> r is Ok && r->Ok_0 == final(self)@.rows.len() - old(self)@.rows.len()
            }),
    {
        let ghost all = notes_view(ns@);
        let ghost before = *self;
        let mut rest = ns;
        let mut todo: Vec<NewNotification> = Vec::new();
        // Popping takes them from the back, so the order is turned round first.
        while rest.len() > 0
            invariant
                all == notes_view(rest@) + notes_view(todo@.reverse()),
            decreases rest@.len(),
        {
            let ghost rest0 = rest@;
            let ghost todo0 = todo@;
            match rest.pop() {
                Some(n) => {
                    todo.push(n);
                    assert(rest0 =~= rest@.push(n));
                    assert(todo@.reverse() =~= seq![n] + todo0.reverse());
                    assert(notes_view(rest@) + notes_view(todo@.reverse()) =~= notes_view(rest0)
                        + notes_view(todo0.reverse()));
                },
                None => {},
            }
        }
        assert(all =~= notes_view(todo@.reverse()));
        let total: usize = todo.len();
        let (mut batch, _) = Batch::begin::<NotificationStoreError>(total);
        assert(all.take(0) =~= Seq::<NewNotificationView>::empty());
        assert(all.skip(0) =~= all);
        while todo.len() > 0
            invariant
                self.wf(),
                todo@.len() <= total,
                all.len() == total,
                all.skip(total - todo@.len()) == notes_view(todo@.reverse()),
                self@ == after_emits(before@, all.take(total - todo@.len()), now@),
                batch.wf(),
                batch.len == total,
                batch.tried == total - todo@.len(),
                batch.created == self@.rows.len() - before@.rows.len(),
                stops_at(before@, all.take(total - todo@.len()), refs@, now@) == total
                    - todo@.len(),
                self@.next_id <= before@.next_id + (total - todo@.len()),
                before@.next_id + total <= i64::MAX,
                before == *old(self),
                all == notes_view(ns@),
            decreases todo@.len(),
        {
            let ghost todo0 = todo@;
            let ghost k = total - todo@.len();
            match todo.pop() {
                Some(n) => {
                    proof {
                        lemma_reversed_pop(todo0, n);
                        assert(all.skip(k)[0] == n@);
                        assert(all.skip(k + 1) =~= all.skip(k).skip(1));
                        lemma_stops_step(before@, all, refs@, now@, k);
                    }
                    let (b, next) = self.try_one(batch, n, now, refs);
                    batch = b;
                    match next {
                        BatchNext::Failed(e) => {
                            return Err(e);
                        },
                        _ => {},
                    }
                },
                None => {},
            }
        }
        assert(all.take(total as int) =~= all);
        Ok(batch.created)
    }

    fn try_one(&mut self, batch: Batch, n: NewNotification, now: Timestamp, refs: &References) -> (r:
        (Batch, BatchNext<NotificationStoreError>))
        requires
            old(self).wf(),
            old(self)@.next_id < i64::MAX,
            batch.wf(),
            batch.tried < batch.len,
        ensures
            final(self).wf(),
            r.0.wf(),
            r.0.len == batch.len,
            is_refused(old(self)@, n@, refs@) ==> {
                &&& r.1 == BatchNext::Failed(NotificationStoreError::UnknownReference)
                &&& final(self)@ == old(self)@
            },
            !is_refused(old(self)@, n@, refs@) ==> {
                &&& !(r.1 is Failed)
                &&& final(self)@ == after_emit(old(self)@, n@, now@)
                &&& final(self)@.next_id <= old(self)@.next_id + 1
                &&& r.0.tried == batch.tried + 1
                &&& r.0.created - batch.created == final(self)@.rows.len() - old(self)@.rows.len()
            },
    {
        let outcome = self.emit(n, now, refs);
        batch.next(outcome)
    }

    /// Stores several together: all of them, or none where one fails.
    pub fn emit_together(
        &mut self,
        ns: Vec<NewNotification>,
        now: Timestamp,
        refs: &References,
    ) -> (r: Result<usize, NotificationStoreError>)
        requires
            old(self).wf(),
            old(self)@.next_id + ns@.len() <= i64::MAX,
        ensures
            final(self).wf(),
            ({
                let all = notes_view(ns@);
                if stops_at(old(self)@, all, refs@, now@) < all.len() {
                    &&& r == Err::<usize, _>(NotificationStoreError::UnknownReference)
                    &&& final(self)@ == old(self)@
                } else {
                    &&& final(self)@ == after_emits(old(self)@, all, now@)
                    &&& r is Ok
                    &&& r->Ok_0 == final(self)@.rows.len() - old(self)@.rows.len()
                }
            }),
    {
        let ghost before = *self;
        let ghost all = notes_view(ns@);
        let kept: usize = self.rows.len();
        let next_id: i64 = self.next_id;
        let outcome = self.emit_many(ns, now, refs);
        proof {
            let stop = stops_at(before@, all, refs@, now@);
            lemma_emits_only_add(before@, all.take(stop), now@);
            if stop == all.len() {
                assert(all.take(stop) =~= all);
            }
        }
        match outcome {
            Ok(n) => Ok(n),
            Err(e) => {
                let ghost told = self@.rows;
                self.rows.truncate(kept);
                self.next_id = next_id;
                proof {
                    assert(rows_view(self.rows@) =~= told.take(kept as int));
                    assert(self@ =~= before@);
                }
                Err(e)
            },
        }
    }

    /// One page of a user's notifications, newest first. `cursor` is the last
    /// identifier of the previous page; `users` and `docs` give the names that
    /// the rows are shown with.
    pub fn list(
        &self,
        user_id: Uuid,
        unread_only: bool,
        limit: i64,
        cursor: Option<i64>,
        users: &Vec<NameEntry>,
        docs: &Vec<NameEntry>,
    ) -> (r: Vec<Notification>)
        requires
            limit >= 0,
        ensures
            read_view(r@) == all_as_read(
                page(self@.rows, user_id, unread_only, limit as int, cursor),
                users@,
                docs@,
            ),
    {
        let ghost rows = self@.rows;
        let ghost p = shown(user_id, unread_only, cursor);
        let mut out: Vec<Notification> = Vec::new();
        let mut i: usize = self.rows.len();
        proof {
            reveal(Seq::filter);
            assert(rows.skip(rows.len() as int) =~= Seq::<NotificationRowView>::empty());
            assert(rows.skip(rows.len() as int).filter(p).reverse()
                =~= Seq::<NotificationRowView>::empty());
        }
        while i > 0 && (out.len() as u64) < (limit as u64)
            invariant
                i <= self.rows@.len(),
                rows == rows_view(self.rows@),
                p == shown(user_id, unread_only, cursor),
                limit >= 0,
                out@.len() <= limit,
                read_view(out@) == all_as_read(
                    rows.skip(i as int).filter(p).reverse(),
                    users@,
                    docs@,
                ),
            decreases i,
        {
            let ghost i0 = i as int;
            let ghost out0 = out@;
            i -= 1;
            let row = &self.rows[i];
            assert(rows[i as int] == row@);
            proof {
                crate::seqs::lemma_filter_front(rows, i as int, p);
            }
            let fits = row.note.user_id == user_id && (!unread_only || row.read_at.is_none())
                && match cursor {
                Some(c) => row.id < c,
                None => true,
            };
            if fits {
                out.push(row.to_read(users, docs));
                proof {
                    let old_kept = rows.skip(i0).filter(p);
                    let kept = rows.skip(i as int).filter(p);
                    assert(kept =~= seq![row@] + old_kept);
                    assert(kept.reverse() =~= old_kept.reverse().push(row@));
                    assert(read_view(out@) =~= read_view(out0).push(
                        as_read(row@, users@, docs@),
                    ));
                    assert(read_view(out@) =~= all_as_read(kept.reverse(), users@, docs@));
                }
            }
        }
        proof {
            let a = rows.take(i as int).filter(p);
            let b = rows.skip(i as int).filter(p);
            crate::seqs::lemma_filter_split(rows, i as int, p);
            assert((a + b).reverse() =~= b.reverse() + a.reverse());
            assert(out@.len() == read_view(out@).len() == b.len());
            let all = listing(rows, user_id, unread_only, cursor);
            if i == 0 {
                assert(rows.take(0) =~= Seq::<NotificationRowView>::empty());
                reveal(Seq::filter);
                assert(a =~= Seq::<NotificationRowView>::empty());
                assert(all =~= b.reverse());
            }
            assert(page(rows, user_id, unread_only, limit as int, cursor) =~= b.reverse());
        }
        out
    }

    /// Unread rows, counted no further than `cap`.
    pub fn unread_count(&self, user_id: Uuid, cap: i64) -> (r: i64)
        requires
            cap >= 0,
        ensures
            r == if unread_total(self@.rows, user_id) < cap {
                unread_total(self@.rows, user_id) as int
            } else {
                cap as int
            },
            r == counted_unread(self@.rows, user_id, cap as int),
    {
        let ghost rows = self@.rows;
        let ghost p = to_mark(user_id, None);
        let mut n: i64 = 0;
        let mut i: usize = 0;
        proof {
            reveal(Seq::filter);
            assert(rows.take(0) =~= Seq::<NotificationRowView>::empty());
        }
        while i < self.rows.len() && n < cap
            invariant
                i <= self.rows@.len(),
                rows == rows_view(self.rows@),
                p == to_mark(user_id, None),
                0 <= n <= cap,
                n == rows.take(i as int).filter(p).len(),
            decreases self.rows@.len() - i,
        {
            assert(rows[i as int] == self.rows@[i as int]@);
            proof {
                crate::seqs::lemma_filter_step(rows, i as int, p);
            }
            if self.rows[i].note.user_id == user_id && self.rows[i].read_at.is_none() {
                n += 1;
            }
            i += 1;
        }
        proof {
            crate::seqs::lemma_filter_split(rows, i as int, p);
            if i == rows.len() {
                assert(rows.take(i as int) =~= rows);
            }
        }
        n
    }

    fn mark(&mut self, user_id: Uuid, ids: Option<&Vec<i64>>, now: Timestamp) -> (r: u64)
        requires
            old(self).wf(),
        ensures
            final(self).wf(),
            final(self)@.next_id == old(self)@.next_id,
            final(self)@.rows == marked(
                old(self)@.rows,
                user_id,
                match ids {
                    Some(ids) => Some(ids@),
                    None => None,
                },
                now@,
            ),
            r == old(self)@.rows.filter(
                to_mark(
                    user_id,
                    match ids {
                        Some(ids) => Some(ids@),
                        None => None,
                    },
                ),
            ).len(),
    {
        let ghost rows = self@.rows;
        let ghost which: Option<Seq<i64>> = match ids {
            Some(ids) => Some(ids@),
            None => None,
        };
        let ghost p = to_mark(user_id, which);
        let mut n: u64 = 0;
        let mut i: usize = 0;
        proof {
            reveal(Seq::filter);
            assert(rows.take(0) =~= Seq::<NotificationRowView>::empty());
        }
        while i < self.rows.len()
            invariant
                i <= self.rows@.len(),
                self.next_id == old(self).next_id,
                rows == old(self)@.rows,
                rows.len() == self.rows@.len(),
                p == to_mark(user_id, which),
                which == (match ids {
                    Some(ids) => Some(ids@),
                    None => None,
                }),
                forall|k: int|
                    0 <= k < i ==> #[trigger] self.rows@[k]@ == marked(
                        rows,
                        user_id,
                        which,
                        now@,
                    )[k],
                forall|k: int| i <= k < rows.len() ==> #[trigger] self.rows@[k]@ == rows[k],
                n == rows.take(i as int).filter(p).len(),
                n <= i,
            decreases self.rows@.len() - i,
        {
            assert(rows[i as int] == self.rows@[i as int]@);
            proof {
                crate::seqs::lemma_filter_step(rows, i as int, p);
            }
            let wanted = match ids {
                Some(ids) => has_i64(ids, self.rows[i].id),
                None => true,
            };
            if self.rows[i].note.user_id == user_id && self.rows[i].read_at.is_none() && wanted {
                self.rows[i].read_at = Some(now);
                n += 1;
            }
            i += 1;
        }
        proof {
            assert(rows.take(i as int) =~= rows);
            assert(self@.rows =~= marked(rows, user_id, which, now@));
        }
        n
    }

    /// Marks the user's unread rows among `ids` as read. Returns how many
    /// changed.
    pub fn mark_read(&mut self, user_id: Uuid, ids: &Vec<i64>, now: Timestamp) -> (r: u64)
        requires
            old(self).wf(),
        ensures
            final(self).wf(),
            final(self)@.next_id == old(self)@.next_id,
            final(self)@.rows == marked(old(self)@.rows, user_id, Some(ids@), now@),
            r == old(self)@.rows.filter(to_mark(user_id, Some(ids@))).len(),
    {
        self.mark(user_id, Some(ids), now)
    }

    /// Marks all of the user's unread rows as read. Returns how many changed.
    pub fn mark_all_read(&mut self, user_id: Uuid, now: Timestamp) -> (r: u64)
        requires
            old(self).wf(),
        ensures
            final(self).wf(),
            final(self)@.next_id == old(self)@.next_id,
            final(self)@.rows == marked(old(self)@.rows, user_id, None, now@),
            r == unread_total(old(self)@.rows, user_id),
    {
        self.mark(user_id, None, now)
    }

    /// Drops the rows that have outlived their retention: read rows after 90
    /// days and any row after 180, except assigned tasks. Returns how many went.
    pub fn prune(&mut self, now: Timestamp) -> (r: u64)
        requires
            old(self).wf(),
        ensures
            final(self).wf(),
            final(self)@.next_id == old(self)@.next_id,
            final(self)@.rows == old(self)@.rows.filter(retained(now@ as int)),
            r == old(self)@.rows.len() - final(self)@.rows.len(),
    {
        let ghost rows = self@.rows;
        let ghost p = retained(now@ as int);
        let stored: usize = self.rows.len();
        let mut gone: u64 = 0;
        let mut i: usize = 0;
        proof {
            reveal(Seq::filter);
            assert(rows.take(0) =~= Seq::<NotificationRowView>::empty());
            assert(rows.skip(0) =~= rows);
        }
        while i < self.rows.len()
            invariant
                i <= self.rows@.len(),
                self.next_id == old(self).next_id,
                rows == old(self)@.rows,
                p == retained(now@ as int),
                gone + self.rows@.len() == rows.len(),
                rows.len() == stored,
                rows_view(self.rows@).take(i as int) == rows.take(gone + i).filter(p),
                rows_view(self.rows@).skip(i as int) == rows.skip(gone + i),
            decreases self.rows@.len() - i,
        {
            let ghost before = rows_view(self.rows@);
            let ghost k = gone + i;
            proof {
                assert(before.skip(i as int)[0] == rows.skip(k)[0]);
                assert(self.rows@[i as int]@ == rows[k]);
                crate::seqs::lemma_filter_step(rows, k, p);
                assert(rows.skip(k + 1) =~= rows.skip(k).skip(1));
            }
            if self.rows[i].is_expired(&now) {
                self.rows.remove(i);
                gone += 1;
                proof {
                    let after = rows_view(self.rows@);
                    assert(after.take(i as int) =~= before.take(i as int));
                    assert(after.skip(i as int) =~= before.skip(i as int).skip(1));
                }
            } else {
                i += 1;
                proof {
                    assert(before.take(i as int) =~= before.take(i - 1).push(before[i - 1]));
                    assert(before.skip(i as int) =~= before.skip(i - 1).skip(1));
                }
            }
        }
        proof {
            assert(rows.take(gone + i) =~= rows);
            assert(rows_view(self.rows@).take(i as int) =~= rows_view(self.rows@));
            lemma_filter_valid(old(self)@, p);
            assert(self@ =~= (InboxView { rows: rows.filter(p), next_id: old(self)@.next_id }));
        }
        gone
    }

    /// Drops the rows of a document that was deleted. Returns how many went.
    pub fn remove_doc(&mut self, doc_id: Uuid) -> (r: u64)
        requires
            old(self).wf(),
        ensures
            final(self).wf(),
            final(self)@.next_id == old(self)@.next_id,
            final(self)@.rows == old(self)@.rows.filter(not_of_doc(doc_id)),
            r == old(self)@.rows.len() - final(self)@.rows.len(),
    {
        let ghost rows = self@.rows;
        let ghost p = not_of_doc(doc_id);
        let stored: usize = self.rows.len();
        let mut gone: u64 = 0;
        let mut i: usize = 0;
        proof {
            reveal(Seq::filter);
            assert(rows.take(0) =~= Seq::<NotificationRowView>::empty());
            assert(rows.skip(0) =~= rows);
        }
        while i < self.rows.len()
            invariant
                i <= self.rows@.len(),
                self.next_id == old(self).next_id,
                rows == old(self)@.rows,
                p == not_of_doc(doc_id),
                gone + self.rows@.len() == rows.len(),
                rows.len() == stored,
                rows_view(self.rows@).take(i as int) == rows.take(gone + i).filter(p),
                rows_view(self.rows@).skip(i as int) == rows.skip(gone + i),
            decreases self.rows@.len() - i,
        {
            let ghost before = rows_view(self.rows@);
            let ghost k = gone + i;
            proof {
                assert(before.skip(i as int)[0] == rows.skip(k)[0]);
                assert(self.rows@[i as int]@ == rows[k]);
                crate::seqs::lemma_filter_step(rows, k, p);
                assert(rows.skip(k + 1) =~= rows.skip(k).skip(1));
            }
            let of_doc = match self.rows[i].note.doc_id {
                Some(d) => d == doc_id,
                None => false,
            };
            if of_doc {
                self.rows.remove(i);
                gone += 1;
                proof {
                    let after = rows_view(self.rows@);
                    assert(after.take(i as int) =~= before.take(i as int));
                    assert(after.skip(i as int) =~= before.skip(i as int).skip(1));
                }
            } else {
                i += 1;
                proof {
                    assert(before.take(i as int) =~= before.take(i - 1).push(before[i - 1]));
                    assert(before.skip(i as int) =~= before.skip(i - 1).skip(1));
                }
            }
        }
        proof {
            assert(rows.take(gone + i) =~= rows);
            assert(rows_view(self.rows@).take(i as int) =~= rows_view(self.rows@));
            lemma_filter_valid(old(self)@, p);
            assert(self@ =~= (InboxView { rows: rows.filter(p), next_id: old(self)@.next_id }));
        }
        gone
    }
}

/// Dropping rows keeps an inbox valid.
pub proof fn lemma_filter_valid(t: InboxView, p: spec_fn(NotificationRowView) -> bool)
    requires
        valid_inbox(t),
    ensures
        valid_inbox(InboxView { rows: t.rows.filter(p), next_id: t.next_id }),
{
    let kept = t.rows.filter(p);
    let at = crate::seqs::lemma_filter_order(t.rows, p);
    assert forall|i: int| 0 <= i < kept.len() implies kept[i] == t.rows[#[trigger] at[i]] by {}
    assert forall|i: int, j: int| 0 <= i < j < kept.len() implies (#[trigger] kept[i]).id < (
    #[trigger] kept[j]).id && !(kept[i].note.user_id == kept[j].note.user_id
        && kept[i].note.dedupe_key == kept[j].note.dedupe_key) by {
        assert(kept[i] == t.rows[at[i]]);
        assert(kept[j] == t.rows[at[j]]);
        assert(at[i] < at[j]);
    }
    assert forall|i: int| 0 <= i < kept.len() implies (#[trigger] kept[i]).id < t.next_id
        && !is_self_notification(kept[i].note) by {
        assert(kept[i] == t.rows[at[i]]);
    }
}

/// What is stored stays stored when something is added.
pub proof fn lemma_emit_keeps_keys(
    t: InboxView,
    n: NewNotificationView,
    now: i64,
    user: Uuid,
    key: Seq<char>,
)
    ensures
        has_key(after_emit(t, n, now).rows, user, key) <==> has_key(t.rows, user, key) || (is_new(
            t,
            n,
        ) && n.user_id == user && n.dedupe_key == key),
{
    let after = after_emit(t, n, now).rows;
    if has_key(t.rows, user, key) {
        let i = choose|i: int|
            0 <= i < t.rows.len() && (#[trigger] t.rows[i]).note.user_id == user
                && t.rows[i].note.dedupe_key == key;
        assert(after[i] == t.rows[i]);
    }
    if is_new(t, n) && n.user_id == user && n.dedupe_key == key {
        assert(after[t.rows.len() as int].note == n);
    }
    if has_key(after, user, key) {
        let i = choose|i: int|
            0 <= i < after.len() && (#[trigger] after[i]).note.user_id == user
                && after[i].note.dedupe_key == key;
        if i < t.rows.len() {
            assert(t.rows[i] == after[i]);
        }
    }
}

/// What is stored stays stored when several are added.
pub proof fn lemma_emits_keep_keys(
    t: InboxView,
    ns: Seq<NewNotificationView>,
    now: i64,
    user: Uuid,
    key: Seq<char>,
)
    requires
        has_key(t.rows, user, key),
    ensures
        has_key(after_emits(t, ns, now).rows, user, key),
    decreases ns.len(),
{
    if ns.len() > 0 {
        lemma_emits_keep_keys(t, ns.drop_last(), now, user, key);
        lemma_emit_keeps_keys(after_emits(t, ns.drop_last(), now), ns.last(), now, user, key);
    }
}

/// What is stored after a batch was stored before it or comes from it.
pub proof fn lemma_emits_add_only_the_batch(
    t: InboxView,
    ns: Seq<NewNotificationView>,
    now: i64,
    user: Uuid,
    key: Seq<char>,
)
    requires
        !has_key(t.rows, user, key),
        forall|i: int| 0 <= i < ns.len() ==> !((#[trigger] ns[i]).user_id == user
            && ns[i].dedupe_key == key),
    ensures
        !has_key(after_emits(t, ns, now).rows, user, key),
    decreases ns.len(),
{
    if ns.len() > 0 {
        assert forall|i: int| 0 <= i < ns.drop_last().len() implies !((
        #[trigger] ns.drop_last()[i]).user_id == user && ns.drop_last()[i].dedupe_key == key) by {
            assert(ns.drop_last()[i] == ns[i]);
        }
        lemma_emits_add_only_the_batch(t, ns.drop_last(), now, user, key);
        assert(ns[ns.len() - 1] == ns.last());
        lemma_emit_keeps_keys(after_emits(t, ns.drop_last(), now), ns.last(), now, user, key);
    }
}

/// After a batch, nothing of the batch is new any more.
pub proof fn lemma_emits_settle(t: InboxView, ns: Seq<NewNotificationView>, now: i64, i: int)
    requires
        0 <= i < ns.len(),
    ensures
        !is_new(after_emits(t, ns, now), ns[i]),
    decreases ns.len(),
{
    let before = after_emits(t, ns.drop_last(), now);
    if i < ns.len() - 1 {
        assert(ns.drop_last()[i] == ns[i]);
        lemma_emits_settle(t, ns.drop_last(), now, i);
        if !is_self_notification(ns[i]) {
            lemma_emit_keeps_keys(before, ns.last(), now, ns[i].user_id, ns[i].dedupe_key);
        }
    } else {
        lemma_emit_keeps_keys(before, ns[i], now, ns[i].user_id, ns[i].dedupe_key);
    }
}

/// A batch of which nothing is new changes nothing.
pub proof fn lemma_emits_nothing_new(t: InboxView, ns: Seq<NewNotificationView>, now: i64)
    requires
        forall|i: int| 0 <= i < ns.len() ==> !is_new(t, #[trigger] ns[i]),
    ensures
        after_emits(t, ns, now) == t,
    decreases ns.len(),
{
    if ns.len() > 0 {
        assert forall|i: int| 0 <= i < ns.drop_last().len() implies !is_new(
            t,
            #[trigger] ns.drop_last()[i],
        ) by {
            assert(ns.drop_last()[i] == ns[i]);
        }
        lemma_emits_nothing_new(t, ns.drop_last(), now);
        assert(!is_new(t, ns[ns.len() - 1]));
    }
}

/// Taking the last of a sequence takes the first of it turned round.
proof fn lemma_reversed_pop(todo: Seq<NewNotification>, n: NewNotification)
    requires
        todo.len() > 0,
        todo.last() == n,
    ensures
        notes_view(todo.reverse())[0] == n@,
        notes_view(todo.drop_last().reverse()) == notes_view(todo.reverse()).skip(1),
{
    assert(todo.reverse()[0] == n);
    assert(todo.drop_last().reverse() =~= todo.reverse().skip(1));
    assert(notes_view(todo.drop_last().reverse()) =~= notes_view(todo.reverse()).skip(1));
}

/// What trying the next of a batch does to where it stops.
proof fn lemma_stops_step(
    t: InboxView,
    ns: Seq<NewNotificationView>,
    refs: ReferencesView,
    now: i64,
    k: int,
)
    requires
        0 <= k < ns.len(),
        stops_at(t, ns.take(k), refs, now) == k,
    ensures
        after_emits(t, ns.take(k + 1), now) == after_emit(
            after_emits(t, ns.take(k), now),
            ns[k],
            now,
        ),
        is_refused(after_emits(t, ns.take(k), now), ns[k], refs) ==> stops_at(t, ns, refs, now)
            == k,
        !is_refused(after_emits(t, ns.take(k), now), ns[k], refs) ==> stops_at(
            t,
            ns.take(k + 1),
            refs,
            now,
        ) == k + 1,
{
    let front = ns.take(k + 1);
    assert(front.drop_last() =~= ns.take(k));
    assert(front.last() == ns[k]);
    if is_refused(after_emits(t, ns.take(k), now), ns[k], refs) {
        lemma_stops_within(t, ns, refs, now, k + 1);
    }
}

/// Where storing some of a batch stops, storing all of it does.
pub proof fn lemma_stops_within(
    t: InboxView,
    ns: Seq<NewNotificationView>,
    refs: ReferencesView,
    now: i64,
    m: int,
)
    requires
        0 <= m <= ns.len(),
        stops_at(t, ns.take(m), refs, now) < m,
    ensures
        stops_at(t, ns, refs, now) == stops_at(t, ns.take(m), refs, now),
    decreases ns.len(),
{
    if m == ns.len() {
        assert(ns.take(m) =~= ns);
    } else {
        assert(ns.drop_last().take(m) =~= ns.take(m));
        lemma_stops_within(t, ns.drop_last(), refs, now, m);
    }
}

/// Storing adds behind what is there and changes nothing of it.
pub proof fn lemma_emits_only_add(t: InboxView, ns: Seq<NewNotificationView>, now: i64)
    ensures
        t.rows.len() <= after_emits(t, ns, now).rows.len(),
        after_emits(t, ns, now).rows.take(t.rows.len() as int) == t.rows,
    decreases ns.len(),
{
    if ns.len() > 0 {
        lemma_emits_only_add(t, ns.drop_last(), now);
        let before = after_emits(t, ns.drop_last(), now);
        assert(after_emits(t, ns, now).rows.take(t.rows.len() as int) =~= before.rows.take(
            t.rows.len() as int,
        ));
    } else {
        assert(t.rows.take(t.rows.len() as int) =~= t.rows);
    }
}

/// Where nothing fails a batch is tried in its order to the last, and comes to the
/// number of rows that were added.
pub proof fn law_a_batch_is_tried_in_order<E>(len: usize, outcomes: Seq<Result<bool, E>>)
    requires
        outcomes.len() <= len,
        forall|i: int| 0 <= i < outcomes.len() ==> (#[trigger] outcomes[i]) is Ok,
    ensures
        ({
            let (b, next) = after_outcomes(Batch { len, tried: 0, created: 0 }, outcomes);
            &&& b.len == len && b.tried == outcomes.len() && b.created == added_count(outcomes)
            &&& b.created <= b.tried
            &&& outcomes.len() < len ==> next == BatchNext::<E>::Try(outcomes.len() as usize)
            &&& outcomes.len() == len ==> next == BatchNext::<E>::Stored(
                added_count(outcomes) as usize,
            )
        }),
    decreases outcomes.len(),
{
    if outcomes.len() > 0 {
        assert forall|i: int| 0 <= i < outcomes.drop_last().len() implies (
        #[trigger] outcomes.drop_last()[i]) is Ok by {
            assert(outcomes.drop_last()[i] == outcomes[i]);
        }
        law_a_batch_is_tried_in_order(len, outcomes.drop_last());
        assert(outcomes[outcomes.len() - 1] is Ok);
    }
}

/// The first failure ends a batch and is what it comes to: whatever else might have
/// come of the others, none of them is tried.
pub proof fn law_the_first_failure_ends_a_batch<E>(
    len: usize,
    outcomes: Seq<Result<bool, E>>,
    i: int,
)
    requires
        0 <= i < outcomes.len() <= len,
        outcomes[i] is Err,
        forall|k: int| 0 <= k < i ==> (#[trigger] outcomes[k]) is Ok,
    ensures
        ({
            let (b, next) = after_outcomes(Batch { len, tried: 0, created: 0 }, outcomes);
            &&& next == BatchNext::<E>::Failed(outcomes[i]->Err_0)
            &&& b.tried == i
            &&& b.created == added_count(outcomes.take(i))
        }),
    decreases outcomes.len(),
{
    let front = outcomes.drop_last();
    if i < outcomes.len() - 1 {
        assert(front[i] == outcomes[i]);
        assert forall|k: int| 0 <= k < i implies (#[trigger] front[k]) is Ok by {
            assert(front[k] == outcomes[k]);
        }
        law_the_first_failure_ends_a_batch(len, front, i);
        assert(front.take(i) =~= outcomes.take(i));
    } else {
        assert forall|k: int| 0 <= k < front.len() implies (#[trigger] front[k]) is Ok by {
            assert(front[k] == outcomes[k]);
        }
        law_a_batch_is_tried_in_order(len, front);
        assert(front =~= outcomes.take(i));
    }
}

/// Two batches in turn are one batch.
pub proof fn lemma_emits_split(
    t: InboxView,
    ns: Seq<NewNotificationView>,
    now: i64,
    k: int,
)
    requires
        0 <= k <= ns.len(),
    ensures
        after_emits(t, ns, now) == after_emits(after_emits(t, ns.take(k), now), ns.skip(k), now),
    decreases ns.len(),
{
    if k == ns.len() {
        assert(ns.take(k) =~= ns);
    } else {
        assert(ns.take(k) =~= ns.drop_last().take(k));
        assert(ns.skip(k).drop_last() =~= ns.drop_last().skip(k));
        assert(ns.skip(k).last() == ns.last());
        lemma_emits_split(t, ns.drop_last(), now, k);
    }
}

/// A batch of which one is new, and of which all others are known or have its
/// recipient and key, adds exactly one row.
pub proof fn lemma_emits_add_one(
    t: InboxView,
    ns: Seq<NewNotificationView>,
    now: i64,
    k: int,
) -> (m: int)
    requires
        0 <= k < ns.len(),
        is_new(t, ns[k]),
        forall|i: int|
            0 <= i < ns.len() ==> !is_new(t, #[trigger] ns[i]) || (ns[i].user_id == ns[k].user_id
                && ns[i].dedupe_key == ns[k].dedupe_key),
    ensures
        0 <= m <= k,
        ns[m].user_id == ns[k].user_id,
        ns[m].dedupe_key == ns[k].dedupe_key,
        after_emits(t, ns, now) == after_emit(t, ns[m], now),
        after_emits(t, ns, now).rows == t.rows.push(new_row(t.next_id, ns[m], now)),
    decreases k,
{
    if exists|i: int| 0 <= i < k && is_new(t, #[trigger] ns[i]) {
        let i = choose|i: int| 0 <= i < k && is_new(t, #[trigger] ns[i]);
        assert forall|l: int| 0 <= l < ns.len() implies !is_new(t, #[trigger] ns[l]) || (
        ns[l].user_id == ns[i].user_id && ns[l].dedupe_key == ns[i].dedupe_key) by {}
        lemma_emits_add_one(t, ns, now, i)
    } else {
        let front = ns.take(k + 1);
        let before = ns.take(k);
        assert(front.drop_last() =~= before);
        assert(front.last() == ns[k]);
        assert forall|i: int| 0 <= i < before.len() implies !is_new(t, #[trigger] before[i]) by {
            assert(before[i] == ns[i]);
        }
        lemma_emits_nothing_new(t, before, now);
        let one = after_emit(t, ns[k], now);
        assert(after_emits(t, front, now) == one);
        let rest = ns.skip(k + 1);
        assert forall|i: int| 0 <= i < rest.len() implies !is_new(one, #[trigger] rest[i]) by {
            let n = ns[k + 1 + i];
            assert(rest[i] == n);
            lemma_emit_keeps_keys(t, ns[k], now, n.user_id, n.dedupe_key);
            assert(!is_new(t, n) || (n.user_id == ns[k].user_id && n.dedupe_key
                == ns[k].dedupe_key));
        }
        lemma_emits_split(t, ns, now, k + 1);
        lemma_emits_nothing_new(one, rest, now);
        k
    }
}

/// What storing does with a notification that names only what is there: a row is
/// added exactly where the recipient is not the one who acted and no row of theirs
/// has the key, and then it is one unread row with the fields of the notification;
/// otherwise nothing changes. Of any two
/// notifications with one recipient and key, neither by the recipient, exactly
/// one is stored, whichever comes first.
pub proof fn law_one_row_per_recipient_and_key(
    t: InboxView,
    n: NewNotificationView,
    other: NewNotificationView,
    now: i64,
    later: i64,
)
    requires
        n.user_id == other.user_id,
        n.dedupe_key == other.dedupe_key,
    ensures
        is_new(t, n) <==> n.actor_id != Some(n.user_id) && !has_key(
            t.rows,
            n.user_id,
            n.dedupe_key,
        ),
        is_new(t, n) ==> after_emit(t, n, now).rows == t.rows.push(new_row(t.next_id, n, now))
            && new_row(t.next_id, n, now).note == n && new_row(t.next_id, n, now).read_at is None,
        !is_new(t, n) ==> after_emit(t, n, now) == t,
        is_new(t, n) ==> !is_new(after_emit(t, n, now), other),
        is_new(t, n) && is_new(t, other) ==> after_emit(
            after_emit(t, n, now),
            other,
            later,
        ).rows.len() == t.rows.len() + 1 && after_emit(
            after_emit(t, other, now),
            n,
            later,
        ).rows.len() == t.rows.len() + 1,
{
    lemma_emit_keeps_keys(t, n, now, n.user_id, n.dedupe_key);
    lemma_emit_keeps_keys(t, other, now, n.user_id, n.dedupe_key);
}

/// Storing a notification a second time changes nothing, whenever it happens.
pub proof fn law_emit_is_idempotent(
    t: InboxView,
    n: NewNotificationView,
    now: i64,
    later: i64,
)
    ensures
        !is_new(after_emit(t, n, now), n),
        after_emit(after_emit(t, n, now), n, later) == after_emit(t, n, now),
{
    lemma_emit_keeps_keys(t, n, now, n.user_id, n.dedupe_key);
}

/// A batch whose recipients and dedupe keys all occurred in an earlier batch
/// adds nothing.
pub proof fn law_repeated_batch_adds_nothing(
    t: InboxView,
    first: Seq<NewNotificationView>,
    second: Seq<NewNotificationView>,
    now: i64,
    later: i64,
)
    requires
        forall|j: int|
            0 <= j < second.len() ==> is_self_notification(#[trigger] second[j]) || exists|i: int|
                0 <= i < first.len() && !is_self_notification(first[i])
                    && (#[trigger] first[i]).user_id == second[j].user_id && first[i].dedupe_key
                    == second[j].dedupe_key,
    ensures
        after_emits(after_emits(t, first, now), second, later) == after_emits(t, first, now),
{
    let mid = after_emits(t, first, now);
    assert forall|j: int| 0 <= j < second.len() implies !is_new(mid, #[trigger] second[j]) by {
        if !is_self_notification(second[j]) {
            let i = choose|i: int|
                0 <= i < first.len() && !is_self_notification(first[i])
                    && (#[trigger] first[i]).user_id == second[j].user_id && first[i].dedupe_key
                    == second[j].dedupe_key;
            lemma_emits_settle(t, first, now, i);
        }
    }
    lemma_emits_nothing_new(mid, second, later);
}

/// Two replicas that store in different orders end with the same recipients and
/// dedupe keys, and with equally many rows.
pub proof fn law_emits_converge(
    t: InboxView,
    a: NewNotificationView,
    b: NewNotificationView,
    now: i64,
    user: Uuid,
    key: Seq<char>,
)
    ensures
        has_key(after_emit(after_emit(t, a, now), b, now).rows, user, key) == has_key(
            after_emit(after_emit(t, b, now), a, now).rows,
            user,
            key,
        ),
        after_emit(after_emit(t, a, now), b, now).rows.len() == after_emit(
            after_emit(t, b, now),
            a,
            now,
        ).rows.len(),
{
    let ta = after_emit(t, a, now);
    let tb = after_emit(t, b, now);
    lemma_emit_keeps_keys(t, a, now, user, key);
    lemma_emit_keeps_keys(t, b, now, user, key);
    lemma_emit_keeps_keys(ta, b, now, user, key);
    lemma_emit_keeps_keys(tb, a, now, user, key);
    lemma_emit_keeps_keys(t, a, now, b.user_id, b.dedupe_key);
    lemma_emit_keeps_keys(t, b, now, a.user_id, a.dedupe_key);
}

/// Nobody is told of what they did themselves: such a notification changes
/// nothing.
pub proof fn law_self_notification_is_dropped(t: InboxView, n: NewNotificationView, now: i64)
    requires
        n.actor_id == Some(n.user_id),
    ensures
        after_emit(t, n, now) == t,
{
}

/// What was just stored comes first in its recipient's inbox, read and unread
/// alike.
pub proof fn law_stored_comes_first(
    t: InboxView,
    n: NewNotificationView,
    now: i64,
    unread_only: bool,
)
    requires
        is_new(t, n),
    ensures
        listing(after_emit(t, n, now).rows, n.user_id, unread_only, None).len() > 0,
        listing(after_emit(t, n, now).rows, n.user_id, unread_only, None)[0] == new_row(
            t.next_id,
            n,
            now,
        ),
{
    reveal(Seq::filter);
    let rows = after_emit(t, n, now).rows;
    assert(rows.drop_last() =~= t.rows);
}

/// Marking as read changes neither anyone else's rows nor any read row, and
/// takes no row away.
pub proof fn law_marking_is_private(
    rows: Seq<NotificationRowView>,
    user: Uuid,
    ids: Option<Seq<i64>>,
    now: i64,
    i: int,
)
    requires
        0 <= i < rows.len(),
    ensures
        marked(rows, user, ids, now).len() == rows.len(),
        marked(rows, user, ids, now)[i].note == rows[i].note,
        marked(rows, user, ids, now)[i].id == rows[i].id,
        rows[i].note.user_id != user ==> marked(rows, user, ids, now)[i] == rows[i],
        rows[i].read_at is Some ==> marked(rows, user, ids, now)[i] == rows[i],
{
}

/// After all is marked as read nothing is unread.
pub proof fn law_mark_all_leaves_none_unread(
    rows: Seq<NotificationRowView>,
    user: Uuid,
    now: i64,
)
    ensures
        unread_total(marked(rows, user, None, now), user) == 0,
{
    let after = marked(rows, user, None, now);
    let p = to_mark(user, None);
    assert forall|i: int| 0 <= i < after.len() implies !p(#[trigger] after[i]) by {}
    after.lemma_all_neg_filter_empty(p);
}

/// Reading does not reopen a dedupe key: what was notified once is not notified
/// again because it was read.
pub proof fn law_reading_keeps_keys(
    rows: Seq<NotificationRowView>,
    user: Uuid,
    ids: Option<Seq<i64>>,
    now: i64,
    recipient: Uuid,
    key: Seq<char>,
)
    ensures
        has_key(marked(rows, user, ids, now), recipient, key) == has_key(rows, recipient, key),
{
    let after = marked(rows, user, ids, now);
    if has_key(rows, recipient, key) {
        let i = choose|i: int|
            0 <= i < rows.len() && (#[trigger] rows[i]).note.user_id == recipient
                && rows[i].note.dedupe_key == key;
        assert(after[i].note == rows[i].note);
    }
    if has_key(after, recipient, key) {
        let i = choose|i: int|
            0 <= i < after.len() && (#[trigger] after[i]).note.user_id == recipient
                && after[i].note.dedupe_key == key;
        assert(after[i].note == rows[i].note);
    }
}

/// Pruning keeps a row exactly where it has not expired; in particular it keeps
/// every assigned task and every row that is at most 90 days old.
pub proof fn law_prune_keeps_exactly_the_unexpired(
    rows: Seq<NotificationRowView>,
    now: i64,
    r: NotificationRowView,
)
    ensures
        rows.filter(retained(now as int)).contains(r) <==> rows.contains(r) && !is_expired(
            r,
            now as int,
        ),
        rows.contains(r) && r.note.kind == NotificationKind::TaskAssigned ==> rows.filter(
            retained(now as int),
        ).contains(r),
        rows.contains(r) && !crate::time::older_than(
            r.created_at as int,
            READ_RETENTION_DAYS as int,
            now as int,
        ) ==> rows.filter(retained(now as int)).contains(r),
{
    crate::seqs::lemma_filter_contains(rows, retained(now as int), r);
}

/// Retention never makes an assignment new again: whoever was told of one is not
/// told again, however long the row has been there and whether it was read.
pub proof fn law_retention_never_repeats_an_assignment(
    t: InboxView,
    now: i64,
    i: int,
    n: NewNotificationView,
)
    requires
        0 <= i < t.rows.len(),
        t.rows[i].note.kind == NotificationKind::TaskAssigned,
        t.rows[i].note.user_id == n.user_id,
        t.rows[i].note.dedupe_key == n.dedupe_key,
    ensures
        !is_new(
            (InboxView { rows: t.rows.filter(retained(now as int)), next_id: t.next_id }),
            n,
        ),
{
    let kept = t.rows.filter(retained(now as int));
    assert(t.rows.contains(t.rows[i]));
    law_prune_keeps_exactly_the_unexpired(t.rows, now, t.rows[i]);
    let k = choose|k: int| 0 <= k < kept.len() && kept[k] == t.rows[i];
    assert(kept[k].note.user_id == n.user_id);
}

/// Pruning twice at one instant is pruning once.
pub proof fn law_prune_is_idempotent(rows: Seq<NotificationRowView>, now: i64)
    ensures
        rows.filter(retained(now as int)).filter(retained(now as int)) == rows.filter(
            retained(now as int),
        ),
{
    let p = retained(now as int);
    let kept = rows.filter(p);
    assert forall|i: int| 0 <= i < kept.len() implies p(#[trigger] kept[i]) by {
        rows.lemma_filter_pred(p, i);
    }
    crate::seqs::lemma_filter_all(kept, p);
}

/// Rows with increasing identifiers, cut below an identifier that occurs, are
/// the rows before it.
proof fn lemma_cut_below(
    rows: Seq<NotificationRowView>,
    user: Uuid,
    unread_only: bool,
    k: int,
)
    requires
        0 <= k < rows.len(),
        forall|i: int, j: int|
            0 <= i < j < rows.len() ==> (#[trigger] rows[i]).id < (#[trigger] rows[j]).id,
    ensures
        rows.filter(shown(user, unread_only, Some(rows[k].id))) == rows.take(k).filter(
            shown(user, unread_only, None),
        ),
{
    let p = shown(user, unread_only, Some(rows[k].id));
    let q = shown(user, unread_only, None);
    crate::seqs::lemma_filter_split(rows, k, p);
    assert forall|i: int| 0 <= i < rows.take(k).len() implies p(#[trigger] rows.take(k)[i]) == q(
        rows.take(k)[i],
    ) by {
        assert(rows.take(k)[i] == rows[i]);
    }
    crate::seqs::lemma_filter_agree(rows.take(k), p, q);
    let tail = rows.skip(k);
    assert forall|i: int| 0 <= i < tail.len() implies !p(#[trigger] tail[i]) by {
        assert(tail[i] == rows[k + i]);
    }
    tail.lemma_all_neg_filter_empty(p);
    assert(tail.filter(p) =~= Seq::<NotificationRowView>::empty());
}

/// A page read below the last row of the page before continues the listing
/// where that page ended: no row is skipped and none comes twice.
pub proof fn law_pages_continue(
    t: InboxView,
    user: Uuid,
    unread_only: bool,
    first: int,
    second: int,
)
    requires
        valid_inbox(t),
        0 < first <= listing(t.rows, user, unread_only, None).len(),
        0 <= second,
    ensures
        ({
            let all = listing(t.rows, user, unread_only, None);
            let p1 = page(t.rows, user, unread_only, first, None);
            let rest = all.skip(first);
            p1 == all.take(first) && page(t.rows, user, unread_only, second, Some(p1.last().id))
                == rest.take(if second < rest.len() { second } else { rest.len() as int })
        }),
{
    let q = shown(user, unread_only, None);
    let kept = t.rows.filter(q);
    let all = kept.reverse();
    let p1 = page(t.rows, user, unread_only, first, None);
    let at = crate::seqs::lemma_filter_order(t.rows, q);
    let m = kept.len() - first;
    assert(p1.last() == kept[m]);
    let k = at[m];
    assert(t.rows[k] == kept[m]);
    lemma_cut_below(t.rows, user, unread_only, k);
    // The rows before the k-th that are shown are the first `m` of all shown.
    crate::seqs::lemma_filter_split(t.rows, k, q);
    crate::seqs::lemma_filter_front(t.rows, k, q);
    let before = t.rows.take(k).filter(q);
    let from_k = t.rows.skip(k).filter(q);
    assert(q(t.rows[k])) by {
        t.rows.lemma_filter_pred(q, m);
    }
    assert(kept == before + from_k);
    assert(kept[before.len() as int] == t.rows[k]);
    assert(before.len() == m) by {
        let n = before.len() as int;
        assert(at[n] == k) by {
            assert(t.rows[at[n]] == kept[n]);
            if at[n] < k {
                assert(t.rows[at[n]].id < t.rows[k].id);
            } else if k < at[n] {
                assert(t.rows[k].id < t.rows[at[n]].id);
            }
        }
        if n < m {
            assert(at[n] < at[m]);
        } else if m < n {
            assert(at[m] < at[n]);
        }
    }
    assert(before =~= kept.take(m));
    assert(before.reverse() =~= all.skip(first));
}

/// A page is newest first, holds only the user's own rows, and no more than
/// were asked for.
pub proof fn law_page_is_newest_first(
    t: InboxView,
    user: Uuid,
    unread_only: bool,
    limit: int,
    cursor: Option<i64>,
)
    requires
        valid_inbox(t),
        0 <= limit,
    ensures
        ({
            let p = page(t.rows, user, unread_only, limit, cursor);
            &&& p.len() <= limit
            &&& forall|i: int, j: int|
                0 <= i < j < p.len() ==> (#[trigger] p[i]).id > (#[trigger] p[j]).id
            &&& forall|i: int|
                0 <= i < p.len() ==> (#[trigger] p[i]).note.user_id == user && (unread_only
                    ==> p[i].read_at is None) && (cursor is Some ==> p[i].id < cursor->0)
        }),
{
    let q = shown(user, unread_only, cursor);
    let kept = t.rows.filter(q);
    let at = crate::seqs::lemma_filter_order(t.rows, q);
    let p = page(t.rows, user, unread_only, limit, cursor);
    assert forall|i: int| 0 <= i < p.len() implies (#[trigger] p[i]) == kept[kept.len() - 1 - i] && q(
        p[i],
    ) by {
        t.rows.lemma_filter_pred(q, kept.len() - 1 - i);
    }
    assert forall|i: int, j: int| 0 <= i < j < p.len() implies (#[trigger] p[i]).id > (
    #[trigger] p[j]).id by {
        let a = kept.len() - 1 - i;
        let b = kept.len() - 1 - j;
        assert(at[b] < at[a]);
        assert(t.rows[at[b]].id < t.rows[at[a]].id);
    }
}

/// How long a row is kept: an assigned task always; any other row 180 days, or 90
/// where it was read. Pruning keeps exactly these.
pub proof fn law_how_long_rows_are_kept(rows: Seq<NotificationRowView>, now: i64)
    ensures
        forall|r: NotificationRowView| #[trigger]
            rows.filter(retained(now as int)).contains(r) <==> rows.contains(r) && {
                let age = now - r.created_at;
                ||| r.note.kind == NotificationKind::TaskAssigned
                ||| r.read_at is None && age <= 180 * 24 * 60 * 60 * 1_000_000
                ||| age <= 90 * 24 * 60 * 60 * 1_000_000
            },
{
    assert forall|r: NotificationRowView| #[trigger]
        rows.filter(retained(now as int)).contains(r) <==> rows.contains(r) && {
            let age = now - r.created_at;
            ||| r.note.kind == NotificationKind::TaskAssigned
            ||| r.read_at is None && age <= 180 * 24 * 60 * 60 * 1_000_000
            ||| age <= 90 * 24 * 60 * 60 * 1_000_000
        } by {
        crate::seqs::lemma_filter_contains(rows, retained(now as int), r);
    }
}

/// Deleting a document takes exactly its rows out of the inbox.
pub proof fn law_a_deleted_document_leaves_no_rows(rows: Seq<NotificationRowView>, doc_id: Uuid)
    ensures
        forall|r: NotificationRowView| #[trigger]
            rows.filter(not_of_doc(doc_id)).contains(r) <==> rows.contains(r) && r.note.doc_id
                != Some(doc_id),
{
    assert forall|r: NotificationRowView| #[trigger]
        rows.filter(not_of_doc(doc_id)).contains(r) <==> rows.contains(r) && r.note.doc_id != Some(
            doc_id,
        ) by {
        crate::seqs::lemma_filter_contains(rows, not_of_doc(doc_id), r);
    }
}

/// A listing leaves nothing out: it shows exactly the user's rows, the unread ones
/// alone where these are asked for, and those below the cursor where there is one.
/// A page is its start: as many rows as are asked for, or all where there are
/// fewer, so that whatever it leaves out is older than all that it shows.
pub proof fn law_a_page_leaves_nothing_newer_out(
    t: InboxView,
    user: Uuid,
    unread_only: bool,
    limit: int,
    cursor: Option<i64>,
)
    requires
        valid_inbox(t),
        0 <= limit,
    ensures
        ({
            let all = listing(t.rows, user, unread_only, cursor);
            let p = page(t.rows, user, unread_only, limit, cursor);
            &&& forall|r: NotificationRowView| #[trigger]
                all.contains(r) <==> t.rows.contains(r) && r.note.user_id == user && (unread_only
                    ==> r.read_at is None) && (cursor is Some ==> r.id < cursor->0)
            &&& p.len() == if limit < all.len() {
                limit
            } else {
                all.len() as int
            }
            &&& forall|r: NotificationRowView, i: int|
                t.rows.contains(r) && r.note.user_id == user && (unread_only ==> r.read_at is None)
                    && (cursor is Some ==> r.id < cursor->0) && !(#[trigger] p.contains(r)) && 0 <= i
                    < p.len() ==> r.id < (#[trigger] p[i]).id && p.len() == limit
        }),
{
    let s = shown(user, unread_only, cursor);
    let kept = t.rows.filter(s);
    let all = listing(t.rows, user, unread_only, cursor);
    let p = page(t.rows, user, unread_only, limit, cursor);
    assert forall|r: NotificationRowView| #[trigger] all.contains(r) <==> kept.contains(r) by {
        if kept.contains(r) {
            let k = choose|k: int| 0 <= k < kept.len() && kept[k] == r;
            assert(all[kept.len() - 1 - k] == r);
        }
        if all.contains(r) {
            let k = choose|k: int| 0 <= k < all.len() && all[k] == r;
            assert(kept[kept.len() - 1 - k] == r);
        }
    }
    assert forall|r: NotificationRowView| #[trigger] all.contains(r) <==> t.rows.contains(r)
        && r.note.user_id == user && (unread_only ==> r.read_at is None) && (cursor is Some ==> r.id
        < cursor->0) by {
        crate::seqs::lemma_filter_contains(t.rows, s, r);
    }
    law_page_is_newest_first(t, user, unread_only, all.len() as int, cursor);
    assert(page(t.rows, user, unread_only, all.len() as int, cursor) =~= all);
    assert forall|r: NotificationRowView, i: int|
        t.rows.contains(r) && r.note.user_id == user && (unread_only ==> r.read_at is None) && (
        cursor is Some ==> r.id < cursor->0) && !(#[trigger] p.contains(r)) && 0 <= i
            < p.len() implies r.id < (#[trigger] p[i]).id && p.len() == limit by {
        assert(all.contains(r));
        let k = choose|k: int| 0 <= k < all.len() && all[k] == r;
        if k < p.len() {
            assert(p[k] == r);
        }
        assert(p[i] == all[i]);
    }
}

/// Marking as read marks exactly the user's unread rows, all of them or those with
/// the identifiers that are given, and notes when; every other row stays as it is.
pub proof fn law_marking_marks_exactly_those_asked(
    rows: Seq<NotificationRowView>,
    user: Uuid,
    ids: Option<Seq<i64>>,
    now: i64,
    i: int,
)
    requires
        0 <= i < rows.len(),
    ensures
        ({
            let was = rows[i];
            let is = marked(rows, user, ids, now)[i];
            let asked = was.note.user_id == user && was.read_at is None && (ids is None
                || ids->0.contains(was.id));
            &&& asked ==> is.read_at == Some(now) && is.id == was.id && is.note == was.note
                && is.created_at == was.created_at
            &&& !asked ==> is == was
        }),
{
}

/// Which rows of a user are unread.
pub open spec fn is_unread_of(user: Uuid) -> spec_fn(NotificationRowView) -> bool {
    |r: NotificationRowView| r.note.user_id == user && r.read_at is None
}

/// The number of unread rows counts exactly the user's rows that were not read. It
/// grows by one for the recipient of what is newly stored and stays for everyone
/// else.
pub proof fn law_unread_rows_are_counted(
    t: InboxView,
    user: Uuid,
    n: NewNotificationView,
    now: i64,
)
    ensures
        unread_total(t.rows, user) == t.rows.filter(is_unread_of(user)).len(),
        is_new(t, n) ==> unread_total(after_emit(t, n, now).rows, n.user_id) == unread_total(
            t.rows,
            n.user_id,
        ) + 1,
        n.user_id != user || !is_new(t, n) ==> unread_total(after_emit(t, n, now).rows, user)
            == unread_total(t.rows, user),
{
    crate::seqs::lemma_filter_agree(t.rows, to_mark(user, None), is_unread_of(user));
    reveal(Seq::filter);
    if is_new(t, n) {
        let after = after_emit(t, n, now).rows;
        assert(after.drop_last() =~= t.rows);
    }
}

/// How many rows marking changes: as many as are the user's, unread and, where
/// identifiers are given, among them. All that is marked is no longer unread.
pub proof fn law_marking_counts_what_it_changes(
    rows: Seq<NotificationRowView>,
    user: Uuid,
    ids: Option<Seq<i64>>,
    now: i64,
)
    ensures
        rows.filter(to_mark(user, ids)).len() + unread_total(marked(rows, user, ids, now), user)
            == unread_total(rows, user),
    decreases rows.len(),
{
    reveal(Seq::filter);
    if rows.len() > 0 {
        law_marking_counts_what_it_changes(rows.drop_last(), user, ids, now);
        assert(marked(rows, user, ids, now).drop_last() =~= marked(
            rows.drop_last(),
            user,
            ids,
            now,
        ));
    }
}

/// A name is that of the first entry with the identifier, and there is none exactly
/// where no entry has it.
pub proof fn law_names_are_looked_up(entries: Seq<NameEntry>, id: Uuid)
    ensures
        name_of(entries, id) is None <==> forall|i: int|
            0 <= i < entries.len() ==> (#[trigger] entries[i]).id != id,
        forall|i: int|
            0 <= i < entries.len() && (#[trigger] entries[i]).id == id && (forall|k: int|
                0 <= k < i ==> (#[trigger] entries[k]).id != id) ==> name_of(entries, id) == Some(
                entries[i].name@,
            ),
    decreases entries.len(),
{
    if entries.len() > 0 {
        let rest = entries.skip(1);
        law_names_are_looked_up(rest, id);
        assert forall|i: int| 0 <= i < rest.len() implies (#[trigger] rest[i]) == entries[i + 1] by {}
        if entries[0].id != id {
            if name_of(entries, id) is None {
                assert forall|i: int| 0 <= i < entries.len() implies (#[trigger] entries[i]).id
                    != id by {
                    if i > 0 {
                        assert(rest[i - 1].id != id);
                    }
                }
            }
            if forall|i: int| 0 <= i < entries.len() ==> (#[trigger] entries[i]).id != id {
                assert forall|i: int| 0 <= i < rest.len() implies (#[trigger] rest[i]).id != id by {
                    assert(entries[i + 1].id != id);
                }
            }
            assert forall|i: int|
                0 <= i < entries.len() && (#[trigger] entries[i]).id == id && (forall|k: int|
                    0 <= k < i ==> (#[trigger] entries[k]).id != id) implies name_of(entries, id)
                == Some(entries[i].name@) by {
                assert(rest[i - 1].id == id);
                assert forall|k: int| 0 <= k < i - 1 implies (#[trigger] rest[k]).id != id by {
                    assert(entries[k + 1].id != id);
                }
            }
        } else {
            assert forall|i: int|
                0 <= i < entries.len() && (#[trigger] entries[i]).id == id && (forall|k: int|
                    0 <= k < i ==> (#[trigger] entries[k]).id != id) implies name_of(entries, id)
                == Some(entries[i].name@) by {
                if i > 0 {
                    assert(entries[0].id != id);
                }
            }
        }
    }
}

/// What a reader sees of a row is the row: its identifier, kind, document, target,
/// data and times, and whoever acted; beside these the name of who acted and the
/// title of the document, where they are known.
pub proof fn law_a_row_is_read_as_it_was_stored(
    row: NotificationRowView,
    users: Seq<NameEntry>,
    docs: Seq<NameEntry>,
)
    ensures
        ({
            let seen = as_read(row, users, docs);
            &&& seen.id == row.id
            &&& seen.kind == kind_text(row.note.kind)
            &&& seen.doc_id == row.note.doc_id
            &&& seen.target_kind == row.note.target_kind
            &&& seen.target_id == row.note.target_id
            &&& seen.data == row.note.data
            &&& seen.created_at == row.created_at
            &&& seen.read_at == row.read_at
            &&& seen.actor_id == row.note.actor_id
            &&& row.note.actor_id is None ==> seen.actor_display_name is None
            &&& row.note.actor_id is Some ==> seen.actor_display_name == name_of(
                users,
                row.note.actor_id->0,
            )
            &&& row.note.doc_id is None ==> seen.doc_title is None
            &&& row.note.doc_id is Some ==> seen.doc_title == name_of(docs, row.note.doc_id->0)
        }),
{
}

/// Storing fails exactly where it calls for a row and something that the
/// notification names is not there: its workspace, its recipient, whoever acted, or
/// its document. What calls for no row never fails.
pub proof fn law_which_notifications_fail(
    t: InboxView,
    n: NewNotificationView,
    refs: ReferencesView,
)
    ensures
        is_refused(t, n, refs) <==> {
            &&& n.actor_id != Some(n.user_id)
            &&& forall|i: int|
                0 <= i < t.rows.len() ==> !((#[trigger] t.rows[i]).note.user_id == n.user_id
                    && t.rows[i].note.dedupe_key == n.dedupe_key)
            &&& {
                ||| !refs.workspaces.contains(n.workspace_id)
                ||| !refs.users.contains(n.user_id)
                ||| n.actor_id is Some && !refs.users.contains(n.actor_id->0)
                ||| n.doc_id is Some && !refs.docs.contains(n.doc_id->0)
            }
        },
{
}

/// What a stored notification is: one row more, behind all others, with the next
/// identifier, the notification as it was given, of now and unread; and the
/// identifier after that is the next.
pub proof fn law_storing_adds_the_notification(t: InboxView, n: NewNotificationView, now: i64)
    requires
        t.next_id < i64::MAX,
        n.actor_id != Some(n.user_id),
        forall|i: int|
            0 <= i < t.rows.len() ==> !((#[trigger] t.rows[i]).note.user_id == n.user_id
                && t.rows[i].note.dedupe_key == n.dedupe_key),
    ensures
        ({
            let after = after_emit(t, n, now);
            &&& after.rows.len() == t.rows.len() + 1
            &&& after.rows.drop_last() == t.rows
            &&& after.rows.last().id == t.next_id
            &&& after.rows.last().note == n
            &&& after.rows.last().created_at == now
            &&& after.rows.last().read_at is None
            &&& after.next_id == t.next_id + 1
        }),
{
    assert(after_emit(t, n, now).rows.drop_last() =~= t.rows);
}

/// After a batch everyone whom it tells of something that they did not do
/// themselves has a row with its key, whether from before or from the batch; and
/// each row that was added is one of the batch.
pub proof fn law_a_batch_is_stored(
    t: InboxView,
    ns: Seq<NewNotificationView>,
    now: i64,
)
    ensures
        forall|i: int|
            0 <= i < ns.len() && (#[trigger] ns[i]).actor_id != Some(ns[i].user_id) ==> has_key(
                after_emits(t, ns, now).rows,
                ns[i].user_id,
                ns[i].dedupe_key,
            ),
        forall|k: int|
            t.rows.len() <= k < after_emits(t, ns, now).rows.len() ==> ns.contains(
                (#[trigger] after_emits(t, ns, now).rows[k]).note,
            ),
    decreases ns.len(),
{
    assert forall|i: int|
        0 <= i < ns.len() && (#[trigger] ns[i]).actor_id != Some(ns[i].user_id) implies has_key(
        after_emits(t, ns, now).rows,
        ns[i].user_id,
        ns[i].dedupe_key,
    ) by {
        lemma_emits_settle(t, ns, now, i);
    }
    if ns.len() > 0 {
        let rest = ns.drop_last();
        law_a_batch_is_stored(t, rest, now);
        let before = after_emits(t, rest, now).rows;
        let after = after_emits(t, ns, now).rows;
        assert forall|k: int| t.rows.len() <= k < after.len() implies ns.contains(
            (#[trigger] after[k]).note,
        ) by {
            if k < before.len() {
                assert(after[k] == before[k]);
                assert(rest.contains(before[k].note));
                let i = choose|i: int| 0 <= i < rest.len() && rest[i] == before[k].note;
                assert(ns[i] == rest[i]);
            } else {
                assert(ns[ns.len() - 1] == after[k].note);
            }
        }
    }
}

/// Where storing a batch stops: nothing before that place fails, and what stands
/// there does, after all before it was stored.
pub proof fn law_a_batch_stops_at_its_first_failure(
    t: InboxView,
    ns: Seq<NewNotificationView>,
    refs: ReferencesView,
    now: i64,
)
    ensures
        ({
            let stop = stops_at(t, ns, refs, now);
            &&& 0 <= stop <= ns.len()
            &&& forall|k: int|
                0 <= k < stop ==> !is_refused(
                    #[trigger] after_emits(t, ns.take(k), now),
                    ns[k],
                    refs,
                )
            &&& stop < ns.len() ==> is_refused(after_emits(t, ns.take(stop), now), ns[stop], refs)
        }),
    decreases ns.len(),
{
    if ns.len() > 0 {
        let rest = ns.drop_last();
        let stop = stops_at(t, ns, refs, now);
        law_a_batch_stops_at_its_first_failure(t, rest, refs, now);
        assert forall|k: int| 0 <= k < ns.len() implies ns.take(k) == #[trigger] rest.take(k) by {
            assert(ns.take(k) =~= rest.take(k));
        }
        assert(rest.take(rest.len() as int) =~= rest);
        assert forall|k: int| 0 <= k < stop implies !is_refused(
            #[trigger] after_emits(t, ns.take(k), now),
            ns[k],
            refs,
        ) by {
            assert(ns.take(k) == rest.take(k));
            if k < rest.len() {
                assert(rest[k] == ns[k]);
                assert(!is_refused(after_emits(t, rest.take(k), now), rest[k], refs));
            }
        }
        if stop < ns.len() {
            assert(ns.take(stop) == rest.take(stop));
        }
    }
}

/// A page is read row by row: as many notifications as rows, in their order, each
/// with its row's identifier and data.
pub proof fn law_pages_are_read_row_by_row(
    rows: Seq<NotificationRowView>,
    users: Seq<NameEntry>,
    docs: Seq<NameEntry>,
    i: int,
)
    requires
        0 <= i < rows.len(),
    ensures
        all_as_read(rows, users, docs).len() == rows.len(),
        all_as_read(rows, users, docs)[i].id == rows[i].id,
        all_as_read(rows, users, docs)[i].data == rows[i].note.data,
        all_as_read(rows, users, docs)[i] == as_read(rows[i], users, docs),
{
}

/// The names under which the kinds are stored.
pub proof fn law_kinds_are_stored_by_name(kind: NotificationKind)
    ensures
        kind == NotificationKind::Mention <==> kind_text(kind) == "mention"@,
        kind == NotificationKind::Reply <==> kind_text(kind) == "reply"@,
        kind == NotificationKind::TaskAssigned <==> kind_text(kind) == "task_assigned"@,
        kind == NotificationKind::TaskDue <==> kind_text(kind) == "task_due"@,
        kind == NotificationKind::DocShared <==> kind_text(kind) == "doc_shared"@,
{
    if kind_text(kind) == "mention"@ {
        law_kind_names_distinct(kind, NotificationKind::Mention);
    }
    if kind_text(kind) == "reply"@ {
        law_kind_names_distinct(kind, NotificationKind::Reply);
    }
    if kind_text(kind) == "task_assigned"@ {
        law_kind_names_distinct(kind, NotificationKind::TaskAssigned);
    }
    if kind_text(kind) == "task_due"@ {
        law_kind_names_distinct(kind, NotificationKind::TaskDue);
    }
    if kind_text(kind) == "doc_shared"@ {
        law_kind_names_distinct(kind, NotificationKind::DocShared);
    }
}

/// A batch is stored one after the other: one that follows another is stored as if
/// both were one, and of one notification alone a batch is its storing.
pub proof fn law_a_batch_is_stored_in_turn(
    t: InboxView,
    first: Seq<NewNotificationView>,
    second: Seq<NewNotificationView>,
    n: NewNotificationView,
    now: i64,
)
    ensures
        after_emits(t, first + second, now) == after_emits(
            after_emits(t, first, now),
            second,
            now,
        ),
        after_emits(t, seq![n], now) == after_emit(t, n, now),
        after_emits(t, Seq::empty(), now) == t,
{
    let all = first + second;
    lemma_emits_split(t, all, now, first.len() as int);
    assert(all.take(first.len() as int) =~= first);
    assert(all.skip(first.len() as int) =~= second);
    assert(seq![n].drop_last() =~= Seq::<NewNotificationView>::empty());
    assert(after_emits(t, seq![n].drop_last(), now) == t);
    assert(seq![n].last() == n);
}

/// A batch of which every notification names only what is there is stored to the last.
pub proof fn law_known_names_never_fail(
    t: InboxView,
    ns: Seq<NewNotificationView>,
    refs: ReferencesView,
    now: i64,
)
    requires
        forall|i: int|
            0 <= i < ns.len() ==> refs.workspaces.contains((#[trigger] ns[i]).workspace_id)
                && refs.users.contains(ns[i].user_id) && (ns[i].actor_id is Some
                ==> refs.users.contains(ns[i].actor_id->0)) && (ns[i].doc_id is Some
                ==> refs.docs.contains(ns[i].doc_id->0)),
    ensures
        stops_at(t, ns, refs, now) == ns.len(),
    decreases ns.len(),
{
    if ns.len() > 0 {
        let rest = ns.drop_last();
        assert forall|i: int| 0 <= i < rest.len() implies refs.workspaces.contains(
            (#[trigger] rest[i]).workspace_id,
        ) && refs.users.contains(rest[i].user_id) && (rest[i].actor_id is Some
            ==> refs.users.contains(rest[i].actor_id->0)) && (rest[i].doc_id is Some
            ==> refs.docs.contains(rest[i].doc_id->0)) by {
            assert(rest[i] == ns[i]);
        }
        law_known_names_never_fail(t, rest, refs, now);
        assert(ns[ns.len() - 1] == ns.last());
    }
}

/// Unread rows are counted one by one up to the number asked for: where there are fewer
/// the count is exact, and it never says more than there are.
pub proof fn law_counting_stops_at_the_cap(rows: Seq<NotificationRowView>, user: Uuid, cap: int)
    requires
        0 <= cap,
    ensures
        ({
            let there = rows.filter(is_unread_of(user)).len();
            let counted = counted_unread(rows, user, cap);
            &&& counted <= cap && counted <= there
            &&& counted < cap ==> counted == there
            &&& counted < there ==> counted == cap
        }),
{
    crate::seqs::lemma_filter_agree(rows, to_mark(user, None), is_unread_of(user));
}

} // verus!
