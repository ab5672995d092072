//! Documents: the table that holds them, its operations and its listings, and
//! where among its siblings a document is put.

use crate::ids::Uuid;
use crate::order::{insert_in_order, is_text_at_most, Order};
use crate::text::same_text;
use crate::time::Timestamp;
use crate::tree::{creates_cycle, descendant_ids, TreeLink};
use vstd::prelude::*;
use vstd::string::*;

verus! {

/// A document's metadata.
#[derive(Debug)]
pub struct Document {
    pub id: Uuid,
    pub workspace_id: Uuid,
    pub parent_id: Option<Uuid>,
    pub title: String,
    pub sort_key: String,
    pub icon: Option<String>,
    pub created_by: Uuid,
    pub created_at: Timestamp,
    pub updated_at: Timestamp,
    pub archived_at: Option<Timestamp>,
    /// A template is left out of the tree and shown in the gallery of the "New
    /// document" dialog instead.
    pub is_template: bool,
}

#[verifier::ext_equal]
pub struct DocumentView {
    pub id: Uuid,
    pub workspace_id: Uuid,
    pub parent_id: Option<Uuid>,
    pub title: Seq<char>,
    pub sort_key: Seq<char>,
    pub icon: Option<Seq<char>>,
    pub created_by: Uuid,
    pub created_at: i64,
    pub updated_at: i64,
    pub archived_at: Option<i64>,
    pub is_template: bool,
}

impl View for Document {
    type V = DocumentView;

    open spec fn view(&self) -> DocumentView {
        DocumentView {
            id: self.id,
            workspace_id: self.workspace_id,
            parent_id: self.parent_id,
            title: self.title@,
            sort_key: self.sort_key@,
            icon: crate::notifications::opt_text(self.icon),
            created_by: self.created_by,
            created_at: self.created_at@,
            updated_at: self.updated_at@,
            archived_at: crate::notifications::opt_micros(self.archived_at),
            is_template: self.is_template,
        }
    }
}

impl Clone for Document {
    fn clone(&self) -> (r: Self)
        ensures
            r == *self,
    {
        Document {
            id: self.id,
            workspace_id: self.workspace_id,
            parent_id: self.parent_id,
            title: self.title.clone(),
            sort_key: self.sort_key.clone(),
            icon: match &self.icon {
                Some(icon) => Some(icon.clone()),
                None => None,
            },
            created_by: self.created_by,
            created_at: self.created_at,
            updated_at: self.updated_at,
            archived_at: self.archived_at,
            is_template: self.is_template,
        }
    }
}

/// The views of a sequence of documents.
pub open spec fn docs_view(docs: Seq<Document>) -> Seq<DocumentView> {
    Seq::new(docs.len(), |i: int| docs[i]@)
}

/// Why an operation on documents could not be done.
#[derive(Clone, Copy, Debug, PartialEq, Eq, Structural)]
pub enum DocStoreError {
    /// No such document in the workspace, or none in the state asked for.
    NotFound,
    /// A sibling already has the sort key.
    Conflict,
    /// The move would put a document below itself.
    Cycle,
    /// The store failed.
    Other,
}

/// What was done to a document.
#[derive(Clone, Copy, Debug, PartialEq, Eq, Structural)]
pub enum DocChange {
    Create,
    Rename,
    Move,
    Archive,
    Restore,
    MarkTemplate,
    UnmarkTemplate,
}

/// The name of a change in the audit log.
pub open spec fn audit_name(change: DocChange) -> Seq<char> {
    match change {
        DocChange::Create => "doc.create"@,
        DocChange::Rename => "doc.rename"@,
        DocChange::Move => "doc.move"@,
        DocChange::Archive => "doc.archive"@,
        DocChange::Restore => "doc.restore"@,
        DocChange::MarkTemplate => "doc.template.mark"@,
        DocChange::UnmarkTemplate => "doc.template.unmark"@,
    }
}

/// The reason under which a change drops cached permissions, for the changes
/// that do.
pub open spec fn invalidation_reason(change: DocChange) -> Option<Seq<char>> {
    match change {
        DocChange::Create => Some("create"@),
        DocChange::Move => Some("tree-move"@),
        DocChange::Archive => Some("archive"@),
        DocChange::Restore => Some("restore"@),
        _ => None,
    }
}

impl DocChange {
    /// The name of this change in the audit log.
    pub fn audit_action(&self) -> (r: &'static str)
        ensures
            r@ == audit_name(*self),
    {
        match self {
            DocChange::Create => "doc.create",
            DocChange::Rename => "doc.rename",
            DocChange::Move => "doc.move",
            DocChange::Archive => "doc.archive",
            DocChange::Restore => "doc.restore",
            DocChange::MarkTemplate => "doc.template.mark",
            DocChange::UnmarkTemplate => "doc.template.unmark",
        }
    }

    /// The reason under which this change drops cached permissions, where it
    /// does.
    pub fn invalidation(&self) -> (r: Option<&'static str>)
        ensures
            r is Some <==> invalidation_reason(*self) is Some,
            r is Some ==> Some(r->0@) == invalidation_reason(*self),
    {
        match self {
            DocChange::Create => Some("create"),
            DocChange::Move => Some("tree-move"),
            DocChange::Archive => Some("archive"),
            DocChange::Restore => Some("restore"),
            _ => None,
        }
    }
}

/// An entry of the audit log.
#[derive(Clone, Copy, Debug, PartialEq, Eq, Structural)]
pub struct AuditEntry {
    pub workspace_id: Uuid,
    pub actor: Uuid,
    pub change: DocChange,
    pub doc_id: Uuid,
}

/// The parent links of the documents.
pub open spec fn links(docs: Seq<DocumentView>) -> Seq<TreeLink> {
    Seq::new(docs.len(), |i: int| TreeLink { id: docs[i].id, parent_id: docs[i].parent_id })
}

/// Whether two documents would contend for one place: siblings under one parent
/// with one sort key. Documents at the root never do.
pub open spec fn same_place(a: DocumentView, b: DocumentView) -> bool {
    a.workspace_id == b.workspace_id && a.parent_id is Some && a.parent_id == b.parent_id
        && a.sort_key == b.sort_key
}

/// What holds of every table of documents: no identifier occurs twice, no two
/// documents contend for one place, and no document stands below itself.
pub open spec fn valid_docs(docs: Seq<DocumentView>) -> bool {
    &&& crate::tree::link_ids(links(docs)).no_duplicates()
    &&& forall|i: int, j: int|
        0 <= i < docs.len() && 0 <= j < docs.len() && i != j ==> !same_place(
            #[trigger] docs[i],
            #[trigger] docs[j],
        )
    &&& crate::tree::acyclic(links(docs))
}

/// Whether a document is in the table.
pub open spec fn has_doc(docs: Seq<DocumentView>, id: Uuid) -> bool {
    exists|i: int| 0 <= i < docs.len() && (#[trigger] docs[i]).id == id
}

/// Where a document stands in the table.
pub open spec fn place_of(docs: Seq<DocumentView>, id: Uuid) -> int {
    choose|i: int| 0 <= i < docs.len() && (#[trigger] docs[i]).id == id
}

/// The document with an identifier.
pub open spec fn doc_of(docs: Seq<DocumentView>, id: Uuid) -> DocumentView {
    docs[place_of(docs, id)]
}

/// Whether a document is in the table and in the workspace.
pub open spec fn has_doc_in(docs: Seq<DocumentView>, workspace_id: Uuid, id: Uuid) -> bool {
    has_doc(docs, id) && doc_of(docs, id).workspace_id == workspace_id
}

/// Whether another document than `id` contends for a place.
pub open spec fn place_taken(docs: Seq<DocumentView>, id: Uuid, wanted: DocumentView) -> bool {
    exists|i: int|
        0 <= i < docs.len() && (#[trigger] docs[i]).id != id && same_place(docs[i], wanted)
}

/// Whether an identifier occurs nowhere in the table, as a document or as a
/// parent.
pub open spec fn unused(docs: Seq<DocumentView>, id: Uuid) -> bool {
    forall|i: int|
        0 <= i < docs.len() ==> (#[trigger] docs[i]).id != id && docs[i].parent_id != Some(id)
}

/// The documents and the audit log.
#[derive(Debug)]
pub struct DocTable {
    rows: Vec<Document>,
    log: Vec<AuditEntry>,
}

#[verifier::ext_equal]
pub struct DocTableView {
    pub rows: Seq<DocumentView>,
    pub log: Seq<AuditEntry>,
}

impl View for DocTable {
    type V = DocTableView;

    closed spec fn view(&self) -> DocTableView {
        DocTableView { rows: docs_view(self.rows@), log: self.log@ }
    }
}

/// A new document.
pub open spec fn new_document(
    id: Uuid,
    workspace_id: Uuid,
    parent_id: Option<Uuid>,
    title: Seq<char>,
    sort_key: Seq<char>,
    created_by: Uuid,
    now: i64,
) -> DocumentView {
    DocumentView {
        id,
        workspace_id,
        parent_id,
        title,
        sort_key,
        icon: None,
        created_by,
        created_at: now,
        updated_at: now,
        archived_at: None,
        is_template: false,
    }
}

/// A document under another title. An icon replaces the one it had; without one
/// it keeps its icon.
pub open spec fn renamed(
    d: DocumentView,
    title: Seq<char>,
    icon: Option<Seq<char>>,
    now: i64,
) -> DocumentView {
    DocumentView {
        title,
        icon: match icon {
            Some(i) => Some(i),
            None => d.icon,
        },
        updated_at: now,
        ..d
    }
}

/// A document in another place.
pub open spec fn moved_to(
    d: DocumentView,
    parent_id: Option<Uuid>,
    sort_key: Seq<char>,
    now: i64,
) -> DocumentView {
    DocumentView { parent_id, sort_key, updated_at: now, ..d }
}

/// A document that is, or is no longer, a template.
pub open spec fn templated(d: DocumentView, is_template: bool, now: i64) -> DocumentView {
    DocumentView { is_template, updated_at: now, ..d }
}

/// A document that was archived, or brought back.
pub open spec fn archived(d: DocumentView, at: Option<i64>) -> DocumentView {
    DocumentView { archived_at: at, ..d }
}

/// The table after a change to one document.
pub open spec fn after_change(
    t: DocTableView,
    id: Uuid,
    changed: DocumentView,
    entry: AuditEntry,
) -> DocTableView {
    DocTableView { rows: t.rows.update(place_of(t.rows, id), changed), log: t.log.push(entry) }
}

/// The outcome of moving a document.
pub open spec fn move_refusal(
    docs: Seq<DocumentView>,
    workspace_id: Uuid,
    id: Uuid,
    parent_id: Option<Uuid>,
    sort_key: Seq<char>,
) -> Option<DocStoreError> {
    if parent_id is Some && crate::tree::closes_loop(links(docs), id, parent_id->0) {
        Some(DocStoreError::Cycle)
    } else if !has_doc_in(docs, workspace_id, id) {
        Some(DocStoreError::NotFound)
    } else if place_taken(docs, id, moved_to(doc_of(docs, id), parent_id, sort_key, 0)) {
        Some(DocStoreError::Conflict)
    } else {
        None
    }
}

/// What becomes of the table when a document is added: its log tells who added it.
pub open spec fn create_outcome(
    t: DocTableView,
    id: Uuid,
    workspace_id: Uuid,
    parent_id: Option<Uuid>,
    title: Seq<char>,
    sort_key: Seq<char>,
    created_by: Uuid,
    now: i64,
) -> Result<DocTableView, DocStoreError> {
    let d = new_document(id, workspace_id, parent_id, title, sort_key, created_by, now);
    if place_taken(t.rows, id, d) {
        Err(DocStoreError::Conflict)
    } else {
        Ok(
            DocTableView {
                rows: t.rows.push(d),
                log: t.log.push(
                    AuditEntry {
                        workspace_id,
                        actor: created_by,
                        change: DocChange::Create,
                        doc_id: id,
                    },
                ),
            },
        )
    }
}

/// What becomes of the table when a document is renamed.
pub open spec fn rename_outcome(
    t: DocTableView,
    workspace_id: Uuid,
    doc_id: Uuid,
    actor: Uuid,
    title: Seq<char>,
    icon: Option<Seq<char>>,
    now: i64,
) -> Result<DocTableView, DocStoreError> {
    if has_doc_in(t.rows, workspace_id, doc_id) {
        Ok(
            after_change(
                t,
                doc_id,
                renamed(doc_of(t.rows, doc_id), title, icon, now),
                AuditEntry { workspace_id, actor, change: DocChange::Rename, doc_id },
            ),
        )
    } else {
        Err(DocStoreError::NotFound)
    }
}

/// What becomes of the table when a document is moved.
pub open spec fn move_outcome(
    t: DocTableView,
    workspace_id: Uuid,
    doc_id: Uuid,
    actor: Uuid,
    parent_id: Option<Uuid>,
    sort_key: Seq<char>,
    now: i64,
) -> Result<DocTableView, DocStoreError> {
    match move_refusal(t.rows, workspace_id, doc_id, parent_id, sort_key) {
        Some(e) => Err(e),
        None => Ok(
            after_change(
                t,
                doc_id,
                moved_to(doc_of(t.rows, doc_id), parent_id, sort_key, now),
                AuditEntry { workspace_id, actor, change: DocChange::Move, doc_id },
            ),
        ),
    }
}

/// What becomes of the table when a document is archived.
pub open spec fn archive_outcome(
    t: DocTableView,
    workspace_id: Uuid,
    doc_id: Uuid,
    actor: Uuid,
    now: i64,
) -> Result<DocTableView, DocStoreError> {
    if has_doc_in(t.rows, workspace_id, doc_id) && doc_of(t.rows, doc_id).archived_at is None {
        Ok(
            after_change(
                t,
                doc_id,
                archived(doc_of(t.rows, doc_id), Some(now)),
                AuditEntry { workspace_id, actor, change: DocChange::Archive, doc_id },
            ),
        )
    } else {
        Err(DocStoreError::NotFound)
    }
}

/// What becomes of the table when a document is brought back.
pub open spec fn restore_outcome(
    t: DocTableView,
    workspace_id: Uuid,
    doc_id: Uuid,
    actor: Uuid,
) -> Result<DocTableView, DocStoreError> {
    if has_doc_in(t.rows, workspace_id, doc_id) && doc_of(t.rows, doc_id).archived_at is Some {
        Ok(
            after_change(
                t,
                doc_id,
                archived(doc_of(t.rows, doc_id), None),
                AuditEntry { workspace_id, actor, change: DocChange::Restore, doc_id },
            ),
        )
    } else {
        Err(DocStoreError::NotFound)
    }
}

/// What becomes of the table when a document is made a template, or an ordinary
/// document again.
pub open spec fn template_outcome(
    t: DocTableView,
    workspace_id: Uuid,
    doc_id: Uuid,
    actor: Uuid,
    is_template: bool,
    now: i64,
) -> Result<DocTableView, DocStoreError> {
    if has_doc_in(t.rows, workspace_id, doc_id) {
        Ok(
            after_change(
                t,
                doc_id,
                templated(doc_of(t.rows, doc_id), is_template, now),
                AuditEntry {
                    workspace_id,
                    actor,
                    change: if is_template {
                        DocChange::MarkTemplate
                    } else {
                        DocChange::UnmarkTemplate
                    },
                    doc_id,
                },
            ),
        )
    } else {
        Err(DocStoreError::NotFound)
    }
}

/// Whether an operation came to an outcome: it was done and left that table behind,
/// or it failed with that error and changed nothing.
pub open spec fn came_to<T>(
    r: Result<T, DocStoreError>,
    before: DocTableView,
    after: DocTableView,
    outcome: Result<DocTableView, DocStoreError>,
) -> bool {
    match outcome {
        Ok(t) => r is Ok && after == t,
        Err(e) => r is Err && r->Err_0 == e && after == before,
    }
}

/// Which documents the tree of a workspace shows.
pub open spec fn is_alive(workspace_id: Uuid) -> spec_fn(DocumentView) -> bool {
    |d: DocumentView| d.workspace_id == workspace_id && d.archived_at is None && !d.is_template
}

/// Which documents the gallery of a workspace shows.
pub open spec fn is_listed_template(workspace_id: Uuid) -> spec_fn(DocumentView) -> bool {
    |d: DocumentView| d.workspace_id == workspace_id && d.archived_at is None && d.is_template
}

/// Which documents are children of a parent, archived ones too: they keep their
/// sort keys, so a key that is to be new must be new among all of them.
pub open spec fn is_child(workspace_id: Uuid, parent_id: Option<Uuid>) -> spec_fn(
    DocumentView,
) -> bool {
    |d: DocumentView| d.workspace_id == workspace_id && d.parent_id == parent_id
}

/// The order of the tree: roots first, then by parent, then by sort key.
pub struct ByTree;

/// Where an optional parent stands among all of them.
pub open spec fn parent_rank(parent_id: Option<Uuid>) -> int {
    match parent_id {
        Some(p) => p as int,
        None => -1,
    }
}

impl Order<Document> for ByTree {
    open spec fn at_most(&self, a: DocumentView, b: DocumentView) -> bool {
        if a.parent_id != b.parent_id {
            parent_rank(a.parent_id) < parent_rank(b.parent_id)
        } else {
            crate::order::text_at_most(a.sort_key, b.sort_key)
        }
    }

    proof fn total(&self, a: DocumentView, b: DocumentView) {
        crate::order::lemma_text_total(a.sort_key, b.sort_key);
    }

    proof fn transitive(&self, a: DocumentView, b: DocumentView, c: DocumentView) {
        if a.parent_id == b.parent_id && b.parent_id == c.parent_id {
            crate::order::lemma_text_transitive(a.sort_key, b.sort_key, c.sort_key);
        }
    }

    fn is_at_most(&self, a: &Document, b: &Document) -> (r: bool) {
        match (a.parent_id, b.parent_id) {
            (None, None) => {},
            (None, Some(_)) => {
                return true;
            },
            (Some(_), None) => {
                return false;
            },
            (Some(x), Some(y)) => {
                if x != y {
                    return x < y;
                }
            },
        }
        is_text_at_most(a.sort_key.as_str(), b.sort_key.as_str())
    }
}

/// The order of siblings: by sort key.
pub struct BySortKey;

impl Order<Document> for BySortKey {
    open spec fn at_most(&self, a: DocumentView, b: DocumentView) -> bool {
        crate::order::text_at_most(a.sort_key, b.sort_key)
    }

    proof fn total(&self, a: DocumentView, b: DocumentView) {
        crate::order::lemma_text_total(a.sort_key, b.sort_key);
    }

    proof fn transitive(&self, a: DocumentView, b: DocumentView, c: DocumentView) {
        crate::order::lemma_text_transitive(a.sort_key, b.sort_key, c.sort_key);
    }

    fn is_at_most(&self, a: &Document, b: &Document) -> (r: bool) {
        is_text_at_most(a.sort_key.as_str(), b.sort_key.as_str())
    }
}

/// The order of the gallery: by title.
pub struct ByTitle;

impl Order<Document> for ByTitle {
    open spec fn at_most(&self, a: DocumentView, b: DocumentView) -> bool {
        crate::order::text_at_most(a.title, b.title)
    }

    proof fn total(&self, a: DocumentView, b: DocumentView) {
        crate::order::lemma_text_total(a.title, b.title);
    }

    proof fn transitive(&self, a: DocumentView, b: DocumentView, c: DocumentView) {
        crate::order::lemma_text_transitive(a.title, b.title, c.title);
    }

    fn is_at_most(&self, a: &Document, b: &Document) -> (r: bool) {
        is_text_at_most(a.title.as_str(), b.title.as_str())
    }
}

/// The documents that the tree of a workspace shows, in its order.
pub open spec fn alive_listing(docs: Seq<DocumentView>, workspace_id: Uuid) -> Seq<DocumentView> {
    crate::order::sorted::<Document, ByTree>(&ByTree, docs.filter(is_alive(workspace_id)))
}

/// The documents that the gallery of a workspace shows, in its order.
pub open spec fn template_listing(docs: Seq<DocumentView>, workspace_id: Uuid) -> Seq<
    DocumentView,
> {
    crate::order::sorted::<Document, ByTitle>(
        &ByTitle,
        docs.filter(is_listed_template(workspace_id)),
    )
}

/// The children of a parent, in their order.
pub open spec fn sibling_listing(
    docs: Seq<DocumentView>,
    workspace_id: Uuid,
    parent_id: Option<Uuid>,
) -> Seq<DocumentView> {
    crate::order::sorted::<Document, BySortKey>(
        &BySortKey,
        docs.filter(is_child(workspace_id, parent_id)),
    )
}

/// What a listing selects.
#[derive(Clone, Copy, Debug, PartialEq, Eq, Structural)]
pub enum Selection {
    Alive,
    Templates,
    Children { parent_id: Option<Uuid> },
}

/// Which documents a listing selects.
pub open spec fn selected(workspace_id: Uuid, s: Selection) -> spec_fn(DocumentView) -> bool {
    match s {
        Selection::Alive => is_alive(workspace_id),
        Selection::Templates => is_listed_template(workspace_id),
        Selection::Children { parent_id } => is_child(workspace_id, parent_id),
    }
}

fn same_parent(a: Option<Uuid>, b: Option<Uuid>) -> (r: bool)
    ensures
        r == (a == b),
{
    match (a, b) {
        (Some(x), Some(y)) => x == y,
        (None, None) => true,
        _ => false,
    }
}

fn is_selected(d: &Document, workspace_id: Uuid, s: &Selection) -> (r: bool)
    ensures
        r == selected(workspace_id, *s)(d@),
{
    if d.workspace_id != workspace_id {
        return false;
    }
    match s {
        Selection::Alive => d.archived_at.is_none() && !d.is_template,
        Selection::Templates => d.archived_at.is_none() && d.is_template,
        Selection::Children { parent_id } => same_parent(d.parent_id, *parent_id),
    }
}

impl DocTable {
    /// Whether this table is one that the operations below can have produced.
    pub open spec fn wf(&self) -> bool {
        valid_docs(self@.rows)
    }

    /// A table without documents.
    pub fn new() -> (r: DocTable)
        ensures
            r.wf(),
            r@.rows.len() == 0,
            r@.log.len() == 0,
    {
        let r = DocTable { rows: Vec::new(), log: Vec::new() };
        proof {
            let l = links(r@.rows);
            assert forall|id: Uuid| !crate::tree::is_below(l, id, id) by {
                if crate::tree::is_below(l, id, id) {
                    let n = choose|n: nat| n > 0 && #[trigger] crate::tree::climb(l, id, n) == Some(id);
                    assert(crate::tree::climb(l, id, 0) == Some(id));
                    lemma_empty_climb(l, id, n);
                }
            }
        }
        r
    }

    fn position(&self, id: Uuid) -> (r: Option<usize>)
        requires
            self.wf(),
        ensures
            r is Some <==> has_doc(self@.rows, id),
            r is Some ==> r->0 < self@.rows.len() && r->0 == place_of(self@.rows, id)
                && self@.rows[r->0 as int].id == id,
    {
        let mut i: usize = 0;
        while i < self.rows.len()
            invariant
                i <= self.rows@.len(),
                self@.rows == docs_view(self.rows@),
                self.wf(),
                forall|k: int| 0 <= k < i ==> (#[trigger] self@.rows[k]).id != id,
            decreases self.rows@.len() - i,
        {
            assert(self@.rows[i as int] == self.rows@[i as int]@);
            if self.rows[i].id == id {
                proof {
                    lemma_place(self@.rows, i as int);
                }
                return Some(i);
            }
            i += 1;
        }
        None
    }

    fn tree_links(&self) -> (r: Vec<TreeLink>)
        ensures
            r@ == links(self@.rows),
    {
        let mut out: Vec<TreeLink> = Vec::new();
        let mut i: usize = 0;
        while i < self.rows.len()
            invariant
                i <= self.rows@.len(),
                self@.rows == docs_view(self.rows@),
                out@ == links(self@.rows).take(i as int),
            decreases self.rows@.len() - i,
        {
            assert(self@.rows[i as int] == self.rows@[i as int]@);
            out.push(TreeLink { id: self.rows[i].id, parent_id: self.rows[i].parent_id });
            assert(out@ =~= links(self@.rows).take(i + 1));
            i += 1;
        }
        assert(links(self@.rows).take(i as int) =~= links(self@.rows));
        out
    }

    fn is_place_taken(
        &self,
        id: Uuid,
        workspace_id: Uuid,
        parent_id: Option<Uuid>,
        sort_key: &str,
        wanted: Ghost<DocumentView>,
    ) -> (r: bool)
        requires
            wanted@.workspace_id == workspace_id,
            wanted@.parent_id == parent_id,
            wanted@.sort_key == sort_key@,
        ensures
            r == place_taken(self@.rows, id, wanted@),
    {
        if parent_id.is_none() {
            return false;
        }
        let mut i: usize = 0;
        while i < self.rows.len()
            invariant
                i <= self.rows@.len(),
                self@.rows == docs_view(self.rows@),
                parent_id is Some,
                wanted@.workspace_id == workspace_id,
                wanted@.parent_id == parent_id,
                wanted@.sort_key == sort_key@,
                forall|k: int|
                    0 <= k < i ==> !((#[trigger] self@.rows[k]).id != id && same_place(
                        self@.rows[k],
                        wanted@,
                    )),
            decreases self.rows@.len() - i,
        {
            let d = &self.rows[i];
            assert(self@.rows[i as int] == d@);
            if d.id != id && d.workspace_id == workspace_id && same_parent(d.parent_id, parent_id)
                && same_text(d.sort_key.as_str(), sort_key) {
                return true;
            }
            i += 1;
        }
        false
    }

    fn replace(&mut self, at: usize, changed: Document, entry: AuditEntry)
        requires
            old(self).wf(),
            at < old(self)@.rows.len(),
            changed.id == old(self)@.rows[at as int].id,
            valid_docs(old(self)@.rows.update(at as int, changed@)),
        ensures
            final(self).wf(),
            final(self)@ == after_change(
                old(self)@,
                changed.id,
                changed@,
                entry,
            ),
    {
        let ghost before = self@;
        proof {
            lemma_place(before.rows, at as int);
        }
        let ghost cv = changed@;
        self.rows.set(at, changed);
        self.log.push(entry);
        assert(self@.rows =~= before.rows.update(at as int, cv));
    }

    /// Whether an identifier occurs nowhere in the table.
    pub fn is_unused(&self, id: Uuid) -> (r: bool)
        ensures
            r == unused(self@.rows, id),
    {
        let mut i: usize = 0;
        while i < self.rows.len()
            invariant
                i <= self.rows@.len(),
                self@.rows == docs_view(self.rows@),
                forall|k: int|
                    0 <= k < i ==> (#[trigger] self@.rows[k]).id != id && self@.rows[k].parent_id
                        != Some(id),
            decreases self.rows@.len() - i,
        {
            assert(self@.rows[i as int] == self.rows@[i as int]@);
            if self.rows[i].id == id || same_parent(self.rows[i].parent_id, Some(id)) {
                return false;
            }
            i += 1;
        }
        true
    }

    /// The document with an identifier.
    pub fn get(&self, id: Uuid) -> (r: Option<Document>)
        requires
            self.wf(),
        ensures
            r is Some <==> has_doc(self@.rows, id),
            r is Some ==> r->0@ == doc_of(self@.rows, id),
    {
        match self.position(id) {
            Some(i) => {
                assert(self@.rows[i as int] == self.rows@[i as int]@);
                Some(self.rows[i].clone())
            },
            None => None,
        }
    }

    /// The audit log.
    pub fn log(&self) -> (r: &Vec<AuditEntry>)
        ensures
            r@ == self@.log,
    {
        &self.log
    }

    /// Adds a document under an identifier that occurs nowhere yet.
    pub fn create(
        &mut self,
        id: Uuid,
        workspace_id: Uuid,
        parent_id: Option<Uuid>,
        title: &str,
        sort_key: &str,
        created_by: Uuid,
        now: Timestamp,
    ) -> (r: Result<Document, DocStoreError>)
        requires
            old(self).wf(),
            unused(old(self)@.rows, id),
            parent_id != Some(id),
        ensures
            final(self).wf(),
            ({
                let d = new_document(
                    id,
                    workspace_id,
                    parent_id,
                    title@,
                    sort_key@,
                    created_by,
                    now@,
                );
                let entry = AuditEntry {
                    workspace_id,
                    actor: created_by,
                    change: DocChange::Create,
                    doc_id: id,
                };
                if place_taken(old(self)@.rows, id, d) {
                    r == Err::<Document, _>(DocStoreError::Conflict) && final(self)@ == old(self)@
                } else {
                    r is Ok && r->Ok_0@ == d && final(self)@ == (DocTableView {
                        rows: old(self)@.rows.push(d),
                        log: old(self)@.log.push(entry),
                    })
                }
            }),            came_to(
                r,
                old(self)@,
                final(self)@,
                create_outcome(
                    old(self)@,
                    id,
                    workspace_id,
                    parent_id,
                    title@,
                    sort_key@,
                    created_by,
                    now@,
                ),
            ),
            r is Ok ==> r->Ok_0.id == id && r->Ok_0.workspace_id == workspace_id
                && r->Ok_0.parent_id == parent_id && r->Ok_0.title@ == title@
                && r->Ok_0.sort_key@ == sort_key@ && r->Ok_0.created_by == created_by,
    {
        let ghost before = self@;
        let ghost wanted = new_document(
            id,
            workspace_id,
            parent_id,
            title@,
            sort_key@,
            created_by,
            now@,
        );
        if self.is_place_taken(id, workspace_id, parent_id, sort_key, Ghost(wanted)) {
            return Err(DocStoreError::Conflict);
        }
        let d = Document {
            id,
            workspace_id,
            parent_id,
            title: title.to_owned(),
            sort_key: sort_key.to_owned(),
            icon: None,
            created_by,
            created_at: now,
            updated_at: now,
            archived_at: None,
            is_template: false,
        };
        assert(d@ =~= wanted);
        self.rows.push(d.clone());
        self.log.push(
            AuditEntry { workspace_id, actor: created_by, change: DocChange::Create, doc_id: id },
        );
        proof {
            assert(self@.rows =~= before.rows.push(wanted));
            lemma_push_valid(before.rows, wanted);
        }
        Ok(d)
    }

    /// Gives a document another title, and another icon where one is given.
    pub fn rename(
        &mut self,
        workspace_id: Uuid,
        doc_id: Uuid,
        actor: Uuid,
        title: &str,
        icon: Option<&str>,
        now: Timestamp,
    ) -> (r: Result<Document, DocStoreError>)
        requires
            old(self).wf(),
        ensures
            final(self).wf(),
            ({
                let d = renamed(
                    doc_of(old(self)@.rows, doc_id),
                    title@,
                    match icon {
                        Some(i) => Some(i@),
                        None => None,
                    },
                    now@,
                );
                let entry = AuditEntry { workspace_id, actor, change: DocChange::Rename, doc_id };
                if has_doc_in(old(self)@.rows, workspace_id, doc_id) {
                    r is Ok && r->Ok_0@ == d && final(self)@ == after_change(
                        old(self)@,
                        doc_id,
                        d,
                        entry,
                    )
                } else {
                    r == Err::<Document, _>(DocStoreError::NotFound) && final(self)@ == old(self)@
                }
            }),
            came_to(
                r,
                old(self)@,
                final(self)@,
                rename_outcome(
                    old(self)@,
                    workspace_id,
                    doc_id,
                    actor,
                    title@,
                    match icon {
                        Some(i) => Some(i@),
                        None => None,
                    },
                    now@,
                ),
            ),
            r is Ok ==> r->Ok_0.id == doc_id && r->Ok_0.title@ == title@ && (icon is Some
                ==> r->Ok_0.icon is Some && r->Ok_0.icon->0@ == icon->0@),
    {
        let at: usize = match self.position(doc_id) {
            Some(i) => i,
            None => return Err(DocStoreError::NotFound),
        };
        assert(self@.rows[at as int] == self.rows@[at as int]@);
        if self.rows[at].workspace_id != workspace_id {
            return Err(DocStoreError::NotFound);
        }
        let mut d = self.rows[at].clone();
        d.title = title.to_owned();
        if let Some(i) = icon {
            d.icon = Some(i.to_owned());
        }
        d.updated_at = now;
        proof {
            lemma_same_links_valid(self@.rows, at as int, d@);
        }
        self.replace(
            at,
            d.clone(),
            AuditEntry { workspace_id, actor, change: DocChange::Rename, doc_id },
        );
        Ok(d)
    }

    /// Puts a document under another parent, or at the root, with another sort
    /// key. A move below the document itself is refused.
    pub fn move_to(
        &mut self,
        workspace_id: Uuid,
        doc_id: Uuid,
        actor: Uuid,
        parent_id: Option<Uuid>,
        sort_key: &str,
        now: Timestamp,
    ) -> (r: Result<Document, DocStoreError>)
        requires
            old(self).wf(),
        ensures
            final(self).wf(),
            match move_refusal(old(self)@.rows, workspace_id, doc_id, parent_id, sort_key@) {
                Some(e) => r == Err::<Document, _>(e) && final(self)@ == old(self)@,
                None => r is Ok && r->Ok_0@ == moved_to(
                    doc_of(old(self)@.rows, doc_id),
                    parent_id,
                    sort_key@,
                    now@,
                ) && final(self)@ == after_change(
                    old(self)@,
                    doc_id,
                    r->Ok_0@,
                    AuditEntry { workspace_id, actor, change: DocChange::Move, doc_id },
                ),
            },
            came_to(
                r,
                old(self)@,
                final(self)@,
                move_outcome(
                    old(self)@,
                    workspace_id,
                    doc_id,
                    actor,
                    parent_id,
                    sort_key@,
                    now@,
                ),
            ),
            r is Ok ==> r->Ok_0.id == doc_id && r->Ok_0.parent_id == parent_id
                && r->Ok_0.sort_key@ == sort_key@,
    {
        let ghost before = self@;
        if let Some(p) = parent_id {
            let tree = self.tree_links();
            if creates_cycle(&tree, doc_id, p) {
                return Err(DocStoreError::Cycle);
            }
        }
        let at: usize = match self.position(doc_id) {
            Some(i) => i,
            None => return Err(DocStoreError::NotFound),
        };
        assert(self@.rows[at as int] == self.rows@[at as int]@);
        if self.rows[at].workspace_id != workspace_id {
            return Err(DocStoreError::NotFound);
        }
        let ghost wanted = moved_to(doc_of(before.rows, doc_id), parent_id, sort_key@, 0);
        if self.is_place_taken(doc_id, workspace_id, parent_id, sort_key, Ghost(wanted)) {
            return Err(DocStoreError::Conflict);
        }
        let mut d = self.rows[at].clone();
        d.parent_id = parent_id;
        d.sort_key = sort_key.to_owned();
        d.updated_at = now;
        proof {
            lemma_move_valid(before.rows, at as int, d@);
        }
        self.replace(
            at,
            d.clone(),
            AuditEntry { workspace_id, actor, change: DocChange::Move, doc_id },
        );
        Ok(d)
    }

    fn set_archived(
        &mut self,
        workspace_id: Uuid,
        doc_id: Uuid,
        actor: Uuid,
        at_time: Option<Timestamp>,
        change: DocChange,
    ) -> (r: Result<(), DocStoreError>)
        requires
            old(self).wf(),
        ensures
            final(self).wf(),
            ({
                let d = doc_of(old(self)@.rows, doc_id);
                let entry = AuditEntry { workspace_id, actor, change, doc_id };
                if has_doc_in(old(self)@.rows, workspace_id, doc_id) && (d.archived_at is None)
                    == (at_time is Some) {
                    r is Ok && final(self)@ == after_change(
                        old(self)@,
                        doc_id,
                        archived(d, crate::notifications::opt_micros(at_time)),
                        entry,
                    )
                } else {
                    r == Err::<(), _>(DocStoreError::NotFound) && final(self)@ == old(self)@
                }
            }),
    {
        let at: usize = match self.position(doc_id) {
            Some(i) => i,
            None => return Err(DocStoreError::NotFound),
        };
        assert(self@.rows[at as int] == self.rows@[at as int]@);
        if self.rows[at].workspace_id != workspace_id || self.rows[at].archived_at.is_none()
            != at_time.is_some() {
            return Err(DocStoreError::NotFound);
        }
        let mut d = self.rows[at].clone();
        d.archived_at = at_time;
        proof {
            lemma_same_links_valid(self@.rows, at as int, d@);
        }
        self.replace(at, d, AuditEntry { workspace_id, actor, change, doc_id });
        Ok(())
    }

    /// Archives a document that is not archived.
    pub fn archive(
        &mut self,
        workspace_id: Uuid,
        doc_id: Uuid,
        actor: Uuid,
        now: Timestamp,
    ) -> (r: Result<(), DocStoreError>)
        requires
            old(self).wf(),
        ensures
            final(self).wf(),
            ({
                let d = doc_of(old(self)@.rows, doc_id);
                let entry = AuditEntry { workspace_id, actor, change: DocChange::Archive, doc_id };
                if has_doc_in(old(self)@.rows, workspace_id, doc_id) && d.archived_at is None {
                    r is Ok && final(self)@ == after_change(
                        old(self)@,
                        doc_id,
                        archived(d, Some(now@)),
                        entry,
                    )
                } else {
                    r == Err::<(), _>(DocStoreError::NotFound) && final(self)@ == old(self)@
                }
            }),
            came_to(
                r,
                old(self)@,
                final(self)@,
                archive_outcome(old(self)@, workspace_id, doc_id, actor, now@),
            ),
    {
        self.set_archived(workspace_id, doc_id, actor, Some(now), DocChange::Archive)
    }

    /// Brings back a document that is archived.
    pub fn restore(&mut self, workspace_id: Uuid, doc_id: Uuid, actor: Uuid) -> (r: Result<
        (),
        DocStoreError,
    >)
        requires
            old(self).wf(),
        ensures
            final(self).wf(),
            ({
                let d = doc_of(old(self)@.rows, doc_id);
                let entry = AuditEntry { workspace_id, actor, change: DocChange::Restore, doc_id };
                if has_doc_in(old(self)@.rows, workspace_id, doc_id) && d.archived_at is Some {
                    r is Ok && final(self)@ == after_change(
                        old(self)@,
                        doc_id,
                        archived(d, None),
                        entry,
                    )
                } else {
                    r == Err::<(), _>(DocStoreError::NotFound) && final(self)@ == old(self)@
                }
            }),
            came_to(
                r,
                old(self)@,
                final(self)@,
                restore_outcome(old(self)@, workspace_id, doc_id, actor),
            ),
    {
        self.set_archived(workspace_id, doc_id, actor, None, DocChange::Restore)
    }

    /// Makes a document a template, or an ordinary document again.
    pub fn set_template(
        &mut self,
        workspace_id: Uuid,
        doc_id: Uuid,
        actor: Uuid,
        is_template: bool,
        now: Timestamp,
    ) -> (r: Result<Document, DocStoreError>)
        requires
            old(self).wf(),
        ensures
            final(self).wf(),
            ({
                let d = templated(doc_of(old(self)@.rows, doc_id), is_template, now@);
                let entry = AuditEntry {
                    workspace_id,
                    actor,
                    change: if is_template {
                        DocChange::MarkTemplate
                    } else {
                        DocChange::UnmarkTemplate
                    },
                    doc_id,
                };
                if has_doc_in(old(self)@.rows, workspace_id, doc_id) {
                    r is Ok && r->Ok_0@ == d && final(self)@ == after_change(
                        old(self)@,
                        doc_id,
                        d,
                        entry,
                    )
                } else {
                    r == Err::<Document, _>(DocStoreError::NotFound) && final(self)@ == old(self)@
                }
            }),
            came_to(
                r,
                old(self)@,
                final(self)@,
                template_outcome(old(self)@, workspace_id, doc_id, actor, is_template, now@),
            ),
            r is Ok ==> r->Ok_0.id == doc_id && r->Ok_0.is_template == is_template,
    {
        let at: usize = match self.position(doc_id) {
            Some(i) => i,
            None => return Err(DocStoreError::NotFound),
        };
        assert(self@.rows[at as int] == self.rows@[at as int]@);
        if self.rows[at].workspace_id != workspace_id {
            return Err(DocStoreError::NotFound);
        }
        let mut d = self.rows[at].clone();
        d.is_template = is_template;
        d.updated_at = now;
        proof {
            lemma_same_links_valid(self@.rows, at as int, d@);
        }
        let change = if is_template {
            DocChange::MarkTemplate
        } else {
            DocChange::UnmarkTemplate
        };
        self.replace(at, d.clone(), AuditEntry { workspace_id, actor, change, doc_id });
        Ok(d)
    }

    fn select<O: Order<Document>>(&self, order: &O, workspace_id: Uuid, s: Selection) -> (r: Vec<
        Document,
    >)
        ensures
            docs_view(r@) == crate::order::sorted::<Document, O>(
                order,
                self@.rows.filter(selected(workspace_id, s)),
            ),
    {
        let ghost rows = self@.rows;
        let ghost p = selected(workspace_id, s);
        let mut out: Vec<Document> = Vec::new();
        let mut i: usize = 0;
        proof {
            reveal(Seq::filter);
            assert(rows.take(0) =~= Seq::<DocumentView>::empty());
            assert(docs_view(out@) =~= crate::order::sorted::<Document, O>(
                order,
                rows.take(0).filter(p),
            ));
        }
        while i < self.rows.len()
            invariant
                i <= self.rows@.len(),
                rows == docs_view(self.rows@),
                p == selected(workspace_id, s),
                docs_view(out@) == crate::order::sorted::<Document, O>(
                    order,
                    rows.take(i as int).filter(p),
                ),
            decreases self.rows@.len() - i,
        {
            let d = &self.rows[i];
            assert(rows[i as int] == d@);
            proof {
                crate::seqs::lemma_filter_step(rows, i as int, p);
            }
            if is_selected(d, workspace_id, &s) {
                let ghost before = out@;
                insert_in_order(order, &mut out, d.clone());
                proof {
                    let front = rows.take(i as int).filter(p);
                    assert(crate::order::views(before) =~= docs_view(before));
                    assert(crate::order::views(out@) =~= docs_view(out@));
                    assert(front.push(d@).drop_last() =~= front);
                }
            }
            i += 1;
        }
        assert(rows.take(i as int) =~= rows);
        out
    }

    /// The documents of a workspace's tree.
    pub fn list_alive(&self, workspace_id: Uuid) -> (r: Vec<Document>)
        ensures
            docs_view(r@) == alive_listing(self@.rows, workspace_id),
            crate::order::in_order::<Document, ByTree>(&ByTree, docs_view(r@)),
            docs_view(r@).to_multiset() == self@.rows.filter(is_alive(workspace_id)).to_multiset(),
    {
        proof {
            crate::order::lemma_sorted::<Document, ByTree>(&ByTree, self@.rows.filter(is_alive(workspace_id)));
        }
        self.select(&ByTree, workspace_id, Selection::Alive)
    }

    /// The templates of a workspace.
    pub fn list_templates(&self, workspace_id: Uuid) -> (r: Vec<Document>)
        ensures
            docs_view(r@) == template_listing(self@.rows, workspace_id),
            crate::order::in_order::<Document, ByTitle>(&ByTitle, docs_view(r@)),
            docs_view(r@).to_multiset() == self@.rows.filter(is_listed_template(workspace_id)).to_multiset(),
    {
        proof {
            crate::order::lemma_sorted::<Document, ByTitle>(&ByTitle, self@.rows.filter(is_listed_template(workspace_id)));
        }
        self.select(&ByTitle, workspace_id, Selection::Templates)
    }

    /// The children of a parent, or of the root, archived ones included.
    pub fn siblings(&self, workspace_id: Uuid, parent_id: Option<Uuid>) -> (r: Vec<Document>)
        ensures
            docs_view(r@) == sibling_listing(self@.rows, workspace_id, parent_id),
            crate::order::in_order::<Document, BySortKey>(&BySortKey, docs_view(r@)),
            docs_view(r@).to_multiset() == self@.rows.filter(is_child(workspace_id, parent_id)).to_multiset(),
    {
        proof {
            crate::order::lemma_sorted::<Document, BySortKey>(&BySortKey, self@.rows.filter(is_child(workspace_id, parent_id)));
        }
        self.select(&BySortKey, workspace_id, Selection::Children { parent_id })
    }

    /// The documents below another one, without itself.
    pub fn descendant_ids(&self, doc_id: Uuid) -> (r: Vec<Uuid>)
        ensures
            r@ == crate::tree::link_ids(
                links(self@.rows).filter(crate::tree::below(links(self@.rows), doc_id)),
            ),
    {
        let tree = self.tree_links();
        descendant_ids(&tree, doc_id)
    }
}

proof fn lemma_empty_climb(l: Seq<TreeLink>, id: Uuid, n: nat)
    requires
        l.len() == 0,
        n > 0,
    ensures
        crate::tree::climb(l, id, n) is None,
    decreases n,
{
    if n > 1 {
        lemma_empty_climb(l, id, (n - 1) as nat);
    }
}

/// Where a document stands is the only place with its identifier.
pub proof fn lemma_place(docs: Seq<DocumentView>, i: int)
    requires
        valid_docs(docs),
        0 <= i < docs.len(),
    ensures
        place_of(docs, docs[i].id) == i,
        has_doc(docs, docs[i].id),
{
    let id = docs[i].id;
    assert(has_doc(docs, id));
    let k = place_of(docs, id);
    let ids = crate::tree::link_ids(links(docs));
    assert(ids[i] == id);
    assert(ids[k] == docs[k].id);
}

/// A change that moves nothing keeps a table valid.
proof fn lemma_same_links_valid(docs: Seq<DocumentView>, at: int, changed: DocumentView)
    requires
        valid_docs(docs),
        0 <= at < docs.len(),
        changed.id == docs[at].id,
        changed.workspace_id == docs[at].workspace_id,
        changed.parent_id == docs[at].parent_id,
        changed.sort_key == docs[at].sort_key,
    ensures
        valid_docs(docs.update(at, changed)),
{
    let after = docs.update(at, changed);
    assert(links(after) =~= links(docs));
    assert forall|i: int, j: int|
        0 <= i < after.len() && 0 <= j < after.len() && i != j implies !same_place(
        #[trigger] after[i],
        #[trigger] after[j],
    ) by {
        assert(!same_place(docs[i], docs[j]));
    }
}

/// A move that is not refused keeps a table valid.
proof fn lemma_move_valid(docs: Seq<DocumentView>, at: int, changed: DocumentView)
    requires
        valid_docs(docs),
        0 <= at < docs.len(),
        changed.id == docs[at].id,
        changed.workspace_id == docs[at].workspace_id,
        changed.parent_id is Some ==> !crate::tree::closes_loop(
            links(docs),
            changed.id,
            changed.parent_id->0,
        ),
        !place_taken(docs, changed.id, changed),
    ensures
        valid_docs(docs.update(at, changed)),
{
    let after = docs.update(at, changed);
    let l = links(docs);
    assert(links(after) =~= crate::tree::moved(l, at, changed.parent_id));
    assert(crate::tree::link_ids(links(after)) =~= crate::tree::link_ids(l));
    crate::tree::law_moves_keep_the_tree_acyclic(l, at, changed.parent_id);
    assert forall|i: int, j: int|
        0 <= i < after.len() && 0 <= j < after.len() && i != j implies !same_place(
        #[trigger] after[i],
        #[trigger] after[j],
    ) by {
        let ids = crate::tree::link_ids(l);
        assert(ids[i] != ids[j]);
        if i != at && j != at {
            assert(!same_place(docs[i], docs[j]));
        } else if i == at {
            assert(docs[j].id != changed.id);
            if same_place(after[i], after[j]) {
                assert(same_place(docs[j], changed));
            }
        } else {
            assert(docs[i].id != changed.id);
        }
    }
}

/// A new document in a free place keeps a table valid.
proof fn lemma_push_valid(docs: Seq<DocumentView>, d: DocumentView)
    requires
        valid_docs(docs),
        unused(docs, d.id),
        d.parent_id != Some(d.id),
        !place_taken(docs, d.id, d),
    ensures
        valid_docs(docs.push(d)),
{
    let after = docs.push(d);
    let l = links(docs);
    let link = TreeLink { id: d.id, parent_id: d.parent_id };
    assert(links(after) =~= l.push(link));
    assert forall|i: int| 0 <= i < l.len() implies (#[trigger] l[i]).parent_id != Some(link.id)
        && l[i].id != link.id by {
        assert(docs[i].id != d.id);
    }
    if crate::tree::in_tree(l, link.id) {
        let i = choose|i: int| 0 <= i < l.len() && (#[trigger] l[i]).id == link.id;
        assert(docs[i].id != d.id);
    }
    crate::tree::law_new_documents_keep_the_tree_acyclic(l, link);
    let ids = crate::tree::link_ids(links(after));
    assert forall|i: int, j: int| 0 <= i < ids.len() && 0 <= j < ids.len() && i != j implies ids[i]
        != ids[j] by {
        let old_ids = crate::tree::link_ids(l);
        if i < docs.len() && j < docs.len() {
            assert(old_ids[i] != old_ids[j]);
        } else if i < docs.len() {
            assert(docs[i].id != d.id);
        } else {
            assert(docs[j].id != d.id);
        }
    }
    assert forall|i: int, j: int|
        0 <= i < after.len() && 0 <= j < after.len() && i != j implies !same_place(
        #[trigger] after[i],
        #[trigger] after[j],
    ) by {
        if i < docs.len() && j < docs.len() {
            assert(!same_place(docs[i], docs[j]));
        } else if i < docs.len() {
            assert(docs[i].id != d.id);
        } else {
            assert(docs[j].id != d.id);
            if same_place(after[i], after[j]) {
                assert(same_place(docs[j], d));
            }
        }
    }
}

/// Archiving hides a document and restoring undoes it: the tree of the workspace
/// does not show the archived document, and once it is brought back the table
/// holds what it held and the tree is listed as it was, field by field and in
/// the same order. In between only a restore finds the document in the state it
/// asks for, before and after only an archive does.
pub proof fn law_restore_undoes_archive(
    t: DocTableView,
    workspace_id: Uuid,
    id: Uuid,
    now: i64,
    hidden: AuditEntry,
    shown: AuditEntry,
)
    requires
        valid_docs(t.rows),
        has_doc_in(t.rows, workspace_id, id),
        doc_of(t.rows, id).archived_at is None,
    ensures
        ({
            let a = after_change(t, id, archived(doc_of(t.rows, id), Some(now)), hidden);
            let b = after_change(a, id, archived(doc_of(a.rows, id), None), shown);
            &&& has_doc_in(a.rows, workspace_id, id)
            &&& doc_of(a.rows, id).archived_at is Some
            &&& forall|k: int|
                0 <= k < alive_listing(a.rows, workspace_id).len() ==> (#[trigger] alive_listing(
                    a.rows,
                    workspace_id,
                )[k]).id != id
            &&& b.rows == t.rows
            &&& alive_listing(b.rows, workspace_id) == alive_listing(t.rows, workspace_id)
        }),
{
    let at = place_of(t.rows, id);
    let d = doc_of(t.rows, id);
    let a = after_change(t, id, archived(d, Some(now)), hidden);
    let b = after_change(a, id, archived(doc_of(a.rows, id), None), shown);
    lemma_same_links_valid(t.rows, at, archived(d, Some(now)));
    assert(a.rows[at].id == id);
    lemma_place(a.rows, at);
    assert(b.rows =~= t.rows);
    let p = is_alive(workspace_id);
    let kept = a.rows.filter(p);
    let listing = alive_listing(a.rows, workspace_id);
    crate::order::lemma_sorted::<Document, ByTree>(&ByTree, kept);
    assert forall|k: int| 0 <= k < listing.len() implies (#[trigger] listing[k]).id != id by {
        let x = listing[k];
        listing.to_multiset_ensures();
        kept.to_multiset_ensures();
        assert(listing.contains(x));
        assert(listing.to_multiset().count(x) > 0);
        assert(kept.contains(x));
        crate::seqs::lemma_filter_contains(a.rows, p, x);
        let i = choose|i: int| 0 <= i < a.rows.len() && a.rows[i] == x;
        if x.id == id {
            lemma_place(a.rows, i);
            assert(i == at);
        }
    }
}

/// Every document of a workspace is in its tree, in its gallery or archived, and
/// in one of these only; it counts among its siblings in any case.
pub proof fn law_listings_part_the_documents(d: DocumentView)
    ensures
        d.archived_at is Some <==> !is_alive(d.workspace_id)(d) && !is_listed_template(
            d.workspace_id,
        )(d),
        !(is_alive(d.workspace_id)(d) && is_listed_template(d.workspace_id)(d)),
        is_child(d.workspace_id, d.parent_id)(d),
{
}

/// A change to one document loses none and leaves the others as they were.
pub proof fn law_changes_lose_no_document(
    t: DocTableView,
    id: Uuid,
    changed: DocumentView,
    entry: AuditEntry,
    other: Uuid,
)
    requires
        valid_docs(t.rows),
        has_doc(t.rows, id),
        changed.id == id,
        other != id,
    ensures
        ({
            let after = after_change(t, id, changed, entry).rows;
            &&& after.len() == t.rows.len()
            &&& has_doc(after, id)
            &&& has_doc(after, other) <==> has_doc(t.rows, other)
            &&& forall|i: int|
                0 <= i < after.len() && (#[trigger] after[i]).id != id ==> after[i] == t.rows[i]
        }),
{
    let at = place_of(t.rows, id);
    let after = after_change(t, id, changed, entry).rows;
    assert(after[at].id == id);
    if has_doc(t.rows, other) {
        let i = choose|i: int| 0 <= i < t.rows.len() && (#[trigger] t.rows[i]).id == other;
        assert(after[i].id == other);
    }
    if has_doc(after, other) {
        let i = choose|i: int| 0 <= i < after.len() && (#[trigger] after[i]).id == other;
        assert(t.rows[i].id == other);
    }
}

/// A document cannot be moved to itself, nor below one of its descendants.
pub proof fn law_no_document_moves_below_itself(
    docs: Seq<DocumentView>,
    workspace_id: Uuid,
    id: Uuid,
    parent_id: Uuid,
    sort_key: Seq<char>,
)
    requires
        has_doc(docs, id),
        parent_id == id || crate::tree::is_below(links(docs), parent_id, id),
    ensures
        move_refusal(docs, workspace_id, id, Some(parent_id), sort_key) == Some(
            DocStoreError::Cycle,
        ),
{
    let l = links(docs);
    let i = choose|i: int| 0 <= i < docs.len() && (#[trigger] docs[i]).id == id;
    assert(l[i].id == id);
    if parent_id == id {
        assert(crate::tree::climb(l, parent_id, 0) == Some(id));
    } else {
        let n = choose|n: nat|
            n > 0 && #[trigger] crate::tree::climb(l, parent_id, n) == Some(id);
        assert(crate::tree::climb(l, parent_id, n) == Some(id));
    }
}

/// After a change to one document the table holds the changed document under its
/// identifier, and one entry more in the log.
proof fn lemma_changed(t: DocTableView, id: Uuid, changed: DocumentView, entry: AuditEntry)
    requires
        valid_docs(t.rows),
        has_doc(t.rows, id),
        changed.id == id,
    ensures
        has_doc(after_change(t, id, changed, entry).rows, id),
        doc_of(after_change(t, id, changed, entry).rows, id) == changed,
        after_change(t, id, changed, entry).log == t.log.push(entry),
{
    let after = after_change(t, id, changed, entry).rows;
    let p = place_of(t.rows, id);
    assert(after[p].id == id);
    let q = place_of(after, id);
    assert(t.rows[q].id == id);
    lemma_place(t.rows, q);
}

/// A document is in a workspace's table exactly where a row with its identifier
/// and workspace is, and it is that row.
pub proof fn law_a_document_is_its_row(docs: Seq<DocumentView>, workspace_id: Uuid, id: Uuid)
    requires
        valid_docs(docs),
    ensures
        has_doc(docs, id) <==> exists|i: int| 0 <= i < docs.len() && (#[trigger] docs[i]).id == id,
        has_doc_in(docs, workspace_id, id) <==> exists|i: int|
            0 <= i < docs.len() && (#[trigger] docs[i]).id == id && docs[i].workspace_id
                == workspace_id,
        forall|i: int|
            0 <= i < docs.len() && (#[trigger] docs[i]).id == id ==> doc_of(docs, id) == docs[i],
{
    assert forall|i: int| 0 <= i < docs.len() && (#[trigger] docs[i]).id == id implies doc_of(
        docs,
        id,
    ) == docs[i] by {
        lemma_place(docs, i);
    }
    if has_doc(docs, id) {
        let p = place_of(docs, id);
        assert(docs[p].id == id);
    }
}

/// A move that is not refused puts the document where it was asked for: its parent
/// and its sort key are those of the request, at the root as below a parent. It
/// was updated now, and nothing else about it changes. No other document does
/// either, and the move is logged.
pub proof fn law_a_move_puts_the_document_where_asked(
    t: DocTableView,
    workspace_id: Uuid,
    id: Uuid,
    parent_id: Option<Uuid>,
    sort_key: Seq<char>,
    now: i64,
    entry: AuditEntry,
)
    requires
        valid_docs(t.rows),
        move_refusal(t.rows, workspace_id, id, parent_id, sort_key) is None,
    ensures
        ({
            let was = doc_of(t.rows, id);
            let after = after_change(t, id, moved_to(was, parent_id, sort_key, now), entry);
            let is = doc_of(after.rows, id);
            &&& has_doc(after.rows, id)
            &&& is.parent_id == parent_id
            &&& is.sort_key == sort_key
            &&& is.updated_at == now
            &&& is.id == id
            &&& is.workspace_id == workspace_id && was.workspace_id == workspace_id
            &&& is.title == was.title
            &&& is.icon == was.icon
            &&& is.created_by == was.created_by
            &&& is.created_at == was.created_at
            &&& is.archived_at == was.archived_at
            &&& is.is_template == was.is_template
            &&& after.rows.len() == t.rows.len()
            &&& forall|i: int|
                0 <= i < after.rows.len() && (#[trigger] after.rows[i]).id != id ==> after.rows[i]
                    == t.rows[i]
            &&& after.log == t.log.push(entry)
        }),
{
    let was = doc_of(t.rows, id);
    assert(was.id == id);
    lemma_changed(t, id, moved_to(was, parent_id, sort_key, now), entry);
}

/// When a move is refused: as a loop exactly where a document of the table would
/// come below itself; else as not found exactly where the workspace has no such
/// document; else as a conflict exactly where another document of the workspace
/// has that parent and that sort key. At the root no two documents conflict.
pub proof fn law_which_moves_are_refused(
    docs: Seq<DocumentView>,
    workspace_id: Uuid,
    id: Uuid,
    parent_id: Option<Uuid>,
    sort_key: Seq<char>,
)
    requires
        valid_docs(docs),
    ensures
        ({
            let refusal = move_refusal(docs, workspace_id, id, parent_id, sort_key);
            let loops = parent_id is Some && has_doc(docs, id) && (parent_id == Some(id)
                || crate::tree::is_below(links(docs), parent_id->0, id));
            let found = exists|i: int|
                0 <= i < docs.len() && (#[trigger] docs[i]).id == id && docs[i].workspace_id
                    == workspace_id;
            let taken = exists|i: int|
                0 <= i < docs.len() && (#[trigger] docs[i]).id != id && docs[i].workspace_id
                    == workspace_id && docs[i].parent_id is Some && docs[i].parent_id == parent_id
                    && docs[i].sort_key == sort_key;
            &&& refusal == Some(DocStoreError::Cycle) <==> loops
            &&& refusal == Some(DocStoreError::NotFound) <==> !loops && !found
            &&& refusal == Some(DocStoreError::Conflict) <==> !loops && found && taken
            &&& refusal is None <==> !loops && found && !taken
        }),
{
    let l = links(docs);
    law_a_document_is_its_row(docs, workspace_id, id);
    if has_doc(docs, id) {
        let i = choose|i: int| 0 <= i < docs.len() && (#[trigger] docs[i]).id == id;
        assert(l[i].id == id);
        assert(crate::tree::in_tree(l, id));
    }
    if crate::tree::in_tree(l, id) {
        let i = choose|i: int| 0 <= i < l.len() && (#[trigger] l[i]).id == id;
        assert(docs[i].id == id);
    }
    if let Some(p) = parent_id {
        if crate::tree::at_or_below(l, p, id) {
            let n = choose|n: nat| #[trigger] crate::tree::climb(l, p, n) == Some(id);
            if n > 0 {
                assert(crate::tree::is_below(l, p, id));
            }
        }
        if p == id {
            assert(crate::tree::climb(l, p, 0) == Some(id));
        }
        if crate::tree::is_below(l, p, id) {
            let n = choose|n: nat| n > 0 && #[trigger] crate::tree::climb(l, p, n) == Some(id);
            assert(crate::tree::at_or_below(l, p, id));
        }
    }
    if has_doc_in(docs, workspace_id, id) {
        let wanted = moved_to(doc_of(docs, id), parent_id, sort_key, 0);
        assert(place_taken(docs, id, wanted) <==> exists|i: int|
            0 <= i < docs.len() && (#[trigger] docs[i]).id != id && docs[i].workspace_id
                == workspace_id && docs[i].parent_id is Some && docs[i].parent_id == parent_id
                && docs[i].sort_key == sort_key) by {
            assert forall|i: int| 0 <= i < docs.len() implies same_place(#[trigger] docs[i], wanted)
                == (docs[i].workspace_id == workspace_id && docs[i].parent_id is Some
                && docs[i].parent_id == parent_id && docs[i].sort_key == sort_key) by {}
            if place_taken(docs, id, wanted) {
                let i = choose|i: int|
                    0 <= i < docs.len() && (#[trigger] docs[i]).id != id && same_place(
                        docs[i],
                        wanted,
                    );
                assert(docs[i].sort_key == sort_key);
            }
        }
    }
}

/// A rename gives the document the title asked for and the icon asked for, or
/// leaves it its icon where none is; it was updated now, and nothing else about it
/// changes.
pub proof fn law_a_rename_changes_title_and_icon(
    t: DocTableView,
    id: Uuid,
    title: Seq<char>,
    icon: Option<Seq<char>>,
    now: i64,
    entry: AuditEntry,
)
    requires
        valid_docs(t.rows),
        has_doc(t.rows, id),
    ensures
        ({
            let was = doc_of(t.rows, id);
            let after = after_change(t, id, renamed(was, title, icon, now), entry);
            let is = doc_of(after.rows, id);
            &&& is.title == title
            &&& icon is Some ==> is.icon == icon
            &&& icon is None ==> is.icon == was.icon
            &&& is.updated_at == now
            &&& is.id == id
            &&& is.workspace_id == was.workspace_id
            &&& is.parent_id == was.parent_id
            &&& is.sort_key == was.sort_key
            &&& is.created_by == was.created_by
            &&& is.created_at == was.created_at
            &&& is.archived_at == was.archived_at
            &&& is.is_template == was.is_template
            &&& after.log == t.log.push(entry)
        }),
{
    let was = doc_of(t.rows, id);
    assert(was.id == id);
    lemma_changed(t, id, renamed(was, title, icon, now), entry);
}

/// Marking a document a template, or taking that back, sets just that; the
/// document was updated now, and nothing else about it changes.
pub proof fn law_marking_a_template_changes_only_that(
    t: DocTableView,
    id: Uuid,
    is_template: bool,
    now: i64,
    entry: AuditEntry,
)
    requires
        valid_docs(t.rows),
        has_doc(t.rows, id),
    ensures
        ({
            let was = doc_of(t.rows, id);
            let after = after_change(t, id, templated(was, is_template, now), entry);
            let is = doc_of(after.rows, id);
            &&& is.is_template == is_template
            &&& is.updated_at == now
            &&& is.id == id
            &&& is.workspace_id == was.workspace_id
            &&& is.parent_id == was.parent_id
            &&& is.title == was.title
            &&& is.sort_key == was.sort_key
            &&& is.icon == was.icon
            &&& is.created_by == was.created_by
            &&& is.created_at == was.created_at
            &&& is.archived_at == was.archived_at
            &&& after.log == t.log.push(entry)
        }),
{
    let was = doc_of(t.rows, id);
    assert(was.id == id);
    lemma_changed(t, id, templated(was, is_template, now), entry);
}

/// Archiving notes when and restoring takes that away; neither changes anything
/// else about the document, not even when it was updated, and it keeps its place
/// among its siblings.
pub proof fn law_archiving_changes_only_that(
    t: DocTableView,
    id: Uuid,
    at: Option<i64>,
    entry: AuditEntry,
)
    requires
        valid_docs(t.rows),
        has_doc(t.rows, id),
    ensures
        ({
            let was = doc_of(t.rows, id);
            let after = after_change(t, id, archived(was, at), entry);
            let is = doc_of(after.rows, id);
            &&& is.archived_at == at
            &&& is.id == id
            &&& is.workspace_id == was.workspace_id
            &&& is.parent_id == was.parent_id
            &&& is.title == was.title
            &&& is.sort_key == was.sort_key
            &&& is.icon == was.icon
            &&& is.created_by == was.created_by
            &&& is.created_at == was.created_at
            &&& is.updated_at == was.updated_at
            &&& is.is_template == was.is_template
            &&& after.log == t.log.push(entry)
        }),
{
    let was = doc_of(t.rows, id);
    assert(was.id == id);
    lemma_changed(t, id, archived(was, at), entry);
}

/// A new document is as it was asked for, without an icon, neither archived nor a
/// template, created and updated now. It is refused exactly where a document of
/// its workspace has its parent and its sort key; at the root it never is.
pub proof fn law_a_new_document_is_as_asked(
    docs: Seq<DocumentView>,
    id: Uuid,
    workspace_id: Uuid,
    parent_id: Option<Uuid>,
    title: Seq<char>,
    sort_key: Seq<char>,
    created_by: Uuid,
    now: i64,
)
    requires
        unused(docs, id),
    ensures
        ({
            let d = new_document(id, workspace_id, parent_id, title, sort_key, created_by, now);
            &&& d.id == id
            &&& d.workspace_id == workspace_id
            &&& d.parent_id == parent_id
            &&& d.title == title
            &&& d.sort_key == sort_key
            &&& d.icon is None
            &&& d.created_by == created_by
            &&& d.created_at == now
            &&& d.updated_at == now
            &&& d.archived_at is None
            &&& !d.is_template
            &&& place_taken(docs, id, d) <==> exists|i: int|
                0 <= i < docs.len() && (#[trigger] docs[i]).workspace_id == workspace_id
                    && docs[i].parent_id is Some && docs[i].parent_id == parent_id
                    && docs[i].sort_key == sort_key
        }),
{
    let d = new_document(id, workspace_id, parent_id, title, sort_key, created_by, now);
    assert forall|i: int| 0 <= i < docs.len() implies ((#[trigger] docs[i]).id != id && same_place(
        docs[i],
        d,
    )) == (docs[i].workspace_id == workspace_id && docs[i].parent_id is Some && docs[i].parent_id
        == parent_id && docs[i].sort_key == sort_key) by {}
    if place_taken(docs, id, d) {
        let i = choose|i: int|
            0 <= i < docs.len() && (#[trigger] docs[i]).id != id && same_place(docs[i], d);
        assert(docs[i].workspace_id == workspace_id);
    }
}

/// Which documents stand in the tree of a workspace.
pub open spec fn stands_in_tree(workspace_id: Uuid) -> spec_fn(DocumentView) -> bool {
    |d: DocumentView| d.workspace_id == workspace_id && d.archived_at is None && !d.is_template
}

/// The tree of a workspace shows exactly its documents that are neither archived
/// nor templates: those at the root first, then the children of each parent
/// together, siblings by their sort keys.
pub proof fn law_the_tree_shows_the_living(docs: Seq<DocumentView>, workspace_id: Uuid)
    ensures
        ({
            let list = alive_listing(docs, workspace_id);
            &&& list.to_multiset() == docs.filter(stands_in_tree(workspace_id)).to_multiset()
            &&& forall|d: DocumentView| #[trigger]
                list.contains(d) <==> docs.contains(d) && d.workspace_id == workspace_id
                    && d.archived_at is None && !d.is_template
            &&& forall|i: int, j: int|
                0 <= i < j < list.len() ==> {
                    let a = #[trigger] list[i];
                    let b = #[trigger] list[j];
                    &&& b.parent_id is None ==> a.parent_id is None
                    &&& a.parent_id is Some && b.parent_id is Some ==> a.parent_id->0
                        <= b.parent_id->0
                    &&& a.parent_id == b.parent_id ==> crate::order::text_at_most(
                        a.sort_key,
                        b.sort_key,
                    )
                }
        }),
{
    let q = stands_in_tree(workspace_id);
    let list = alive_listing(docs, workspace_id);
    crate::order::lemma_sorted::<Document, ByTree>(&ByTree, docs.filter(is_alive(workspace_id)));
    crate::seqs::lemma_filter_agree(docs, is_alive(workspace_id), q);
    assert forall|d: DocumentView| #[trigger] list.contains(d) <==> docs.contains(d) && q(d) by {
        crate::seqs::lemma_same_multiset_contains(list, docs.filter(q), d);
        crate::seqs::lemma_filter_contains(docs, q, d);
    }
    assert forall|i: int, j: int| 0 <= i < j < list.len() implies ByTree.at_most(
        #[trigger] list[i],
        #[trigger] list[j],
    ) by {}
}

/// Which documents stand in the gallery of a workspace.
pub open spec fn stands_in_gallery(workspace_id: Uuid) -> spec_fn(DocumentView) -> bool {
    |d: DocumentView| d.workspace_id == workspace_id && d.archived_at is None && d.is_template
}

/// The gallery of a workspace shows exactly its templates that are not archived,
/// by their titles.
pub proof fn law_the_gallery_shows_the_templates(docs: Seq<DocumentView>, workspace_id: Uuid)
    ensures
        ({
            let list = template_listing(docs, workspace_id);
            &&& list.to_multiset() == docs.filter(stands_in_gallery(workspace_id)).to_multiset()
            &&& forall|d: DocumentView| #[trigger]
                list.contains(d) <==> docs.contains(d) && d.workspace_id == workspace_id
                    && d.archived_at is None && d.is_template
            &&& forall|i: int, j: int|
                0 <= i < j < list.len() ==> crate::order::text_at_most(
                    (#[trigger] list[i]).title,
                    (#[trigger] list[j]).title,
                )
        }),
{
    let q = stands_in_gallery(workspace_id);
    let list = template_listing(docs, workspace_id);
    crate::order::lemma_sorted::<Document, ByTitle>(
        &ByTitle,
        docs.filter(is_listed_template(workspace_id)),
    );
    crate::seqs::lemma_filter_agree(docs, is_listed_template(workspace_id), q);
    assert forall|d: DocumentView| #[trigger] list.contains(d) <==> docs.contains(d) && q(d) by {
        crate::seqs::lemma_same_multiset_contains(list, docs.filter(q), d);
        crate::seqs::lemma_filter_contains(docs, q, d);
    }
    assert forall|i: int, j: int| 0 <= i < j < list.len() implies ByTitle.at_most(
        #[trigger] list[i],
        #[trigger] list[j],
    ) by {}
}

/// Which documents have a parent, or stand at the root.
pub open spec fn has_parent(workspace_id: Uuid, parent_id: Option<Uuid>) -> spec_fn(
    DocumentView,
) -> bool {
    |d: DocumentView| d.workspace_id == workspace_id && d.parent_id == parent_id
}

/// The siblings below a parent, or at the root, are exactly the workspace's
/// documents with that parent, archived ones and templates too, by their sort
/// keys.
pub proof fn law_siblings_share_a_parent(
    docs: Seq<DocumentView>,
    workspace_id: Uuid,
    parent_id: Option<Uuid>,
)
    ensures
        ({
            let list = sibling_listing(docs, workspace_id, parent_id);
            &&& list.to_multiset() == docs.filter(has_parent(workspace_id, parent_id)).to_multiset()
            &&& forall|d: DocumentView| #[trigger]
                list.contains(d) <==> docs.contains(d) && d.workspace_id == workspace_id
                    && d.parent_id == parent_id
            &&& forall|i: int, j: int|
                0 <= i < j < list.len() ==> crate::order::text_at_most(
                    (#[trigger] list[i]).sort_key,
                    (#[trigger] list[j]).sort_key,
                )
        }),
{
    let q = has_parent(workspace_id, parent_id);
    let list = sibling_listing(docs, workspace_id, parent_id);
    crate::order::lemma_sorted::<Document, BySortKey>(
        &BySortKey,
        docs.filter(is_child(workspace_id, parent_id)),
    );
    crate::seqs::lemma_filter_agree(docs, is_child(workspace_id, parent_id), q);
    assert forall|d: DocumentView| #[trigger] list.contains(d) <==> docs.contains(d) && q(d) by {
        crate::seqs::lemma_same_multiset_contains(list, docs.filter(q), d);
        crate::seqs::lemma_filter_contains(docs, q, d);
    }
    assert forall|i: int, j: int| 0 <= i < j < list.len() implies BySortKey.at_most(
        #[trigger] list[i],
        #[trigger] list[j],
    ) by {}
}

/// A document that is moved among the siblings below one parent comes to stand
/// there by its new sort key: whatever has a greater key comes behind it, and
/// whatever has a smaller one in front of it.
pub proof fn law_a_move_orders_by_the_new_key(
    t: DocTableView,
    workspace_id: Uuid,
    id: Uuid,
    parent_id: Option<Uuid>,
    sort_key: Seq<char>,
    now: i64,
    entry: AuditEntry,
    i: int,
    j: int,
)
    requires
        valid_docs(t.rows),
        move_refusal(t.rows, workspace_id, id, parent_id, sort_key) is None,
        ({
            let after = after_change(
                t,
                id,
                moved_to(doc_of(t.rows, id), parent_id, sort_key, now),
                entry,
            );
            let list = sibling_listing(after.rows, workspace_id, parent_id);
            0 <= i < list.len() && 0 <= j < list.len() && list[i].id == id && list[j].id != id
        }),
    ensures
        ({
            let after = after_change(
                t,
                id,
                moved_to(doc_of(t.rows, id), parent_id, sort_key, now),
                entry,
            );
            let list = sibling_listing(after.rows, workspace_id, parent_id);
            &&& !crate::order::text_at_most(list[j].sort_key, sort_key) ==> i < j
            &&& !crate::order::text_at_most(sort_key, list[j].sort_key) ==> j < i
        }),
{
    let was = doc_of(t.rows, id);
    let after = after_change(t, id, moved_to(was, parent_id, sort_key, now), entry);
    let list = sibling_listing(after.rows, workspace_id, parent_id);
    law_a_move_puts_the_document_where_asked(
        t,
        workspace_id,
        id,
        parent_id,
        sort_key,
        now,
        entry,
    );
    law_siblings_share_a_parent(after.rows, workspace_id, parent_id);
    assert(list.contains(list[i]));
    let k = choose|k: int| 0 <= k < after.rows.len() && after.rows[k] == list[i];
    let p = place_of(t.rows, id);
    assert(was.id == id);
    assert(t.rows[k].id == id);
    lemma_place(t.rows, k);
    assert(list[i].sort_key == sort_key);
    if i < j {
        assert(crate::order::text_at_most(list[i].sort_key, list[j].sort_key));
    } else {
        assert(crate::order::text_at_most(list[j].sort_key, list[i].sort_key));
    }
}

/// Whether a table's log got one entry more: who did what to which document, in which
/// workspace.
pub open spec fn logs(
    before: DocTableView,
    after: DocTableView,
    workspace_id: Uuid,
    actor: Uuid,
    change: DocChange,
    doc_id: Uuid,
) -> bool {
    &&& after.log.len() == before.log.len() + 1
    &&& forall|i: int| 0 <= i < before.log.len() ==> #[trigger] after.log[i] == before.log[i]
    &&& after.log.last().workspace_id == workspace_id
    &&& after.log.last().actor == actor
    &&& after.log.last().change == change
    &&& after.log.last().doc_id == doc_id
}

/// Whether all documents but one are in both tables, in the same places.
pub open spec fn keeps_the_others(before: DocTableView, after: DocTableView, id: Uuid) -> bool {
    &&& after.rows.len() == before.rows.len()
    &&& forall|i: int|
        0 <= i < before.rows.len() ==> (#[trigger] after.rows[i]).id == before.rows[i].id && (
        before.rows[i].id != id ==> after.rows[i] == before.rows[i])
}

proof fn lemma_change_keeps_the_others(
    t: DocTableView,
    id: Uuid,
    changed: DocumentView,
    entry: AuditEntry,
)
    requires
        valid_docs(t.rows),
        has_doc(t.rows, id),
        changed.id == id,
    ensures
        keeps_the_others(t, after_change(t, id, changed, entry), id),
        logs(
            t,
            after_change(t, id, changed, entry),
            entry.workspace_id,
            entry.actor,
            entry.change,
            entry.doc_id,
        ),
{
    let after = after_change(t, id, changed, entry);
    let p = place_of(t.rows, id);
    assert(t.rows[p].id == id);
    assert forall|i: int| 0 <= i < t.rows.len() implies (#[trigger] after.rows[i]).id
        == t.rows[i].id && (t.rows[i].id != id ==> after.rows[i] == t.rows[i]) by {}
}

/// Every operation on a document that is there is done to it and to no other, and is
/// logged under its own name on account of who did it; and one on a document that is
/// not in the workspace, or is not in the state that archiving and restoring ask for,
/// is answered that it is not found.
pub proof fn law_operations_are_done_and_logged(
    t: DocTableView,
    workspace_id: Uuid,
    id: Uuid,
    actor: Uuid,
    title: Seq<char>,
    icon: Option<Seq<char>>,
    is_template: bool,
    now: i64,
)
    requires
        valid_docs(t.rows),
    ensures
        ({
            let there = exists|i: int|
                0 <= i < t.rows.len() && (#[trigger] t.rows[i]).id == id && t.rows[i].workspace_id
                    == workspace_id;
            let is_archived = doc_of(t.rows, id).archived_at is Some;
            let rename = rename_outcome(t, workspace_id, id, actor, title, icon, now);
            let mark = template_outcome(t, workspace_id, id, actor, is_template, now);
            let archive = archive_outcome(t, workspace_id, id, actor, now);
            let restore = restore_outcome(t, workspace_id, id, actor);
            &&& rename is Ok <==> there
            &&& mark is Ok <==> there
            &&& archive is Ok <==> there && !is_archived
            &&& restore is Ok <==> there && is_archived
            &&& rename is Err ==> rename->Err_0 == DocStoreError::NotFound
            &&& mark is Err ==> mark->Err_0 == DocStoreError::NotFound
            &&& archive is Err ==> archive->Err_0 == DocStoreError::NotFound
            &&& restore is Err ==> restore->Err_0 == DocStoreError::NotFound
            &&& rename matches Ok(after) ==> {
                &&& keeps_the_others(t, after, id)
                &&& logs(t, after, workspace_id, actor, DocChange::Rename, id)
                &&& doc_of(after.rows, id).title == title
                &&& icon is Some ==> doc_of(after.rows, id).icon == icon
                &&& icon is None ==> doc_of(after.rows, id).icon == doc_of(t.rows, id).icon
            }
            &&& mark matches Ok(after) ==> {
                &&& keeps_the_others(t, after, id)
                &&& is_template ==> logs(t, after, workspace_id, actor, DocChange::MarkTemplate, id)
                &&& !is_template ==> logs(
                    t,
                    after,
                    workspace_id,
                    actor,
                    DocChange::UnmarkTemplate,
                    id,
                )
                &&& doc_of(after.rows, id).is_template == is_template
            }
            &&& archive matches Ok(after) ==> {
                &&& keeps_the_others(t, after, id)
                &&& logs(t, after, workspace_id, actor, DocChange::Archive, id)
                &&& doc_of(after.rows, id).archived_at == Some(now)
            }
            &&& restore matches Ok(after) ==> {
                &&& keeps_the_others(t, after, id)
                &&& logs(t, after, workspace_id, actor, DocChange::Restore, id)
                &&& doc_of(after.rows, id).archived_at is None
            }
        }),
{
    law_a_document_is_its_row(t.rows, workspace_id, id);
    if has_doc_in(t.rows, workspace_id, id) {
        let was = doc_of(t.rows, id);
        assert(was.id == id);
        let changes = seq![
            renamed(was, title, icon, now),
            templated(was, is_template, now),
            archived(was, Some(now)),
            archived(was, None),
        ];
        assert forall|k: int, entry: AuditEntry| 0 <= k < 4 implies ({
            let after = #[trigger] after_change(t, id, changes[k], entry);
            &&& keeps_the_others(t, after, id)
            &&& logs(t, after, entry.workspace_id, entry.actor, entry.change, entry.doc_id)
            &&& doc_of(after.rows, id) == changes[k]
        }) by {
            assert(changes[k].id == id);
            lemma_change_keeps_the_others(t, id, changes[k], entry);
            lemma_changed(t, id, changes[k], entry);
        }
        assert(changes[0] == renamed(was, title, icon, now));
        assert(changes[1] == templated(was, is_template, now));
        assert(changes[2] == archived(was, Some(now)));
        assert(changes[3] == archived(was, None));
    }
}

/// A move is refused for the reason that it is, and else done to the document and to
/// no other and logged; adding a document adds it behind all others, which stay as
/// they are, and is logged.
pub proof fn law_placing_is_done_and_logged(
    t: DocTableView,
    workspace_id: Uuid,
    id: Uuid,
    actor: Uuid,
    parent_id: Option<Uuid>,
    title: Seq<char>,
    sort_key: Seq<char>,
    now: i64,
)
    requires
        valid_docs(t.rows),
    ensures
        ({
            let moved = move_outcome(t, workspace_id, id, actor, parent_id, sort_key, now);
            let refusal = move_refusal(t.rows, workspace_id, id, parent_id, sort_key);
            &&& moved is Ok <==> refusal is None
            &&& moved is Err ==> refusal == Some(moved->Err_0)
            &&& moved matches Ok(after) ==> {
                &&& keeps_the_others(t, after, id)
                &&& logs(t, after, workspace_id, actor, DocChange::Move, id)
                &&& doc_of(after.rows, id).parent_id == parent_id
                &&& doc_of(after.rows, id).sort_key == sort_key
            }
        }),
        ({
            let added = create_outcome(
                t,
                id,
                workspace_id,
                parent_id,
                title,
                sort_key,
                actor,
                now,
            );
            unused(t.rows, id) ==> {
                &&& added is Err <==> parent_id is Some && exists|i: int|
                    0 <= i < t.rows.len() && (#[trigger] t.rows[i]).workspace_id == workspace_id
                        && t.rows[i].parent_id == parent_id && t.rows[i].sort_key == sort_key
                &&& added is Err ==> added->Err_0 == DocStoreError::Conflict
                &&& added matches Ok(after) ==> {
                    &&& after.rows.drop_last() == t.rows
                    &&& after.rows.last().id == id
                    &&& after.rows.last().workspace_id == workspace_id
                    &&& after.rows.last().parent_id == parent_id
                    &&& after.rows.last().title == title
                    &&& after.rows.last().sort_key == sort_key
                    &&& after.rows.last().created_by == actor
                    &&& after.rows.last().created_at == now
                    &&& after.rows.last().archived_at is None
                    &&& !after.rows.last().is_template
                    &&& logs(t, after, workspace_id, actor, DocChange::Create, id)
                }
            }
        }),
{
    let refusal = move_refusal(t.rows, workspace_id, id, parent_id, sort_key);
    if refusal is None {
        let was = doc_of(t.rows, id);
        assert(was.id == id);
        let entry = AuditEntry { workspace_id, actor, change: DocChange::Move, doc_id: id };
        lemma_change_keeps_the_others(t, id, moved_to(was, parent_id, sort_key, now), entry);
        lemma_changed(t, id, moved_to(was, parent_id, sort_key, now), entry);
    }
    if unused(t.rows, id) {
        law_a_new_document_is_as_asked(
            t.rows,
            id,
            workspace_id,
            parent_id,
            title,
            sort_key,
            actor,
            now,
        );
        let added = create_outcome(t, id, workspace_id, parent_id, title, sort_key, actor, now);
        if let Ok(after) = added {
            assert(after.rows.drop_last() =~= t.rows);
        }
    }
}

/// Each change goes by a name of its own in the audit log, and cached permissions are
/// dropped exactly where a document comes, goes or moves in the tree: renaming it or
/// making it a template changes nobody's role.
pub proof fn law_changes_have_names_and_reasons(a: DocChange, b: DocChange)
    ensures
        audit_name(a) == audit_name(b) ==> a == b,
        invalidation_reason(a) is Some <==> a == DocChange::Create || a == DocChange::Move || a
            == DocChange::Archive || a == DocChange::Restore,
        invalidation_reason(a) is Some && invalidation_reason(a) == invalidation_reason(b) ==> a
            == b,
{
    reveal_strlit("doc.create");
    reveal_strlit("doc.rename");
    reveal_strlit("doc.move");
    reveal_strlit("doc.archive");
    reveal_strlit("doc.restore");
    reveal_strlit("doc.template.mark");
    reveal_strlit("doc.template.unmark");
    reveal_strlit("create");
    reveal_strlit("tree-move");
    reveal_strlit("archive");
    reveal_strlit("restore");
    assert("doc.create"@[4] == 'c' && "doc.rename"@[4] == 'r');
    assert("doc.archive"@[4] == 'a' && "doc.restore"@[4] == 'r');
    assert("archive"@[0] == 'a' && "restore"@[0] == 'r');
    assert("doc.create"@.len() == 10 && "doc.rename"@.len() == 10 && "doc.move"@.len() == 8);
    assert("doc.archive"@.len() == 11 && "doc.restore"@.len() == 11);
    assert("doc.template.mark"@.len() == 17 && "doc.template.unmark"@.len() == 19);
    assert("create"@.len() == 6 && "tree-move"@.len() == 9 && "archive"@.len() == 7
        && "restore"@.len() == 7);
    match a {
        DocChange::Create => {},
        DocChange::Rename => {},
        DocChange::Move => {},
        DocChange::Archive => {},
        DocChange::Restore => {},
        DocChange::MarkTemplate => {},
        DocChange::UnmarkTemplate => {},
    }
    match b {
        DocChange::Create => {},
        DocChange::Rename => {},
        DocChange::Move => {},
        DocChange::Archive => {},
        DocChange::Restore => {},
        DocChange::MarkTemplate => {},
        DocChange::UnmarkTemplate => {},
    }
}

} // verus!
