//! Markdown import and export: what the endpoints decide, and the steps of a
//! refresh of a document's text.
//!
//! - importing: [`import_inline`], then reading the body, [`import_text`], and
//!   then what [`Import::begin`] and [`Import::next`] say;
//! - exporting: [`export_inline`], then [`refresh_for_export`];
//! - refreshing: what [`Refresh::begin`] and [`RefreshRun::next`] say.

use crate::access::{admit_editor, require_viewer, AuthContext, Caller};
use crate::docs::{DocStoreError, Document};
use crate::http::{internal, refuse, Refusal};
use crate::ids::{format_uuid, Uuid};
use crate::text::{join2, same_text};
use vstd::prelude::*;
use vstd::string::*;

verus! {

/// How many bytes of markdown an import reads.
pub const MAX_IMPORT_BYTES: usize = 1048576;

/// What an import does with what the document already holds.
#[derive(Clone, Copy, Debug, PartialEq, Eq, Structural)]
pub enum ImportMode {
    /// Adds to it.
    Append,
    /// Takes its place.
    Replace,
}

/// The mode that a request names. Without one it appends.
pub open spec fn mode_named(name: Option<Seq<char>>) -> Option<ImportMode> {
    match name {
        None => Some(ImportMode::Append),
        Some(n) => if n == "append"@ {
            Some(ImportMode::Append)
        } else if n == "replace"@ {
            Some(ImportMode::Replace)
        } else {
            None
        },
    }
}

/// What answers a request to import before its body is read.
pub open spec fn import_request(
    caller: Caller,
    mode: Option<Seq<char>>,
    rooms_ready: bool,
) -> Result<(AuthContext, ImportMode), crate::http::RefusalView> {
    match crate::access::admitted(caller, crate::access::editor_gate(caller)) {
        Err(refused) => Err(refused),
        Ok(ctx) => match mode_named(mode) {
            None => Err(crate::http::refusal(400, "markdown.bad_mode"@, ""@)),
            Some(mode) => if rooms_ready {
                Ok((ctx, mode))
            } else {
                Err(crate::http::internal_error())
            },
        },
    }
}

/// POST /api/docs/{id}/markdown: whether the body is read, and what the import
/// does with what is there.
pub fn import_inline(caller: &Caller, mode: Option<&str>, rooms_ready: bool) -> (r: Result<
    (AuthContext, ImportMode),
    Refusal,
>)
    ensures
        crate::http::answers(
            r,
            import_request(
                *caller,
                match mode {
                    Some(m) => Some(m@),
                    None => None,
                },
                rooms_ready,
            ),
        ),
{
    let ctx = match admit_editor(caller) {
        Ok(ctx) => ctx,
        Err(refused) => return Err(refused),
    };
    let mode = match mode {
        None => ImportMode::Append,
        Some(m) => if same_text(m, "append") {
            ImportMode::Append
        } else if same_text(m, "replace") {
            ImportMode::Replace
        } else {
            return Err(refuse(400, "markdown.bad_mode"));
        },
    };
    if !rooms_ready {
        return Err(internal());
    }
    Ok((ctx, mode))
}

/// The text that bytes hold, where they are UTF-8.
///
/// Calls `std::str::from_utf8`, which accepts exactly the valid UTF-8 sequences
/// and yields the text that they encode.
#[verifier::external_body]
fn decode_utf8(bytes: &Vec<u8>) -> (r: Option<String>)
    ensures
        r is Some <==> vstd::utf8::valid_utf8(bytes@),
        r is Some ==> r->0@ == vstd::utf8::decode_utf8(bytes@),
{
    std::str::from_utf8(bytes).ok().map(|text| text.to_string())
}

/// The text to import, or what answers the request. The body is `None` where it broke
/// off or was longer than an import reads.
pub open spec fn text_answer(body: Option<Vec<u8>>) -> Result<Seq<char>, crate::http::RefusalView> {
    match body {
        None => Err(crate::http::bad_request()),
        Some(bytes) => if vstd::utf8::valid_utf8(bytes@) {
            Ok(vstd::utf8::decode_utf8(bytes@))
        } else {
            Err(crate::http::refusal(422, "markdown.not_utf8"@, ""@))
        },
    }
}

/// The text to import. The body is `None` where it broke off or was longer than
/// an import reads.
pub fn import_text(body: Option<Vec<u8>>) -> (r: Result<String, Refusal>)
    ensures
        crate::http::answers_view(r, text_answer(body)),
{
    match body {
        None => Err(refuse(400, "bad_request")),
        Some(bytes) => match decode_utf8(&bytes) {
            Some(text) => Ok(text),
            None => Err(refuse(422, "markdown.not_utf8")),
        },
    }
}

/// What a document's room answered to an update.
#[derive(Clone, Copy, Debug, PartialEq, Eq, Structural)]
pub enum RoomAnswer {
    /// The room could not be asked, or did not answer.
    Unreachable,
    /// The update does not apply.
    Rejected,
    /// The update was applied.
    Applied,
}

/// A step of an import whose text was read.
#[derive(Debug)]
pub enum ImportStep {
    /// Turns the text into an update.
    Parse { text: String },
    /// Gets the document's room.
    AcquireRoom { doc_id: Uuid },
    /// Applies the update there.
    Apply { update: Vec<u8>, mode: ImportMode, by_user: Uuid },
    /// Refreshes the document's text and its tasks. Whether that succeeds does
    /// not change the answer.
    Refresh(Refresh),
}

#[verifier::ext_equal]
pub enum ImportStepView {
    Parse { text: Seq<char> },
    AcquireRoom { doc_id: Uuid },
    Apply { update: Seq<u8>, mode: ImportMode, by_user: Uuid },
    Refresh(Refresh),
}

impl View for ImportStep {
    type V = ImportStepView;

    open spec fn view(&self) -> ImportStepView {
        match *self {
            ImportStep::Parse { text } => ImportStepView::Parse { text: text@ },
            ImportStep::AcquireRoom { doc_id } => ImportStepView::AcquireRoom { doc_id },
            ImportStep::Apply { update, mode, by_user } => ImportStepView::Apply {
                update: update@,
                mode,
                by_user,
            },
            ImportStep::Refresh(refresh) => ImportStepView::Refresh(refresh),
        }
    }
}

/// What came of a step of an import.
#[derive(Debug)]
pub enum ImportEvent {
    /// The update that the text makes, or nothing where it makes none.
    Parsed(Option<Vec<u8>>),
    RoomAcquired(bool),
    Answered(RoomAnswer),
    /// The refresh succeeded, or did not.
    Refreshed,
}

/// What comes next in an import.
#[derive(Debug)]
pub enum ImportNext {
    Do(ImportStep),
    Refuse(Refusal),
    Answer(u16),
}

#[verifier::ext_equal]
pub enum ImportNextView {
    Do(ImportStepView),
    Refuse(crate::http::RefusalView),
    Answer(u16),
}

impl View for ImportNext {
    type V = ImportNextView;

    open spec fn view(&self) -> ImportNextView {
        match *self {
            ImportNext::Do(step) => ImportNextView::Do(step@),
            ImportNext::Refuse(r) => ImportNextView::Refuse(r@),
            ImportNext::Answer(status) => ImportNextView::Answer(status),
        }
    }
}

/// An import into a document: who imports, in which mode, what the server has,
/// and the update that waits for the room.
#[derive(Debug)]
pub struct Import {
    doc_id: Uuid,
    ctx: AuthContext,
    mode: ImportMode,
    cache_ready: bool,
    stores_ready: bool,
    update: Vec<u8>,
}

#[verifier::ext_equal]
pub struct ImportView {
    pub doc_id: Uuid,
    pub ctx: AuthContext,
    pub mode: ImportMode,
    pub cache_ready: bool,
    pub stores_ready: bool,
    pub update: Seq<u8>,
}

impl View for Import {
    type V = ImportView;

    closed spec fn view(&self) -> ImportView {
        ImportView {
            doc_id: self.doc_id,
            ctx: self.ctx,
            mode: self.mode,
            cache_ready: self.cache_ready,
            stores_ready: self.stores_ready,
            update: self.update@,
        }
    }
}

/// What becomes of an import after a step, and what comes next.
pub open spec fn import_after(i: ImportView, event: ImportEvent) -> (ImportView, ImportNextView) {
    match event {
        ImportEvent::Parsed(Some(update)) => (
            ImportView { update: update@, ..i },
            ImportNextView::Do(ImportStepView::AcquireRoom { doc_id: i.doc_id }),
        ),
        ImportEvent::Parsed(None) => (
            i,
            ImportNextView::Refuse(crate::http::refusal(422, "markdown.parse"@, ""@)),
        ),
        ImportEvent::RoomAcquired(true) => (
            ImportView { update: Seq::empty(), ..i },
            ImportNextView::Do(
                ImportStepView::Apply { update: i.update, mode: i.mode, by_user: i.ctx.user_id },
            ),
        ),
        ImportEvent::RoomAcquired(false) => (
            i,
            ImportNextView::Refuse(crate::http::internal_error()),
        ),
        ImportEvent::Answered(RoomAnswer::Applied) => (
            i,
            ImportNextView::Do(
                ImportStepView::Refresh(
                    import_refresh(i.ctx, i.doc_id, true, i.cache_ready, i.stores_ready),
                ),
            ),
        ),
        ImportEvent::Answered(RoomAnswer::Rejected) => (
            i,
            ImportNextView::Refuse(crate::http::refusal(422, "markdown.apply"@, ""@)),
        ),
        ImportEvent::Answered(RoomAnswer::Unreachable) => (
            i,
            ImportNextView::Refuse(crate::http::internal_error()),
        ),
        ImportEvent::Refreshed => (i, ImportNextView::Answer(204)),
    }
}

impl Import {
    /// An import of a text that was read, and its first step. The rooms are
    /// there, or the body would not have been read.
    pub fn begin(
        ctx: AuthContext,
        mode: ImportMode,
        doc_id: Uuid,
        text: String,
        cache_ready: bool,
        stores_ready: bool,
    ) -> (r: (Import, ImportStep))
        ensures
            r.0@ == (ImportView {
                doc_id,
                ctx,
                mode,
                cache_ready,
                stores_ready,
                update: Seq::empty(),
            }),
            r.1@ == (ImportStepView::Parse { text: text@ }),
    {
        (
            Import { doc_id, ctx, mode, cache_ready, stores_ready, update: Vec::new() },
            ImportStep::Parse { text },
        )
    }

    /// The import after a step, and what comes next.
    pub fn next(self, event: ImportEvent) -> (r: (Import, ImportNext))
        ensures
            (r.0@, r.1@) == import_after(self@, event),
    {
        match event {
            ImportEvent::Parsed(parsed) => match parsed {
                Some(update) => {
                    let doc_id = self.doc_id;
                    (
                        Import { update, ..self },
                        ImportNext::Do(ImportStep::AcquireRoom { doc_id }),
                    )
                },
                None => (self, ImportNext::Refuse(refuse(422, "markdown.parse"))),
            },
            ImportEvent::RoomAcquired(acquired) => if acquired {
                let step = ImportStep::Apply {
                    update: self.update,
                    mode: self.mode,
                    by_user: self.ctx.user_id,
                };
                let rest = Import {
                    doc_id: self.doc_id,
                    ctx: self.ctx,
                    mode: self.mode,
                    cache_ready: self.cache_ready,
                    stores_ready: self.stores_ready,
                    update: Vec::new(),
                };
                (rest, ImportNext::Do(step))
            } else {
                (self, ImportNext::Refuse(internal()))
            },
            ImportEvent::Answered(answer) => match answer {
                RoomAnswer::Applied => {
                    let refresh = refresh_after_import(
                        &self.ctx,
                        self.doc_id,
                        true,
                        self.cache_ready,
                        self.stores_ready,
                    );
                    (self, ImportNext::Do(ImportStep::Refresh(refresh)))
                },
                RoomAnswer::Rejected => (
                    self,
                    ImportNext::Refuse(refuse(422, "markdown.apply")),
                ),
                RoomAnswer::Unreachable => (self, ImportNext::Refuse(internal())),
            },
            ImportEvent::Refreshed => (self, ImportNext::Answer(204)),
        }
    }
}

/// GET /api/docs/{id}/markdown: whether the document is exported.
pub fn export_inline(caller: &Caller) -> (r: Option<Refusal>)
    ensures
        crate::access::refuses(r, crate::access::viewer_gate(*caller)),
{
    require_viewer(caller)
}

/// A step of refreshing a document's text.
#[derive(Debug)]
pub enum RefreshStep {
    /// Gets the document's room.
    AcquireRoom,
    /// Asks it for the document's state.
    AskState,
    /// Applies the state to a document of its own.
    ApplyState,
    /// Writes that as markdown.
    Serialise,
    /// Stores the text, as of the state's sequence number, for later readers.
    PutCache { seq: i64, text: String },
    /// Replaces the document's tasks in the index by those of the text. The
    /// actor is whoever's edit led to this, where that is known.
    IndexTasks { actor_id: Option<Uuid>, text: String },
}

/// What came of a step of refreshing a document's text.
#[derive(Debug)]
pub enum RefreshEvent {
    RoomAcquired,
    RoomNotAcquired,
    /// The room gave its state, as of this sequence number.
    StateGiven { seq: i64 },
    /// The room answered with an error.
    StateRefused(String),
    /// The room could not be asked, or did not answer.
    RoomSilent,
    StateApplied,
    StateDoesNotApply(String),
    TextRendered(String),
    TextNotRendered(String),
    /// The text was stored, or could not be.
    CacheTried,
    /// The tasks were indexed, or could not be.
    IndexTried,
}

/// What comes next in refreshing a document's text.
#[derive(Debug)]
pub enum RefreshNext {
    Do(RefreshStep),
    Fail(RefreshError),
    /// The text that was rendered is the answer.
    Done(String),
}

/// A refresh of a document's text.
#[derive(Clone, Copy, Debug, PartialEq, Eq, Structural)]
pub struct Refresh {
    pub doc_id: Uuid,
    /// Whether the document's tasks are indexed too.
    pub reindex_tasks: bool,
    /// Whoever's edit led to this, where that is known. A task that they assigned
    /// to themselves is not told to them.
    pub actor_id: Option<Uuid>,
    pub rooms_ready: bool,
    pub cache_ready: bool,
    /// Whether the task index and the documents are there.
    pub stores_ready: bool,
}

/// A refresh on its way: the sequence number of the state and the text, as far
/// as they are known.
#[derive(Debug)]
pub struct RefreshRun {
    pub refresh: Refresh,
    pub seq: i64,
    pub text: String,
}

impl Refresh {
    /// What comes first.
    pub open spec fn first(self) -> RefreshNext {
        if self.rooms_ready {
            RefreshNext::Do(RefreshStep::AcquireRoom)
        } else {
            RefreshNext::Fail(RefreshError::NoRooms)
        }
    }

    /// What comes once the text is stored.
    pub open spec fn after_cache(self, text: String) -> RefreshNext {
        if self.reindex_tasks && self.stores_ready {
            RefreshNext::Do(RefreshStep::IndexTasks { actor_id: self.actor_id, text })
        } else {
            RefreshNext::Done(text)
        }
    }

    /// The refresh on its way, and what comes first.
    pub fn begin(&self) -> (r: (RefreshRun, RefreshNext))
        ensures
            r.0.refresh == *self,
            r.0.seq == 0,
            r.0.text@ == ""@,
            r.1 == self.first(),
    {
        let run = RefreshRun { refresh: *self, seq: 0, text: "".to_owned() };
        if self.rooms_ready {
            (run, RefreshNext::Do(RefreshStep::AcquireRoom))
        } else {
            (run, RefreshNext::Fail(RefreshError::NoRooms))
        }
    }

    fn index_or_done(&self, text: String) -> (r: RefreshNext)
        ensures
            r == self.after_cache(text),
    {
        if self.reindex_tasks && self.stores_ready {
            RefreshNext::Do(RefreshStep::IndexTasks { actor_id: self.actor_id, text })
        } else {
            RefreshNext::Done(text)
        }
    }
}

impl RefreshRun {
    /// What becomes of a refresh after a step, and what comes next. Once the text
    /// is there nothing that fails takes it away: storing and indexing are tried,
    /// and that is all.
    pub open spec fn after(self, event: RefreshEvent) -> (RefreshRun, RefreshNext) {
        match event {
            RefreshEvent::RoomAcquired => (self, RefreshNext::Do(RefreshStep::AskState)),
            RefreshEvent::RoomNotAcquired => (
                self,
                RefreshNext::Fail(RefreshError::Acquire(self.refresh.doc_id)),
            ),
            RefreshEvent::StateGiven { seq } => (
                RefreshRun { seq, ..self },
                RefreshNext::Do(RefreshStep::ApplyState),
            ),
            RefreshEvent::StateRefused(e) => (self, RefreshNext::Fail(RefreshError::Actor(e))),
            RefreshEvent::RoomSilent => (
                self,
                RefreshNext::Fail(RefreshError::RoomUnreachable(self.refresh.doc_id)),
            ),
            RefreshEvent::StateApplied => (self, RefreshNext::Do(RefreshStep::Serialise)),
            RefreshEvent::StateDoesNotApply(e) => (
                self,
                RefreshNext::Fail(RefreshError::Apply(e)),
            ),
            RefreshEvent::TextRendered(text) => (
                RefreshRun { text, ..self },
                if self.refresh.cache_ready {
                    RefreshNext::Do(RefreshStep::PutCache { seq: self.seq, text })
                } else {
                    self.refresh.after_cache(text)
                },
            ),
            RefreshEvent::TextNotRendered(e) => (
                self,
                RefreshNext::Fail(RefreshError::Serialise(e)),
            ),
            RefreshEvent::CacheTried => (self, self.refresh.after_cache(self.text)),
            RefreshEvent::IndexTried => (self, RefreshNext::Done(self.text)),
        }
    }

    /// The refresh after a step, and what comes next.
    pub fn next(self, event: RefreshEvent) -> (r: (RefreshRun, RefreshNext))
        ensures
            r == self.after(event),
    {
        let refresh = self.refresh;
        match event {
            RefreshEvent::RoomAcquired => (self, RefreshNext::Do(RefreshStep::AskState)),
            RefreshEvent::RoomNotAcquired => (
                self,
                RefreshNext::Fail(RefreshError::Acquire(refresh.doc_id)),
            ),
            RefreshEvent::StateGiven { seq } => (
                RefreshRun { seq, ..self },
                RefreshNext::Do(RefreshStep::ApplyState),
            ),
            RefreshEvent::StateRefused(e) => (self, RefreshNext::Fail(RefreshError::Actor(e))),
            RefreshEvent::RoomSilent => (
                self,
                RefreshNext::Fail(RefreshError::RoomUnreachable(refresh.doc_id)),
            ),
            RefreshEvent::StateApplied => (self, RefreshNext::Do(RefreshStep::Serialise)),
            RefreshEvent::StateDoesNotApply(e) => (
                self,
                RefreshNext::Fail(RefreshError::Apply(e)),
            ),
            RefreshEvent::TextRendered(text) => {
                let copy = text.clone();
                let seq: i64 = self.seq;
                let run = RefreshRun { refresh, seq, text };
                if refresh.cache_ready {
                    (run, RefreshNext::Do(RefreshStep::PutCache { seq, text: copy }))
                } else {
                    (run, refresh.index_or_done(copy))
                }
            },
            RefreshEvent::TextNotRendered(e) => (
                self,
                RefreshNext::Fail(RefreshError::Serialise(e)),
            ),
            RefreshEvent::CacheTried => {
                let copy = self.text.clone();
                (self, refresh.index_or_done(copy))
            },
            RefreshEvent::IndexTried => {
                let copy = self.text.clone();
                (self, RefreshNext::Done(copy))
            },
        }
    }
}

/// The refresh that stores a document's text and indexes its tasks, on account of an
/// actor where there is one.
pub open spec fn indexing_refresh(
    doc_id: Uuid,
    actor_id: Option<Uuid>,
    rooms_ready: bool,
    cache_ready: bool,
    stores_ready: bool,
) -> Refresh {
    Refresh { doc_id, reindex_tasks: true, actor_id, rooms_ready, cache_ready, stores_ready }
}

/// The refresh that leaves the task index alone.
pub open spec fn text_refresh(
    doc_id: Uuid,
    rooms_ready: bool,
    cache_ready: bool,
    stores_ready: bool,
) -> Refresh {
    Refresh {
        doc_id,
        reindex_tasks: false,
        actor_id: None,
        rooms_ready,
        cache_ready,
        stores_ready,
    }
}

/// The refresh that stores a document's text and indexes its tasks, on account
/// of an actor where there is one.
pub fn refresh_markdown_and_index(
    doc_id: Uuid,
    actor_id: Option<Uuid>,
    rooms_ready: bool,
    cache_ready: bool,
    stores_ready: bool,
) -> (r: Refresh)
    ensures
        r == indexing_refresh(doc_id, actor_id, rooms_ready, cache_ready, stores_ready),
{
    Refresh { doc_id, reindex_tasks: true, actor_id, rooms_ready, cache_ready, stores_ready }
}

/// The refresh that leaves the task index alone: the one of a template that is
/// instantiated.
pub fn export_markdown_only(
    doc_id: Uuid,
    rooms_ready: bool,
    cache_ready: bool,
    stores_ready: bool,
) -> (r: Refresh)
    ensures
        r == text_refresh(doc_id, rooms_ready, cache_ready, stores_ready),
{
    Refresh {
        doc_id,
        reindex_tasks: false,
        actor_id: None,
        rooms_ready,
        cache_ready,
        stores_ready,
    }
}

/// The refresh after an import: on account of the user who imported.
pub open spec fn import_refresh(
    ctx: AuthContext,
    doc_id: Uuid,
    rooms_ready: bool,
    cache_ready: bool,
    stores_ready: bool,
) -> Refresh {
    Refresh {
        doc_id,
        reindex_tasks: true,
        actor_id: Some(ctx.user_id),
        rooms_ready,
        cache_ready,
        stores_ready,
    }
}

/// The refresh after an import: on account of the user who imported.
pub fn refresh_after_import(
    ctx: &AuthContext,
    doc_id: Uuid,
    rooms_ready: bool,
    cache_ready: bool,
    stores_ready: bool,
) -> (r: Refresh)
    ensures
        r == import_refresh(*ctx, doc_id, rooms_ready, cache_ready, stores_ready),
{
    refresh_markdown_and_index(doc_id, Some(ctx.user_id), rooms_ready, cache_ready, stores_ready)
}

/// The refresh of an export. An export edits nothing, so nobody is named as having
/// assigned a task.
pub fn refresh_for_export(
    doc_id: Uuid,
    rooms_ready: bool,
    cache_ready: bool,
    stores_ready: bool,
) -> (r: Refresh)
    ensures
        r == indexing_refresh(doc_id, None, rooms_ready, cache_ready, stores_ready),
{
    refresh_markdown_and_index(doc_id, None, rooms_ready, cache_ready, stores_ready)
}

/// Why a refresh of a document's text failed.
#[derive(Debug)]
pub enum RefreshError {
    NoRooms,
    Acquire(Uuid),
    RoomUnreachable(Uuid),
    Actor(String),
    Apply(String),
    Serialise(String),
}

/// What a failed refresh is reported as.
pub open spec fn refresh_error_text(e: RefreshError) -> Seq<char> {
    match e {
        RefreshError::NoRooms => "server state missing rooms registry"@,
        RefreshError::Acquire(id) => "room acquire failed for "@ + crate::ids::uuid_text(id),
        RefreshError::RoomUnreachable(id) => "room actor unreachable for "@
            + crate::ids::uuid_text(id),
        RefreshError::Actor(detail) => "room actor returned an error: "@ + detail@,
        RefreshError::Apply(detail) => "yrs apply: "@ + detail@,
        RefreshError::Serialise(detail) => "markdown serialise: "@ + detail@,
    }
}

impl RefreshError {
    /// What this failure is reported as.
    pub fn message(&self) -> (r: String)
        ensures
            r@ == refresh_error_text(*self),
    {
        match self {
            RefreshError::NoRooms => "server state missing rooms registry".to_owned(),
            RefreshError::Acquire(id) => join2(
                "room acquire failed for ",
                format_uuid(*id).as_str(),
            ),
            RefreshError::RoomUnreachable(id) => join2(
                "room actor unreachable for ",
                format_uuid(*id).as_str(),
            ),
            RefreshError::Actor(detail) => join2(
                "room actor returned an error: ",
                detail.as_str(),
            ),
            RefreshError::Apply(detail) => join2("yrs apply: ", detail.as_str()),
            RefreshError::Serialise(detail) => join2("markdown serialise: ", detail.as_str()),
        }
    }
}

/// Which workspace's task index takes a document that was rendered: none where the
/// document is not found.
pub open spec fn indexed_in(found: Result<Option<Document>, DocStoreError>) -> Option<Uuid> {
    match found {
        Ok(Some(d)) => Some(d.workspace_id),
        _ => None,
    }
}

/// Which workspace's task index takes a document that was rendered: none where
/// the document is not found.
pub fn index_target(found: &Result<Option<Document>, DocStoreError>) -> (r: Option<Uuid>)
    ensures
        r == indexed_in(*found),
{
    match found {
        Ok(Some(d)) => Some(d.workspace_id),
        _ => None,
    }
}

/// What is imported is what was sent: the text encodes to the bytes of the body.
pub proof fn law_import_keeps_the_text(bytes: Seq<u8>)
    requires
        vstd::utf8::valid_utf8(bytes),
    ensures
        vstd::utf8::encode_utf8(vstd::utf8::decode_utf8(bytes)) == bytes,
{
    vstd::utf8::decode_utf8_encode_utf8(bytes);
}

/// A refresh answers the text that was rendered, whatever becomes of storing and
/// indexing it: from the moment that the text is there each step that is still
/// taken carries it, none fails, indexing is the last of them and comes at most
/// once, and what is answered in the end is that text.
pub proof fn law_a_rendered_text_is_kept(run: RefreshRun, text: String)
    ensures
        ({
            let (a, stored) = run.after(RefreshEvent::TextRendered(text));
            let (b, indexed) = a.after(RefreshEvent::CacheTried);
            let (c, done) = b.after(RefreshEvent::IndexTried);
            &&& stored == RefreshNext::Do(RefreshStep::PutCache { seq: run.seq, text }) || stored
                == indexed
            &&& indexed == RefreshNext::Do(
                RefreshStep::IndexTasks { actor_id: run.refresh.actor_id, text },
            ) || indexed == done
            &&& done == RefreshNext::Done(text)
        }),
{
}

/// Tasks are indexed on account of the refresh's own actor, and only where the
/// refresh is to index and the stores are there.
pub proof fn law_indexing_names_the_actor_of_the_refresh(run: RefreshRun, event: RefreshEvent)
    ensures
        run.after(event).0.refresh == run.refresh,
        run.after(event).1 matches RefreshNext::Do(
            RefreshStep::IndexTasks { actor_id, text },
        ) ==> actor_id == run.refresh.actor_id && run.refresh.reindex_tasks
            && run.refresh.stores_ready,
{
}

/// An import never tells its author of a task that they assigned to themselves:
/// whatever the refresh after it indexes, no notification goes to them, and each
/// names them as the one who assigned the task.
pub proof fn law_importing_ones_own_tasks_tells_nobody(
    ctx: AuthContext,
    refresh: Refresh,
    run: RefreshRun,
    event: RefreshEvent,
    workspace_id: Uuid,
    items: Seq<crate::tasks::DocTaskInputView>,
    k: int,
)
    requires
        refresh == import_refresh(
            ctx,
            refresh.doc_id,
            refresh.rooms_ready,
            refresh.cache_ready,
            refresh.stores_ready,
        ),
        run.refresh == refresh,
        run.after(event).1 matches RefreshNext::Do(RefreshStep::IndexTasks { actor_id, text })
            && 0 <= k < crate::tasks::assignments(
            workspace_id,
            refresh.doc_id,
            items,
            actor_id,
        ).len(),
    ensures
        run.after(event).1 matches RefreshNext::Do(RefreshStep::IndexTasks { actor_id, text })
            && ({
            let n = crate::tasks::assignments(workspace_id, refresh.doc_id, items, actor_id)[k];
            n.user_id != ctx.user_id && n.actor_id == Some(ctx.user_id)
        }),
{
    crate::tasks::law_only_open_tasks_of_others_notify(
        workspace_id,
        refresh.doc_id,
        items,
        Some(ctx.user_id),
        k,
    );
}

/// What an import applies is the update that its text made, in the mode that was
/// asked for and on account of the caller; and the refresh that follows is on
/// account of the caller too.
pub proof fn law_an_import_applies_what_was_parsed(i: ImportView, update: Vec<u8>)
    ensures
        ({
            let (parsed, acquire) = import_after(i, ImportEvent::Parsed(Some(update)));
            let (acquired, apply) = import_after(parsed, ImportEvent::RoomAcquired(true));
            let (applied, refresh) = import_after(
                acquired,
                ImportEvent::Answered(RoomAnswer::Applied),
            );
            &&& acquire == ImportNextView::Do(ImportStepView::AcquireRoom { doc_id: i.doc_id })
            &&& apply == ImportNextView::Do(
                ImportStepView::Apply { update: update@, mode: i.mode, by_user: i.ctx.user_id },
            )
            &&& refresh == ImportNextView::Do(
                ImportStepView::Refresh(
                    import_refresh(i.ctx, i.doc_id, true, i.cache_ready, i.stores_ready),
                ),
            )
        }),
{
}

/// Importing appends unless the request says `replace`; any other mode than
/// `append` and `replace` is refused.
pub proof fn law_which_modes_there_are(name: Seq<char>)
    ensures
        mode_named(None) == Some(ImportMode::Append),
        mode_named(Some(name)) == Some(ImportMode::Append) <==> name == "append"@,
        mode_named(Some(name)) == Some(ImportMode::Replace) <==> name == "replace"@,
        mode_named(Some(name)) is None <==> name != "append"@ && name != "replace"@,
{
    reveal_strlit("append");
    reveal_strlit("replace");
    assert("append"@.len() != "replace"@.len());
    if mode_named(Some(name)) is Some {
        match mode_named(Some(name))->0 {
            ImportMode::Append => {},
            ImportMode::Replace => {},
        }
    }
}

/// The body of an import is read exactly where the caller may change the document,
/// the mode is one that there is and the rooms are there; the import is the caller's,
/// in the mode that was asked for.
pub proof fn law_an_import_is_made_as_requested(
    caller: Caller,
    mode: Option<Seq<char>>,
    rooms_ready: bool,
)
    ensures
        ({
            let answer = import_request(caller, mode, rooms_ready);
            let editor = caller.auth is Some && (caller.doc_role == Some(
                crate::access::WorkspaceRole::Owner,
            ) || caller.doc_role == Some(crate::access::WorkspaceRole::Editor));
            let known = mode is None || mode->0 == "append"@ || mode->0 == "replace"@;
            &&& answer is Ok <==> editor && known && rooms_ready
            &&& answer matches Ok(a) ==> {
                &&& caller.auth == Some(a.0)
                &&& mode is None || mode->0 == "append"@ ==> a.1 == ImportMode::Append
                &&& mode is Some && mode->0 == "replace"@ ==> a.1 == ImportMode::Replace
            }
            &&& caller.auth is None ==> answer->Err_0.status == 401
            &&& caller.auth is Some && !editor ==> answer->Err_0.status == 403
            &&& editor && !known ==> answer->Err_0.status == 400 && answer->Err_0.code
                == "markdown.bad_mode"@
            &&& editor && known && !rooms_ready ==> answer->Err_0.status == 500
        }),
{
    crate::access::law_what_the_gates_answer(caller);
    crate::access::law_gates_are_nested(caller);
    if let Some(name) = mode {
        law_which_modes_there_are(name);
    }
}

/// What an import comes to: refused where its text makes no update, its room is not
/// there or does not apply the update; done, with 204, once the update was applied
/// and the refresh that follows was tried. No step changes whose import it is, where
/// it goes or in which mode.
pub proof fn law_what_an_import_comes_to(i: ImportView, event: ImportEvent)
    ensures
        import_after(i, ImportEvent::Parsed(None)).1->Refuse_0.status == 422,
        import_after(i, ImportEvent::Parsed(None)).1->Refuse_0.code == "markdown.parse"@,
        import_after(i, ImportEvent::RoomAcquired(false)).1->Refuse_0.status == 500,
        import_after(i, ImportEvent::Answered(RoomAnswer::Rejected)).1->Refuse_0.status == 422,
        import_after(i, ImportEvent::Answered(RoomAnswer::Rejected)).1->Refuse_0.code
            == "markdown.apply"@,
        import_after(i, ImportEvent::Answered(RoomAnswer::Unreachable)).1->Refuse_0.status == 500,
        import_after(i, ImportEvent::Refreshed).1 == ImportNextView::Answer(204),
        import_after(i, event).1 is Answer ==> event is Refreshed,
        import_after(i, event).0.doc_id == i.doc_id,
        import_after(i, event).0.ctx == i.ctx,
        import_after(i, event).0.mode == i.mode,
        import_after(i, ImportEvent::Answered(RoomAnswer::Applied)).1 matches ImportNextView::Do(
            ImportStepView::Refresh(refresh),
        ) && refresh.doc_id == i.doc_id && refresh.actor_id == Some(i.ctx.user_id)
            && refresh.reindex_tasks && refresh.cache_ready == i.cache_ready
            && refresh.stores_ready == i.stores_ready && refresh.rooms_ready,
{
}

/// The way of a refresh: it gets the room, asks for the state, applies it and renders
/// it; it stores the text exactly where there is a cache, under the sequence number
/// of the state; it indexes the tasks exactly where it is to and the stores are there;
/// and then it answers the text.
pub proof fn law_the_way_of_a_refresh(run: RefreshRun, seq: i64, text: String)
    ensures
        run.refresh.rooms_ready <==> run.refresh.first() == RefreshNext::Do(
            RefreshStep::AcquireRoom,
        ),
        !run.refresh.rooms_ready <==> run.refresh.first() == RefreshNext::Fail(
            RefreshError::NoRooms,
        ),
        run.after(RefreshEvent::RoomAcquired) == (run, RefreshNext::Do(RefreshStep::AskState)),
        ({
            let (given, apply) = run.after(RefreshEvent::StateGiven { seq });
            let (applied, render) = given.after(RefreshEvent::StateApplied);
            let (rendered, first) = applied.after(RefreshEvent::TextRendered(text));
            let indexes = run.refresh.reindex_tasks && run.refresh.stores_ready;
            let behind = if run.refresh.cache_ready {
                rendered.after(RefreshEvent::CacheTried).1
            } else {
                first
            };
            &&& apply == RefreshNext::Do(RefreshStep::ApplyState)
            &&& render == RefreshNext::Do(RefreshStep::Serialise)
            &&& run.refresh.cache_ready <==> first == RefreshNext::Do(
                RefreshStep::PutCache { seq, text },
            )
            &&& indexes <==> behind == RefreshNext::Do(
                RefreshStep::IndexTasks { actor_id: run.refresh.actor_id, text },
            )
            &&& !indexes <==> behind == RefreshNext::Done(text)
            &&& rendered.after(RefreshEvent::IndexTried).1 == RefreshNext::Done(text)
        }),
{
}

/// What a refresh fails with is what went wrong, and it fails of nothing else: the
/// room could not be had, it was silent, it refused, its state does not apply, or the
/// text could not be rendered.
pub proof fn law_what_a_refresh_fails_with(run: RefreshRun, event: RefreshEvent, e: String)
    ensures
        run.after(RefreshEvent::RoomNotAcquired).1 == RefreshNext::Fail(
            RefreshError::Acquire(run.refresh.doc_id),
        ),
        run.after(RefreshEvent::RoomSilent).1 == RefreshNext::Fail(
            RefreshError::RoomUnreachable(run.refresh.doc_id),
        ),
        run.after(RefreshEvent::StateRefused(e)).1 == RefreshNext::Fail(RefreshError::Actor(e)),
        run.after(RefreshEvent::StateDoesNotApply(e)).1 == RefreshNext::Fail(
            RefreshError::Apply(e),
        ),
        run.after(RefreshEvent::TextNotRendered(e)).1 == RefreshNext::Fail(
            RefreshError::Serialise(e),
        ),
        run.after(event).1 is Fail ==> event is RoomNotAcquired || event is RoomSilent
            || event is StateRefused || event is StateDoesNotApply || event is TextNotRendered,
{
}

/// What is imported is the body, where it was read whole and is UTF-8, and nothing
/// else: the text's bytes are the body's. A body that was not read whole is refused
/// as such, and one that is no text as that.
pub proof fn law_what_is_imported_is_what_was_sent(body: Option<Vec<u8>>)
    ensures
        text_answer(body) is Ok <==> body is Some && vstd::utf8::valid_utf8(body->0@),
        text_answer(body) matches Ok(text) ==> vstd::utf8::encode_utf8(text) == body->0@,
        body is None ==> text_answer(body)->Err_0.status == 400,
        body is Some && !vstd::utf8::valid_utf8(body->0@) ==> text_answer(body)->Err_0.status == 422
            && text_answer(body)->Err_0.code == "markdown.not_utf8"@,
{
    if let Some(bytes) = body {
        if vstd::utf8::valid_utf8(bytes@) {
            law_import_keeps_the_text(bytes@);
        }
    }
}

/// What kinds of refreshes there are: those that index the document's tasks, after an
/// import on account of who imported and else of nobody unless one is named, and the
/// one that does not, of a template. Each is of the document that was asked for and
/// with what the server has.
pub proof fn law_refreshes_are_of_their_document(
    ctx: AuthContext,
    doc_id: Uuid,
    actor_id: Option<Uuid>,
    rooms_ready: bool,
    cache_ready: bool,
    stores_ready: bool,
)
    ensures
        ({
            let indexing = indexing_refresh(
                doc_id,
                actor_id,
                rooms_ready,
                cache_ready,
                stores_ready,
            );
            let importing = import_refresh(ctx, doc_id, rooms_ready, cache_ready, stores_ready);
            let text = text_refresh(doc_id, rooms_ready, cache_ready, stores_ready);
            &&& indexing.reindex_tasks && indexing.actor_id == actor_id
            &&& importing.reindex_tasks && importing.actor_id == Some(ctx.user_id)
            &&& !text.reindex_tasks && text.actor_id is None
            &&& indexing.doc_id == doc_id && importing.doc_id == doc_id && text.doc_id == doc_id
            &&& indexing.rooms_ready == rooms_ready && importing.rooms_ready == rooms_ready
                && text.rooms_ready == rooms_ready
            &&& indexing.cache_ready == cache_ready && importing.cache_ready == cache_ready
                && text.cache_ready == cache_ready
            &&& indexing.stores_ready == stores_ready && importing.stores_ready == stores_ready
                && text.stores_ready == stores_ready
        }),
{
}

/// Whether a text ends with another.
pub open spec fn ends_with(text: Seq<char>, end: Seq<char>) -> bool {
    text.len() >= end.len() && text.skip(text.len() - end.len()) == end
}

proof fn lemma_ends_with(start: Seq<char>, end: Seq<char>)
    ensures
        ends_with(start + end, end),
{
    assert((start + end).skip(start.len() as int) =~= end);
}

/// A failed refresh is reported with what is known of it: the document where its room
/// is at fault, and the detail that came with the failure.
pub proof fn law_a_failure_is_reported_with_its_detail(id: Uuid, detail: String)
    ensures
        ends_with(refresh_error_text(RefreshError::Acquire(id)), crate::ids::uuid_text(id)),
        ends_with(refresh_error_text(RefreshError::RoomUnreachable(id)), crate::ids::uuid_text(id)),
        ends_with(refresh_error_text(RefreshError::Actor(detail)), detail@),
        ends_with(refresh_error_text(RefreshError::Apply(detail)), detail@),
        ends_with(refresh_error_text(RefreshError::Serialise(detail)), detail@),
{
    lemma_ends_with("room acquire failed for "@, crate::ids::uuid_text(id));
    lemma_ends_with("room actor unreachable for "@, crate::ids::uuid_text(id));
    lemma_ends_with("room actor returned an error: "@, detail@);
    lemma_ends_with("yrs apply: "@, detail@);
    lemma_ends_with("markdown serialise: "@, detail@);
}

/// A document's tasks are indexed in the workspace that the document is in, and nowhere
/// where the document is not found.
pub proof fn law_tasks_are_indexed_where_the_document_is(
    found: Result<Option<Document>, DocStoreError>,
)
    ensures
        indexed_in(found) is Some <==> found is Ok && found->Ok_0 is Some,
        indexed_in(found) is Some ==> indexed_in(found)->0 == found->Ok_0->0.workspace_id,
{
}

} // verus!
