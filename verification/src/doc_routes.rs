//! The document endpoints: what each decides on the way from request to answer.
//!
//! - listing: [`list`], then the store;
//! - creating: [`create`], then reading the siblings, the gap of
//!   [`crate::placement::create_gap`], the store, [`doc_created`];
//! - reading: [`get_one`], then the store, [`doc_found`];
//! - renaming: [`rename`], then reading the document, [`rename_target`], the
//!   store, [`doc_changed`];
//! - moving: [`move_doc`], then reading the siblings, the gap of
//!   [`crate::placement::move_gap`], the store, [`doc_moved`];
//! - archiving and restoring: [`owner_change`], then the store, [`doc_archived`];
//! - marking a template: [`set_template`], then the store, [`doc_changed`];
//! - instantiating a template: [`from_template`], then what
//!   [`Instantiation::begin`] and [`Instantiation::next`] say.

use crate::access::{
    admit_editor, admit_owner, require_viewer, AuthContext, Caller, WorkspaceRole,
};
use crate::docs::{DocStoreError, Document};
use crate::http::{internal, refuse, Received, Refusal};
use crate::ids::{format_uuid, Uuid};
use crate::markdown::{export_markdown_only, Refresh, RoomAnswer};
use crate::placement::{last_gap, Gap};
use crate::text::join2;
use vstd::prelude::*;
use vstd::string::*;

verus! {

/// How many bytes of a request's body the document endpoints read.
pub const MAX_REQUEST_BYTES: usize = 65536;

/// A document as it is answered.
#[derive(Debug)]
pub struct DocResponse {
    pub id: String,
    pub workspace_id: String,
    pub parent_id: Option<String>,
    pub title: String,
    pub sort_key: String,
    pub icon: Option<String>,
    pub created_by: String,
    pub archived: bool,
    pub is_template: bool,
}

#[verifier::ext_equal]
pub struct DocResponseView {
    pub id: Seq<char>,
    pub workspace_id: Seq<char>,
    pub parent_id: Option<Seq<char>>,
    pub title: Seq<char>,
    pub sort_key: Seq<char>,
    pub icon: Option<Seq<char>>,
    pub created_by: Seq<char>,
    pub archived: bool,
    pub is_template: bool,
}

impl View for DocResponse {
    type V = DocResponseView;

    open spec fn view(&self) -> DocResponseView {
        DocResponseView {
            id: self.id@,
            workspace_id: self.workspace_id@,
            parent_id: crate::notifications::opt_text(self.parent_id),
            title: self.title@,
            sort_key: self.sort_key@,
            icon: crate::notifications::opt_text(self.icon),
            created_by: self.created_by@,
            archived: self.archived,
            is_template: self.is_template,
        }
    }
}

/// What a document is answered as.
pub open spec fn response(d: crate::docs::DocumentView) -> DocResponseView {
    DocResponseView {
        id: crate::ids::uuid_text(d.id),
        workspace_id: crate::ids::uuid_text(d.workspace_id),
        parent_id: match d.parent_id {
            Some(p) => Some(crate::ids::uuid_text(p)),
            None => None,
        },
        title: d.title,
        sort_key: d.sort_key,
        icon: d.icon,
        created_by: crate::ids::uuid_text(d.created_by),
        archived: d.archived_at is Some,
        is_template: d.is_template,
    }
}

/// What a document is answered as.
pub fn to_response(d: &Document) -> (r: DocResponse)
    ensures
        r@ == response(d@),
{
    DocResponse {
        id: format_uuid(d.id),
        workspace_id: format_uuid(d.workspace_id),
        parent_id: match d.parent_id {
            Some(p) => Some(format_uuid(p)),
            None => None,
        },
        title: d.title.clone(),
        sort_key: d.sort_key.clone(),
        icon: match &d.icon {
            Some(icon) => Some(icon.clone()),
            None => None,
        },
        created_by: format_uuid(d.created_by),
        archived: d.archived_at.is_some(),
        is_template: d.is_template,
    }
}

/// The refusal of a request for a document that is not there.
pub open spec fn no_document() -> crate::http::RefusalView {
    crate::http::refusal(404, "doc.not_found"@, ""@)
}

/// The refusal of a place that a sibling holds.
pub open spec fn sort_key_conflict() -> crate::http::RefusalView {
    crate::http::refusal(409, "doc.sort_key_conflict"@, ""@)
}

/// What answers a request that needs a session and the store.
pub open spec fn session_request(auth: Option<AuthContext>, store_ready: bool) -> Result<
    AuthContext,
    crate::http::RefusalView,
> {
    match auth {
        None => Err(crate::http::session_required()),
        Some(ctx) => if store_ready {
            Ok(ctx)
        } else {
            Err(crate::http::internal_error())
        },
    }
}

/// GET /api/docs and GET /api/workspace/templates: whether the request goes to
/// the store.
pub fn list(auth: Option<AuthContext>, store_ready: bool) -> (r: Result<AuthContext, Refusal>)
    ensures
        crate::http::answers(r, session_request(auth, store_ready)),
{
    match auth {
        None => Err(refuse(401, "auth.session_required")),
        Some(ctx) => if store_ready {
            Ok(ctx)
        } else {
            Err(internal())
        },
    }
}

/// The body of a request for a new document.
#[derive(Debug)]
pub struct CreateRequest {
    pub title: Option<String>,
    pub parent_id: Option<Uuid>,
    pub after_id: Option<Uuid>,
}

/// A document that is to be added.
#[derive(Debug)]
pub struct NewDoc {
    pub ctx: AuthContext,
    pub title: String,
    pub parent_id: Option<Uuid>,
    pub after_id: Option<Uuid>,
}

#[verifier::ext_equal]
pub struct NewDocView {
    pub ctx: AuthContext,
    pub title: Seq<char>,
    pub parent_id: Option<Uuid>,
    pub after_id: Option<Uuid>,
}

impl View for NewDoc {
    type V = NewDocView;

    open spec fn view(&self) -> NewDocView {
        NewDocView {
            ctx: self.ctx,
            title: self.title@,
            parent_id: self.parent_id,
            after_id: self.after_id,
        }
    }
}

/// What answers someone who may not add documents to the workspace.
pub open spec fn workspace_editor(auth: Option<AuthContext>) -> Result<
    AuthContext,
    crate::http::RefusalView,
> {
    match auth {
        None => Err(crate::http::session_required()),
        Some(ctx) => if ctx.role == WorkspaceRole::Viewer {
            Err(crate::http::refusal(403, "acl.editor_required"@, ""@))
        } else {
            Ok(ctx)
        },
    }
}

/// The session of someone who may add documents to the workspace.
pub fn admit_workspace_editor(auth: Option<AuthContext>) -> (r: Result<AuthContext, Refusal>)
    ensures
        crate::http::answers(r, workspace_editor(auth)),
{
    match auth {
        None => Err(refuse(401, "auth.session_required")),
        Some(ctx) => if ctx.role == WorkspaceRole::Viewer {
            Err(refuse(403, "acl.editor_required"))
        } else {
            Ok(ctx)
        },
    }
}

/// What answers a request for a new document.
pub open spec fn create_request(
    auth: Option<AuthContext>,
    received: Received<CreateRequest>,
    store_ready: bool,
) -> Result<NewDocView, crate::http::RefusalView> {
    match workspace_editor(auth) {
        Err(refused) => Err(refused),
        Ok(ctx) => match received {
            Received::Parsed(b) => if !store_ready {
                Err(crate::http::internal_error())
            } else {
                Ok(
                    NewDocView {
                        ctx,
                        title: match b.title {
                            Some(t) => t@,
                            None => "Untitled"@,
                        },
                        parent_id: b.parent_id,
                        after_id: b.after_id,
                    },
                )
            },
            _ => Err(crate::http::bad_request()),
        },
    }
}

/// POST /api/docs: whether the request gets to read the siblings.
pub fn create(
    auth: Option<AuthContext>,
    received: Received<CreateRequest>,
    store_ready: bool,
) -> (r: Result<NewDoc, Refusal>)
    ensures
        crate::http::answers_view(r, create_request(auth, received, store_ready)),
{
    let ctx = match admit_workspace_editor(auth) {
        Ok(ctx) => ctx,
        Err(refused) => return Err(refused),
    };
    let b = match received {
        Received::Parsed(b) => b,
        _ => return Err(refuse(400, "bad_request")),
    };
    if !store_ready {
        return Err(internal());
    }
    let title = match b.title {
        Some(t) => t,
        None => "Untitled".to_owned(),
    };
    Ok(NewDoc { ctx, title, parent_id: b.parent_id, after_id: b.after_id })
}

/// What answers a request for a new document that went to the store.
pub open spec fn created_answer(outcome: Result<Document, DocStoreError>) -> Result<
    (u16, DocResponseView),
    crate::http::RefusalView,
> {
    match outcome {
        Ok(d) => Ok((201u16, response(d@))),
        Err(DocStoreError::Conflict) => Err(sort_key_conflict()),
        Err(_) => Err(crate::http::internal_error()),
    }
}

/// Answers a request for a new document that went to the store. A place that a
/// sibling took meanwhile is the client's to choose again.
pub fn doc_created(outcome: &Result<Document, DocStoreError>) -> (r: Result<
    (u16, DocResponse),
    Refusal,
>)
    ensures
        match (r, created_answer(*outcome)) {
            (Ok(a), Ok(b)) => a.0 == b.0 && a.1@ == b.1,
            (Err(a), Err(b)) => a@ == b,
            _ => false,
        },
{
    match outcome {
        Ok(d) => Ok((201, to_response(d))),
        Err(DocStoreError::Conflict) => Err(refuse(409, "doc.sort_key_conflict")),
        Err(_) => Err(internal()),
    }
}

/// What answers a request to read a document before it is looked up.
pub open spec fn get_request(caller: Caller, store_ready: bool) -> Result<
    WorkspaceRole,
    crate::http::RefusalView,
> {
    match crate::access::viewer_gate(caller) {
        Some(refused) => Err(refused),
        None => if store_ready {
            Ok(caller.doc_role->0)
        } else {
            Err(crate::http::internal_error())
        },
    }
}

/// GET /api/docs/{id}: whether the document is looked up, and the caller's role
/// on it.
pub fn get_one(caller: &Caller, store_ready: bool) -> (r: Result<WorkspaceRole, Refusal>)
    ensures
        crate::http::answers(r, get_request(*caller, store_ready)),
{
    if let Some(refused) = require_viewer(caller) {
        return Err(refused);
    }
    if !store_ready {
        return Err(internal());
    }
    match caller.doc_role {
        Some(role) => Ok(role),
        None => Err(refuse(403, "acl.no_grant")),
    }
}

/// A document with the reader's role on it.
#[derive(Debug)]
pub struct GetResponse {
    pub doc: DocResponse,
    pub effective_role: String,
}

#[verifier::ext_equal]
pub struct GetResponseView {
    pub doc: DocResponseView,
    pub effective_role: Seq<char>,
}

impl View for GetResponse {
    type V = GetResponseView;

    open spec fn view(&self) -> GetResponseView {
        GetResponseView { doc: self.doc@, effective_role: self.effective_role@ }
    }
}

/// What a lookup gave, or what answers the request.
pub open spec fn looked_up(found: Result<Option<Document>, DocStoreError>) -> Result<
    Document,
    crate::http::RefusalView,
> {
    match found {
        Ok(Some(d)) => Ok(d),
        Ok(None) => Err(no_document()),
        Err(_) => Err(crate::http::internal_error()),
    }
}

/// What answers a request for a document that was looked up.
pub open spec fn found_answer(
    role: WorkspaceRole,
    found: Result<Option<Document>, DocStoreError>,
) -> Result<GetResponseView, crate::http::RefusalView> {
    match looked_up(found) {
        Ok(d) => Ok(
            GetResponseView {
                doc: response(d@),
                effective_role: crate::access::role_text(role),
            },
        ),
        Err(refused) => Err(refused),
    }
}

/// Answers a request for a document that was looked up.
pub fn doc_found(
    role: WorkspaceRole,
    found: &Result<Option<Document>, DocStoreError>,
) -> (r: Result<GetResponse, Refusal>)
    ensures
        crate::http::answers_view(r, found_answer(role, *found)),
{
    match found {
        Ok(Some(d)) => Ok(
            GetResponse { doc: to_response(d), effective_role: role.as_str().to_owned() },
        ),
        Ok(None) => Err(refuse(404, "doc.not_found")),
        Err(_) => Err(internal()),
    }
}

/// The body of a request to rename a document.
#[derive(Debug)]
pub struct PatchRequest {
    pub title: Option<String>,
    pub icon: Option<String>,
}

/// What answers a request that changes a document and has a body, before the
/// store is asked.
pub open spec fn edit_request<T>(
    caller: Caller,
    gate: Option<crate::http::RefusalView>,
    received: Received<T>,
    store_ready: bool,
) -> Result<(AuthContext, T), crate::http::RefusalView> {
    match crate::access::admitted(caller, gate) {
        Err(refused) => Err(refused),
        Ok(ctx) => match received {
            Received::Parsed(b) => if store_ready {
                Ok((ctx, b))
            } else {
                Err(crate::http::internal_error())
            },
            _ => Err(crate::http::bad_request()),
        },
    }
}

fn received_after<T>(
    ctx: AuthContext,
    received: Received<T>,
    store_ready: bool,
) -> (r: Result<(AuthContext, T), Refusal>)
    ensures
        crate::http::answers(
            r,
            match received {
                Received::Parsed(b) => if store_ready {
                    Ok((ctx, b))
                } else {
                    Err(crate::http::internal_error())
                },
                _ => Err(crate::http::bad_request()),
            },
        ),
{
    let b = match received {
        Received::Parsed(b) => b,
        _ => return Err(refuse(400, "bad_request")),
    };
    if !store_ready {
        return Err(internal());
    }
    Ok((ctx, b))
}

/// PATCH /api/docs/{id}: whether the request gets to read the document.
pub fn rename(
    caller: &Caller,
    received: Received<PatchRequest>,
    store_ready: bool,
) -> (r: Result<(AuthContext, PatchRequest), Refusal>)
    ensures
        crate::http::answers(
            r,
            edit_request(*caller, crate::access::editor_gate(*caller), received, store_ready),
        ),
{
    match admit_editor(caller) {
        Ok(ctx) => received_after(ctx, received, store_ready),
        Err(refused) => Err(refused),
    }
}

/// What the store is to rename a document to.
#[derive(Debug)]
pub struct Rename {
    pub title: String,
    pub icon: Option<String>,
}

#[verifier::ext_equal]
pub struct RenameView {
    pub title: Seq<char>,
    pub icon: Option<Seq<char>>,
}

impl View for Rename {
    type V = RenameView;

    open spec fn view(&self) -> RenameView {
        RenameView { title: self.title@, icon: crate::notifications::opt_text(self.icon) }
    }
}

/// What a document that was looked up is renamed to: without a title in the
/// request it keeps its own.
pub open spec fn rename_answer(
    request: PatchRequest,
    found: Result<Option<Document>, DocStoreError>,
) -> Result<RenameView, crate::http::RefusalView> {
    match looked_up(found) {
        Ok(d) => Ok(
            RenameView {
                title: match request.title {
                    Some(t) => t@,
                    None => d.title@,
                },
                icon: crate::notifications::opt_text(request.icon),
            },
        ),
        Err(refused) => Err(refused),
    }
}

/// What a document that was looked up is renamed to: without a title in the
/// request it keeps its own.
pub fn rename_target(
    request: PatchRequest,
    found: &Result<Option<Document>, DocStoreError>,
) -> (r: Result<Rename, Refusal>)
    ensures
        crate::http::answers_view(r, rename_answer(request, *found)),
{
    let d = match found {
        Ok(Some(d)) => d,
        Ok(None) => return Err(refuse(404, "doc.not_found")),
        Err(_) => return Err(internal()),
    };
    let title = match request.title {
        Some(t) => t,
        None => d.title.clone(),
    };
    Ok(Rename { title, icon: request.icon })
}

/// What answers a request to rename a document or to mark it a template that went
/// to the store.
pub open spec fn changed_answer(outcome: Result<Document, DocStoreError>) -> Result<
    DocResponseView,
    crate::http::RefusalView,
> {
    match outcome {
        Ok(d) => Ok(response(d@)),
        Err(DocStoreError::NotFound) => Err(no_document()),
        Err(_) => Err(crate::http::internal_error()),
    }
}

/// Answers a request to rename a document or to mark it a template that went to
/// the store.
pub fn doc_changed(outcome: &Result<Document, DocStoreError>) -> (r: Result<DocResponse, Refusal>)
    ensures
        crate::http::answers_view(r, changed_answer(*outcome)),
{
    match outcome {
        Ok(d) => Ok(to_response(d)),
        Err(DocStoreError::NotFound) => Err(refuse(404, "doc.not_found")),
        Err(_) => Err(internal()),
    }
}

/// The body of a request to move a document. Without a parent it moves to the
/// root.
#[derive(Debug)]
pub struct MoveRequest {
    pub parent_id: Option<Uuid>,
    pub after_id: Option<Uuid>,
    pub before_id: Option<Uuid>,
}

/// POST /api/docs/{id}/move: whether the request gets to read the siblings.
pub fn move_doc(
    caller: &Caller,
    received: Received<MoveRequest>,
    store_ready: bool,
) -> (r: Result<(AuthContext, MoveRequest), Refusal>)
    ensures
        crate::http::answers(
            r,
            edit_request(*caller, crate::access::editor_gate(*caller), received, store_ready),
        ),
{
    match admit_editor(caller) {
        Ok(ctx) => received_after(ctx, received, store_ready),
        Err(refused) => Err(refused),
    }
}

/// What answers a request to move a document that went to the store.
pub open spec fn moved_answer(outcome: Result<Document, DocStoreError>) -> Result<
    DocResponseView,
    crate::http::RefusalView,
> {
    match outcome {
        Ok(d) => Ok(response(d@)),
        Err(DocStoreError::NotFound) => Err(no_document()),
        Err(DocStoreError::Conflict) => Err(sort_key_conflict()),
        Err(DocStoreError::Cycle) => Err(crate::http::refusal(409, "doc.move_cycle"@, ""@)),
        Err(DocStoreError::Other) => Err(crate::http::internal_error()),
    }
}

/// Answers a request to move a document that went to the store.
pub fn doc_moved(outcome: &Result<Document, DocStoreError>) -> (r: Result<DocResponse, Refusal>)
    ensures
        crate::http::answers_view(r, moved_answer(*outcome)),
{
    match outcome {
        Ok(d) => Ok(to_response(d)),
        Err(DocStoreError::NotFound) => Err(refuse(404, "doc.not_found")),
        Err(DocStoreError::Conflict) => Err(refuse(409, "doc.sort_key_conflict")),
        Err(DocStoreError::Cycle) => Err(refuse(409, "doc.move_cycle")),
        Err(DocStoreError::Other) => Err(internal()),
    }
}

/// DELETE /api/docs/{id} and POST /api/docs/{id}/restore: whether the request
/// goes to the store.
pub fn owner_change(caller: &Caller, store_ready: bool) -> (r: Result<AuthContext, Refusal>)
    ensures
        crate::http::answers(r, crate::access::owner_request(*caller, store_ready)),
{
    match admit_owner(caller) {
        Err(refused) => Err(refused),
        Ok(ctx) => if store_ready {
            Ok(ctx)
        } else {
            Err(internal())
        },
    }
}

/// What answers a request to archive or restore a document that went to the store.
pub open spec fn archived_answer(outcome: Result<(), DocStoreError>) -> Result<
    u16,
    crate::http::RefusalView,
> {
    match outcome {
        Ok(_) => Ok(204u16),
        Err(DocStoreError::NotFound) => Err(no_document()),
        Err(_) => Err(crate::http::internal_error()),
    }
}

/// Answers a request to archive or restore a document that went to the store.
pub fn doc_archived(outcome: &Result<(), DocStoreError>) -> (r: Result<u16, Refusal>)
    ensures
        crate::http::answers(r, archived_answer(*outcome)),
{
    match outcome {
        Ok(_) => Ok(204),
        Err(DocStoreError::NotFound) => Err(refuse(404, "doc.not_found")),
        Err(_) => Err(internal()),
    }
}

/// The body of a request to mark a template.
#[derive(Debug)]
pub struct SetTemplateRequest {
    pub is_template: bool,
}

/// POST /api/docs/{id}/template: whether the request goes to the store.
pub fn set_template(
    caller: &Caller,
    received: Received<SetTemplateRequest>,
    store_ready: bool,
) -> (r: Result<(AuthContext, SetTemplateRequest), Refusal>)
    ensures
        crate::http::answers(
            r,
            edit_request(*caller, crate::access::owner_gate(*caller), received, store_ready),
        ),
{
    match admit_owner(caller) {
        Ok(ctx) => received_after(ctx, received, store_ready),
        Err(refused) => Err(refused),
    }
}

/// The body of a request to instantiate a template.
#[derive(Debug)]
pub struct FromTemplateRequest {
    pub title: Option<String>,
    pub parent_id: Option<Uuid>,
}

/// What answers a request to instantiate a template before its text is read.
pub open spec fn template_request(
    auth: Option<AuthContext>,
    received: Received<FromTemplateRequest>,
    store_ready: bool,
) -> Result<(AuthContext, FromTemplateRequest), crate::http::RefusalView> {
    match workspace_editor(auth) {
        Err(refused) => Err(refused),
        Ok(ctx) => match received {
            Received::Parsed(b) => if store_ready {
                Ok((ctx, b))
            } else {
                Err(crate::http::internal_error())
            },
            _ => Err(crate::http::bad_request()),
        },
    }
}

/// POST /api/docs/from-template/{id}: whether the template's text is read.
pub fn from_template(
    auth: Option<AuthContext>,
    received: Received<FromTemplateRequest>,
    store_ready: bool,
) -> (r: Result<(AuthContext, FromTemplateRequest), Refusal>)
    ensures
        crate::http::answers(r, template_request(auth, received, store_ready)),
{
    match admit_workspace_editor(auth) {
        Ok(ctx) => received_after(ctx, received, store_ready),
        Err(refused) => Err(refused),
    }
}

/// Whether a character is white space: the characters with the Unicode property
/// `White_Space`.
pub open spec fn is_white(c: char) -> bool {
    let n = c as int;
    ||| 0x9 <= n <= 0xd
    ||| n == 0x20
    ||| n == 0x85
    ||| n == 0xa0
    ||| n == 0x1680
    ||| 0x2000 <= n <= 0x200a
    ||| n == 0x2028
    ||| n == 0x2029
    ||| n == 0x202f
    ||| n == 0x205f
    ||| n == 0x3000
}

/// Whether a text holds nothing but white space.
pub open spec fn is_blank_text(text: Seq<char>) -> bool {
    forall|i: int| 0 <= i < text.len() ==> is_white(#[trigger] text[i])
}

/// Whether a character is white space.
pub fn is_whitespace(c: char) -> (r: bool)
    ensures
        r == is_white(c),
{
    let n: u32 = c as u32;
    (0x9 <= n && n <= 0xd) || n == 0x20 || n == 0x85 || n == 0xa0 || n == 0x1680 || (0x2000 <= n
        && n <= 0x200a) || n == 0x2028 || n == 0x2029 || n == 0x202f || n == 0x205f || n == 0x3000
}

/// Whether a text holds nothing but white space.
pub fn is_blank(text: &str) -> (r: bool)
    ensures
        r == is_blank_text(text@),
{
    for c in it: text.chars()
        invariant
            it.seq() == text@,
            forall|i: int| 0 <= i < it.index() ==> is_white(#[trigger] text@[i]),
    {
        if !is_whitespace(c) {
            return false;
        }
    }
    true
}

/// The title of an instantiated template: the one asked for, unless it is blank;
/// else that of the template with " copy" behind it; else "Untitled".
pub open spec fn title_from(
    requested: Option<Seq<char>>,
    blank: bool,
    template: Option<Seq<char>>,
) -> Seq<char> {
    match (requested, template) {
        (Some(t), _) if !blank => t,
        (_, Some(t)) => t + " copy"@,
        (_, None) => "Untitled"@,
    }
}

/// The title of an instantiated template, given whether the one asked for is
/// blank.
pub fn choose_title(requested: Option<String>, blank: bool, template: Option<&str>) -> (r: String)
    ensures
        r@ == title_from(
            crate::notifications::opt_text(requested),
            blank,
            match template {
                Some(t) => Some(t@),
                None => None,
            },
        ),
{
    match requested {
        Some(t) => {
            if !blank {
                return t;
            }
        },
        None => {},
    }
    match template {
        Some(t) => join2(t, " copy"),
        None => "Untitled".to_owned(),
    }
}

/// The title of an instantiated template. `template` is the template as it was
/// looked up.
pub fn template_title(
    requested: Option<String>,
    template: &Result<Option<Document>, DocStoreError>,
) -> (r: String)
    ensures
        r@ == title_from(
            crate::notifications::opt_text(requested),
            requested is Some && is_blank_text(requested->0@),
            match *template {
                Ok(Some(d)) => Some(d.title@),
                _ => None,
            },
        ),
        requested is Some && !is_blank_text(requested->0@) ==> r@ == requested->0@,
{
    let blank = match &requested {
        Some(t) => is_blank(t.as_str()),
        None => false,
    };
    match template {
        Ok(Some(d)) => choose_title(requested, blank, Some(d.title.as_str())),
        _ => choose_title(requested, blank, None),
    }
}

/// A step of instantiating a template.
#[derive(Debug)]
pub enum TemplateStep {
    /// Reads the template's text.
    Export(Refresh),
    /// Reads the siblings that the new document will have.
    ReadSiblings { workspace_id: Uuid, parent_id: Option<Uuid> },
    /// Looks the template up, for its title.
    FindTemplate { template_id: Uuid },
    /// Adds the new document, with a sort key out of the gap.
    Create {
        workspace_id: Uuid,
        parent_id: Option<Uuid>,
        title: String,
        gap: Gap,
        created_by: Uuid,
    },
    /// Turns the text into an update.
    Parse { text: String },
    /// Gets the new document's room.
    AcquireRoom { doc_id: Uuid },
    /// Applies the update there.
    Apply { update: Vec<u8>, by_user: Uuid },
}

#[verifier::ext_equal]
pub enum TemplateStepView {
    Export(Refresh),
    ReadSiblings { workspace_id: Uuid, parent_id: Option<Uuid> },
    FindTemplate { template_id: Uuid },
    Create {
        workspace_id: Uuid,
        parent_id: Option<Uuid>,
        title: Seq<char>,
        gap: crate::placement::GapView,
        created_by: Uuid,
    },
    Parse { text: Seq<char> },
    AcquireRoom { doc_id: Uuid },
    Apply { update: Seq<u8>, by_user: Uuid },
}

impl View for TemplateStep {
    type V = TemplateStepView;

    open spec fn view(&self) -> TemplateStepView {
        match *self {
            TemplateStep::Export(refresh) => TemplateStepView::Export(refresh),
            TemplateStep::ReadSiblings { workspace_id, parent_id } => {
                TemplateStepView::ReadSiblings { workspace_id, parent_id }
            },
            TemplateStep::FindTemplate { template_id } => {
                TemplateStepView::FindTemplate { template_id }
            },
            TemplateStep::Create { workspace_id, parent_id, title, gap, created_by } => {
                TemplateStepView::Create {
                    workspace_id,
                    parent_id,
                    title: title@,
                    gap: gap@,
                    created_by,
                }
            },
            TemplateStep::Parse { text } => TemplateStepView::Parse { text: text@ },
            TemplateStep::AcquireRoom { doc_id } => TemplateStepView::AcquireRoom { doc_id },
            TemplateStep::Apply { update, by_user } => {
                TemplateStepView::Apply { update: update@, by_user }
            },
        }
    }
}

/// What came of a step of instantiating a template.
#[derive(Debug)]
pub enum TemplateEvent {
    /// The template's text, or nothing where it could not be read.
    Exported(Option<String>),
    SiblingsRead(Option<Vec<Document>>),
    TemplateFound(Result<Option<Document>, DocStoreError>),
    Created(Document),
    NotCreated(DocStoreError),
    /// The update that the text makes, or nothing where it makes none.
    Parsed(Option<Vec<u8>>),
    RoomAcquired(bool),
    Answered(RoomAnswer),
}

/// What comes next in instantiating a template.
#[derive(Debug)]
pub enum TemplateNext {
    Do(TemplateStep),
    Refuse(Refusal),
    /// The request is answered with this status and the new document.
    Answer(u16, DocResponse),
}

#[verifier::ext_equal]
pub enum TemplateNextView {
    Do(TemplateStepView),
    Refuse(crate::http::RefusalView),
    Answer(u16, DocResponseView),
}

impl View for TemplateNext {
    type V = TemplateNextView;

    open spec fn view(&self) -> TemplateNextView {
        match *self {
            TemplateNext::Do(step) => TemplateNextView::Do(step@),
            TemplateNext::Refuse(r) => TemplateNextView::Refuse(r@),
            TemplateNext::Answer(status, doc) => TemplateNextView::Answer(status, doc@),
        }
    }
}

/// The instantiation of a template: who asks for what, whether the rooms are
/// there, and what the steps have brought so far.
#[derive(Debug)]
pub struct Instantiation {
    ctx: AuthContext,
    template_id: Uuid,
    title: Option<String>,
    parent_id: Option<Uuid>,
    rooms_ready: bool,
    text: String,
    gap: Gap,
    doc: Option<Document>,
    update: Vec<u8>,
}

#[verifier::ext_equal]
pub struct InstantiationView {
    pub ctx: AuthContext,
    pub template_id: Uuid,
    pub title: Option<Seq<char>>,
    pub parent_id: Option<Uuid>,
    pub rooms_ready: bool,
    pub text: Seq<char>,
    pub gap: crate::placement::GapView,
    pub doc: Option<crate::docs::DocumentView>,
    pub update: Seq<u8>,
}

impl View for Instantiation {
    type V = InstantiationView;

    closed spec fn view(&self) -> InstantiationView {
        InstantiationView {
            ctx: self.ctx,
            template_id: self.template_id,
            title: crate::notifications::opt_text(self.title),
            parent_id: self.parent_id,
            rooms_ready: self.rooms_ready,
            text: self.text@,
            gap: self.gap@,
            doc: match self.doc {
                Some(d) => Some(d@),
                None => None,
            },
            update: self.update@,
        }
    }
}

/// The gap with both ends open.
pub open spec fn open_gap() -> crate::placement::GapView {
    crate::placement::GapView { after: None, before: None }
}

/// The step that adds the new document under a title.
pub open spec fn create_step(
    i: InstantiationView,
    title: Seq<char>,
    gap: crate::placement::GapView,
) -> TemplateNextView {
    TemplateNextView::Do(
        TemplateStepView::Create {
            workspace_id: i.ctx.workspace_id,
            parent_id: i.parent_id,
            title,
            gap,
            created_by: i.ctx.user_id,
        },
    )
}

/// Whether a title is asked for that is not blank. If not, the template is looked
/// up for its title.
pub open spec fn has_title(i: InstantiationView) -> bool {
    i.title is Some && !is_blank_text(i.title->0)
}

/// What becomes of an instantiation after a step, and what comes next. The
/// document is added before its text is parsed, so it stays, empty, where what
/// follows fails.
pub open spec fn template_after(i: InstantiationView, event: TemplateEvent) -> (
    InstantiationView,
    TemplateNextView,
) {
    let failed = (i, TemplateNextView::Refuse(crate::http::internal_error()));
    match event {
        TemplateEvent::Exported(Some(text)) => (
            InstantiationView { text: text@, ..i },
            TemplateNextView::Do(
                TemplateStepView::ReadSiblings {
                    workspace_id: i.ctx.workspace_id,
                    parent_id: i.parent_id,
                },
            ),
        ),
        TemplateEvent::SiblingsRead(Some(siblings)) => {
            let gap = crate::placement::gap_at(siblings@, siblings@.len() as int);
            if has_title(i) {
                (i, create_step(i, i.title->0, gap))
            } else {
                (
                    InstantiationView { gap, ..i },
                    TemplateNextView::Do(
                        TemplateStepView::FindTemplate { template_id: i.template_id },
                    ),
                )
            }
        },
        TemplateEvent::TemplateFound(found) => (
            InstantiationView { gap: open_gap(), ..i },
            create_step(
                i,
                title_from(
                    i.title,
                    !has_title(i),
                    match found {
                        Ok(Some(d)) => Some(d.title@),
                        _ => None,
                    },
                ),
                i.gap,
            ),
        ),
        TemplateEvent::Created(doc) => (
            InstantiationView { doc: Some(doc@), text: ""@, ..i },
            TemplateNextView::Do(TemplateStepView::Parse { text: i.text }),
        ),
        TemplateEvent::NotCreated(DocStoreError::Conflict) => (
            i,
            TemplateNextView::Refuse(sort_key_conflict()),
        ),
        TemplateEvent::Parsed(None) => (
            i,
            TemplateNextView::Refuse(crate::http::refusal(422, "markdown.parse"@, ""@)),
        ),
        TemplateEvent::Parsed(Some(update)) if i.rooms_ready && i.doc is Some => (
            InstantiationView { update: update@, ..i },
            TemplateNextView::Do(TemplateStepView::AcquireRoom { doc_id: i.doc->0.id }),
        ),
        TemplateEvent::RoomAcquired(true) => (
            InstantiationView { update: Seq::empty(), ..i },
            TemplateNextView::Do(
                TemplateStepView::Apply { update: i.update, by_user: i.ctx.user_id },
            ),
        ),
        TemplateEvent::Answered(RoomAnswer::Applied) if i.doc is Some => (
            i,
            TemplateNextView::Answer(201, response(i.doc->0)),
        ),
        TemplateEvent::Answered(RoomAnswer::Rejected) => (
            i,
            TemplateNextView::Refuse(crate::http::refusal(422, "markdown.apply"@, ""@)),
        ),
        _ => failed,
    }
}

impl Instantiation {
    /// The instantiation that was asked for, and its first step: reading the
    /// template's text, without touching the template's own tasks.
    pub fn begin(
        ctx: AuthContext,
        template_id: Uuid,
        request: FromTemplateRequest,
        rooms_ready: bool,
        cache_ready: bool,
        stores_ready: bool,
    ) -> (r: (Instantiation, TemplateStep))
        ensures
            r.0@ == (InstantiationView {
                ctx,
                template_id,
                title: crate::notifications::opt_text(request.title),
                parent_id: request.parent_id,
                rooms_ready,
                text: ""@,
                gap: open_gap(),
                doc: None,
                update: Seq::empty(),
            }),
            r.1@ == TemplateStepView::Export(
                Refresh {
                    doc_id: template_id,
                    reindex_tasks: false,
                    actor_id: None,
                    rooms_ready,
                    cache_ready,
                    stores_ready,
                },
            ),
    {
        let i = Instantiation {
            ctx,
            template_id,
            title: request.title,
            parent_id: request.parent_id,
            rooms_ready,
            text: "".to_owned(),
            gap: Gap { after: None, before: None },
            doc: None,
            update: Vec::new(),
        };
        let refresh = export_markdown_only(template_id, rooms_ready, cache_ready, stores_ready);
        (i, TemplateStep::Export(refresh))
    }

    fn failed(self) -> (r: (Instantiation, TemplateNext))
        ensures
            r.0@ == self@,
            r.1@ == TemplateNextView::Refuse(crate::http::internal_error()),
    {
        (self, TemplateNext::Refuse(internal()))
    }

    fn siblings_read(self, siblings: Vec<Document>) -> (r: (Instantiation, TemplateNext))
        ensures
            (r.0@, r.1@) == template_after(
                self@,
                TemplateEvent::SiblingsRead(Some(siblings)),
            ),
    {
        let gap = last_gap(&siblings);
        let asked = match &self.title {
            Some(t) => if is_blank(t.as_str()) {
                None
            } else {
                Some(t.clone())
            },
            None => None,
        };
        match asked {
            Some(title) => {
                let step = TemplateStep::Create {
                    workspace_id: self.ctx.workspace_id,
                    parent_id: self.parent_id,
                    title,
                    gap,
                    created_by: self.ctx.user_id,
                };
                (self, TemplateNext::Do(step))
            },
            None => {
                let template_id = self.template_id;
                (
                    Instantiation { gap, ..self },
                    TemplateNext::Do(TemplateStep::FindTemplate { template_id }),
                )
            },
        }
    }

    fn template_found(self, found: Result<Option<Document>, DocStoreError>) -> (r: (
        Instantiation,
        TemplateNext,
    ))
        ensures
            (r.0@, r.1@) == template_after(self@, TemplateEvent::TemplateFound(found)),
    {
        let requested = match &self.title {
            Some(t) => Some(t.clone()),
            None => None,
        };
        let title = template_title(requested, &found);
        let step = TemplateStep::Create {
            workspace_id: self.ctx.workspace_id,
            parent_id: self.parent_id,
            title,
            gap: self.gap,
            created_by: self.ctx.user_id,
        };
        let rest = Instantiation {
            ctx: self.ctx,
            template_id: self.template_id,
            title: self.title,
            parent_id: self.parent_id,
            rooms_ready: self.rooms_ready,
            text: self.text,
            gap: Gap { after: None, before: None },
            doc: self.doc,
            update: self.update,
        };
        (rest, TemplateNext::Do(step))
    }

    fn created(self, doc: Document) -> (r: (Instantiation, TemplateNext))
        ensures
            (r.0@, r.1@) == template_after(self@, TemplateEvent::Created(doc)),
    {
        let step = TemplateStep::Parse { text: self.text };
        let rest = Instantiation {
            ctx: self.ctx,
            template_id: self.template_id,
            title: self.title,
            parent_id: self.parent_id,
            rooms_ready: self.rooms_ready,
            text: "".to_owned(),
            gap: self.gap,
            doc: Some(doc),
            update: self.update,
        };
        (rest, TemplateNext::Do(step))
    }

    fn room_acquired(self) -> (r: (Instantiation, TemplateNext))
        ensures
            (r.0@, r.1@) == template_after(self@, TemplateEvent::RoomAcquired(true)),
    {
        let step = TemplateStep::Apply { update: self.update, by_user: self.ctx.user_id };
        let rest = Instantiation {
            ctx: self.ctx,
            template_id: self.template_id,
            title: self.title,
            parent_id: self.parent_id,
            rooms_ready: self.rooms_ready,
            text: self.text,
            gap: self.gap,
            doc: self.doc,
            update: Vec::new(),
        };
        (rest, TemplateNext::Do(step))
    }

    /// The instantiation after a step, and what comes next.
    pub fn next(self, event: TemplateEvent) -> (r: (Instantiation, TemplateNext))
        ensures
            (r.0@, r.1@) == template_after(self@, event),
    {
        match event {
            TemplateEvent::Exported(exported) => match exported {
                Some(text) => {
                    let step = TemplateStep::ReadSiblings {
                        workspace_id: self.ctx.workspace_id,
                        parent_id: self.parent_id,
                    };
                    (Instantiation { text, ..self }, TemplateNext::Do(step))
                },
                None => self.failed(),
            },
            TemplateEvent::SiblingsRead(read) => match read {
                Some(siblings) => self.siblings_read(siblings),
                None => self.failed(),
            },
            TemplateEvent::TemplateFound(found) => self.template_found(found),
            TemplateEvent::Created(doc) => self.created(doc),
            TemplateEvent::NotCreated(e) => match e {
                DocStoreError::Conflict => (
                    self,
                    TemplateNext::Refuse(refuse(409, "doc.sort_key_conflict")),
                ),
                _ => self.failed(),
            },
            TemplateEvent::Parsed(parsed) => match parsed {
                None => (self, TemplateNext::Refuse(refuse(422, "markdown.parse"))),
                Some(update) => {
                    let room = match &self.doc {
                        Some(d) => if self.rooms_ready {
                            Some(d.id)
                        } else {
                            None
                        },
                        None => None,
                    };
                    match room {
                        Some(doc_id) => (
                            Instantiation { update, ..self },
                            TemplateNext::Do(TemplateStep::AcquireRoom { doc_id }),
                        ),
                        None => self.failed(),
                    }
                },
            },
            TemplateEvent::RoomAcquired(acquired) => if acquired {
                self.room_acquired()
            } else {
                self.failed()
            },
            TemplateEvent::Answered(answer) => match answer {
                RoomAnswer::Applied => {
                    let doc = match &self.doc {
                        Some(d) => Some(to_response(d)),
                        None => None,
                    };
                    match doc {
                        Some(doc) => (self, TemplateNext::Answer(201, doc)),
                        None => self.failed(),
                    }
                },
                RoomAnswer::Rejected => (
                    self,
                    TemplateNext::Refuse(refuse(422, "markdown.apply")),
                ),
                RoomAnswer::Unreachable => self.failed(),
            },
        }
    }
}

/// The new document gets the template's text: what is parsed is the text that was
/// read, what its room applies is the update that the text made, on account of
/// the caller, and what is answered is the document that was added.
pub proof fn law_an_instance_gets_the_text_of_its_template(
    i: InstantiationView,
    text: String,
    siblings: Vec<Document>,
    found: Result<Option<Document>, DocStoreError>,
    doc: Document,
    update: Vec<u8>,
)
    requires
        i.rooms_ready,
    ensures
        ({
            let (read, ask) = template_after(i, TemplateEvent::Exported(Some(text)));
            let (placed, next) = template_after(read, TemplateEvent::SiblingsRead(Some(siblings)));
            let (named, create) = if has_title(i) {
                (placed, next)
            } else {
                template_after(placed, TemplateEvent::TemplateFound(found))
            };
            let (added, parse) = template_after(named, TemplateEvent::Created(doc));
            let (parsed, acquire) = template_after(added, TemplateEvent::Parsed(Some(update)));
            let (acquired, apply) = template_after(parsed, TemplateEvent::RoomAcquired(true));
            let (done, answer) = template_after(
                acquired,
                TemplateEvent::Answered(RoomAnswer::Applied),
            );
            &&& create == create_step(
                i,
                title_from(
                    i.title,
                    !has_title(i),
                    match found {
                        Ok(Some(d)) => Some(d.title@),
                        _ => None,
                    },
                ),
                crate::placement::gap_at(siblings@, siblings@.len() as int),
            )
            &&& parse == TemplateNextView::Do(TemplateStepView::Parse { text: text@ })
            &&& acquire == TemplateNextView::Do(TemplateStepView::AcquireRoom { doc_id: doc@.id })
            &&& apply == TemplateNextView::Do(
                TemplateStepView::Apply { update: update@, by_user: i.ctx.user_id },
            )
            &&& answer == TemplateNextView::Answer(201, response(doc@))
        }),
{
}

/// No request of someone who may not change the document gets to the store, and
/// none of someone who does not own it archives it or makes it a template.
pub proof fn law_changes_need_the_role<T>(
    caller: Caller,
    received: Received<T>,
    store_ready: bool,
)
    ensures
        caller.doc_role == Some(WorkspaceRole::Viewer) || caller.doc_role is None || caller.auth is None
            ==> edit_request(
            caller,
            crate::access::editor_gate(caller),
            received,
            store_ready,
        ) is Err,
        caller.doc_role != Some(WorkspaceRole::Owner) || caller.auth is None ==> edit_request(
            caller,
            crate::access::owner_gate(caller),
            received,
            store_ready,
        ) is Err,
{
}

/// A document is answered as it is: its identifiers as text, its title, sort key and
/// icon, whether it is archived and whether it is a template.
pub proof fn law_a_response_shows_the_document(d: crate::docs::DocumentView)
    ensures
        ({
            let shown = response(d);
            &&& shown.id == crate::ids::uuid_text(d.id)
            &&& shown.workspace_id == crate::ids::uuid_text(d.workspace_id)
            &&& d.parent_id is None ==> shown.parent_id is None
            &&& d.parent_id is Some ==> shown.parent_id == Some(
                crate::ids::uuid_text(d.parent_id->0),
            )
            &&& shown.title == d.title
            &&& shown.sort_key == d.sort_key
            &&& shown.icon == d.icon
            &&& shown.created_by == crate::ids::uuid_text(d.created_by)
            &&& shown.archived <==> d.archived_at is Some
            &&& shown.is_template <==> d.is_template
        }),
{
}

/// A request that needs a session and the store is served exactly where both are
/// there, in that session; without the session that is what it is told.
pub proof fn law_sessions_come_first(auth: Option<AuthContext>, store_ready: bool)
    ensures
        session_request(auth, store_ready) is Ok <==> auth is Some && store_ready,
        session_request(auth, store_ready) matches Ok(ctx) ==> auth == Some(ctx),
        auth is None ==> session_request(auth, store_ready)->Err_0.status == 401,
        auth is Some && !store_ready ==> session_request(auth, store_ready)->Err_0.status == 500,
{
}

/// Documents are added by the owners and editors of a workspace, where the body was
/// understood and the store is there. The new document is asked for as the body
/// says, in the caller's session, and is called "Untitled" where the body gives no
/// title.
pub proof fn law_a_document_is_added_as_requested(
    auth: Option<AuthContext>,
    received: Received<CreateRequest>,
    store_ready: bool,
)
    ensures
        ({
            let answer = create_request(auth, received, store_ready);
            let editor = auth is Some && (auth->0.role == WorkspaceRole::Owner || auth->0.role
                == WorkspaceRole::Editor);
            &&& workspace_editor(auth) is Ok <==> editor
            &&& answer is Ok <==> editor && received is Parsed && store_ready
            &&& answer matches Ok(n) ==> {
                let b = received->Parsed_0;
                &&& auth == Some(n.ctx)
                &&& b.title is Some ==> n.title == b.title->0@
                &&& b.title is None ==> n.title == "Untitled"@
                &&& n.parent_id == b.parent_id
                &&& n.after_id == b.after_id
            }
            &&& auth is None ==> answer->Err_0.status == 401
            &&& auth is Some && !editor ==> answer->Err_0.status == 403 && answer->Err_0.code
                == "acl.editor_required"@
            &&& editor && !(received is Parsed) ==> answer->Err_0.status == 400
            &&& editor && received is Parsed && !store_ready ==> answer->Err_0.status == 500
        }),
{
    if let Some(ctx) = auth {
        match ctx.role {
            WorkspaceRole::Owner => {},
            WorkspaceRole::Editor => {},
            WorkspaceRole::Viewer => {},
        }
    }
}

/// A document that was added is answered with 201 and as it is; a place that is
/// taken is a conflict, and all else is the server's fault.
pub proof fn law_an_added_document_is_answered(outcome: Result<Document, DocStoreError>)
    ensures
        ({
            let answer = created_answer(outcome);
            &&& answer is Ok <==> outcome is Ok
            &&& answer matches Ok(a) ==> a.0 == 201 && a.1 == response(outcome->Ok_0@)
            &&& outcome == Err::<Document, _>(DocStoreError::Conflict) ==> answer->Err_0.status
                == 409 && answer->Err_0.code == "doc.sort_key_conflict"@
            &&& outcome is Err && outcome != Err::<Document, _>(DocStoreError::Conflict)
                ==> answer->Err_0.status == 500
        }),
{
}

/// A document is looked up exactly for who has a role on it, where the store is
/// there, and the role is the caller's own. What was not found is answered with 404,
/// a failure with 500.
pub proof fn law_a_document_is_read_by_who_may(
    caller: Caller,
    store_ready: bool,
    found: Result<Option<Document>, DocStoreError>,
)
    ensures
        ({
            let answer = get_request(caller, store_ready);
            let reads = caller.auth is Some && caller.doc_role is Some;
            &&& answer is Ok <==> reads && store_ready
            &&& answer matches Ok(role) ==> caller.doc_role == Some(role)
            &&& caller.auth is None ==> answer->Err_0.status == 401
            &&& caller.auth is Some && caller.doc_role is None ==> answer->Err_0.status == 403
            &&& reads && !store_ready ==> answer->Err_0.status == 500
        }),
        looked_up(found) is Ok <==> found is Ok && found->Ok_0 is Some,
        looked_up(found) matches Ok(d) ==> found->Ok_0 == Some(d),
        found is Ok && found->Ok_0 is None ==> looked_up(found)->Err_0.status == 404
            && looked_up(found)->Err_0.code == "doc.not_found"@,
        found is Err ==> looked_up(found)->Err_0.status == 500,
{
}

/// A request that changes a document goes on exactly where its gate lets the caller
/// through, its body was understood and the store is there, in the caller's session
/// and with the body as it was sent.
pub proof fn law_a_change_is_made_as_requested<T>(
    caller: Caller,
    received: Received<T>,
    store_ready: bool,
)
    ensures
        ({
            let editor = caller.auth is Some && (caller.doc_role == Some(WorkspaceRole::Owner)
                || caller.doc_role == Some(WorkspaceRole::Editor));
            let owner = caller.auth is Some && caller.doc_role == Some(WorkspaceRole::Owner);
            let edit = edit_request(
                caller,
                crate::access::editor_gate(caller),
                received,
                store_ready,
            );
            let own = edit_request(
                caller,
                crate::access::owner_gate(caller),
                received,
                store_ready,
            );
            &&& edit is Ok <==> editor && received is Parsed && store_ready
            &&& own is Ok <==> owner && received is Parsed && store_ready
            &&& edit matches Ok(a) ==> caller.auth == Some(a.0) && a.1 == received->Parsed_0
            &&& own matches Ok(a) ==> caller.auth == Some(a.0) && a.1 == received->Parsed_0
            &&& editor && !(received is Parsed) ==> edit->Err_0.status == 400
            &&& editor && received is Parsed && !store_ready ==> edit->Err_0.status == 500
            &&& owner && !(received is Parsed) ==> own->Err_0.status == 400
            &&& owner && received is Parsed && !store_ready ==> own->Err_0.status == 500
        }),
{
    crate::access::law_gates_are_nested(caller);
}

/// Templates are instantiated by the owners and editors of a workspace, as the body
/// asks, where it was understood and the store is there.
pub proof fn law_a_template_is_instantiated_as_requested(
    auth: Option<AuthContext>,
    received: Received<FromTemplateRequest>,
    store_ready: bool,
)
    ensures
        ({
            let answer = template_request(auth, received, store_ready);
            let editor = auth is Some && (auth->0.role == WorkspaceRole::Owner || auth->0.role
                == WorkspaceRole::Editor);
            &&& answer is Ok <==> editor && received is Parsed && store_ready
            &&& answer matches Ok(a) ==> auth == Some(a.0) && a.1 == received->Parsed_0
            &&& auth is None ==> answer->Err_0.status == 401
            &&& auth is Some && !editor ==> answer->Err_0.status == 403
            &&& editor && !(received is Parsed) ==> answer->Err_0.status == 400
            &&& editor && received is Parsed && !store_ready ==> answer->Err_0.status == 500
        }),
{
    if let Some(ctx) = auth {
        match ctx.role {
            WorkspaceRole::Owner => {},
            WorkspaceRole::Editor => {},
            WorkspaceRole::Viewer => {},
        }
    }
}

/// What an instance is called: as asked for, where that is not blank, as it was
/// written; else like its template with " copy" behind it; else "Untitled". The
/// template's title plays no part where a title was asked for.
pub proof fn law_what_an_instance_is_called(
    requested: Option<Seq<char>>,
    blank: bool,
    template: Option<Seq<char>>,
)
    ensures
        requested is Some && !blank ==> title_from(requested, blank, template) == requested->0,
        requested is None || blank ==> (template is Some ==> title_from(requested, blank, template)
            == template->0 + " copy"@) && (template is None ==> title_from(
            requested,
            blank,
            template,
        ) == "Untitled"@),
{
}

/// A text is blank exactly where it has no character that is not white space; the
/// empty text is blank, and a text with any ASCII letter, digit or sign in it is
/// not.
pub proof fn law_which_texts_are_blank(text: Seq<char>)
    ensures
        text.len() == 0 ==> is_blank_text(text),
        is_blank_text(text) <==> !exists|i: int| 0 <= i < text.len() && !is_white(#[trigger] text[i]),
        (exists|i: int| 0 <= i < text.len() && 0x21 <= (#[trigger] text[i]) as int <= 0x7e)
            ==> !is_blank_text(text),
{
    if exists|i: int| 0 <= i < text.len() && 0x21 <= (#[trigger] text[i]) as int <= 0x7e {
        let i = choose|i: int| 0 <= i < text.len() && 0x21 <= (#[trigger] text[i]) as int <= 0x7e;
        assert(!is_white(text[i]));
    }
}

/// An instance that is added is the caller's, in their workspace, below the parent
/// that was asked for and behind all siblings there, under a title that was asked for
/// or, where none or a blank one was, under the template's with " copy" behind it.
pub proof fn law_an_instance_is_added_last(
    i: InstantiationView,
    siblings: Vec<Document>,
    found: Result<Option<Document>, DocStoreError>,
)
    ensures
        ({
            let (placed, next) = template_after(i, TemplateEvent::SiblingsRead(Some(siblings)));
            let titled = i.title is Some && exists|k: int|
                0 <= k < i.title->0.len() && !is_white(#[trigger] i.title->0[k]);
            let step = if titled {
                next
            } else {
                template_after(placed, TemplateEvent::TemplateFound(found)).1
            };
            &&& !titled ==> next == TemplateNextView::Do(
                TemplateStepView::FindTemplate { template_id: i.template_id },
            )
            &&& step is Do
            &&& step->Do_0 is Create
            &&& step->Do_0->Create_workspace_id == i.ctx.workspace_id
            &&& step->Do_0->Create_parent_id == i.parent_id
            &&& step->Do_0->Create_created_by == i.ctx.user_id
            &&& siblings@.len() > 0 ==> step->Do_0->Create_gap.after == Some(
                siblings@.last().sort_key@,
            )
            &&& siblings@.len() == 0 ==> step->Do_0->Create_gap.after is None
            &&& step->Do_0->Create_gap.before is None
            &&& titled ==> step->Do_0->Create_title == i.title->0
            &&& !titled && found is Ok && found->Ok_0 is Some ==> step->Do_0->Create_title
                == found->Ok_0->0.title@ + " copy"@
            &&& !titled && !(found is Ok && found->Ok_0 is Some) ==> step->Do_0->Create_title
                == "Untitled"@
        }),
{
    if i.title is Some {
        law_which_texts_are_blank(i.title->0);
    }
}

/// What ends an instantiation early: a template whose text cannot be read, siblings
/// that cannot be, a place that is taken, a text that makes no update, a room that
/// is not there or does not apply it. Nothing else is tried then.
pub proof fn law_what_ends_an_instantiation(i: InstantiationView, update: Vec<u8>)
    ensures
        template_after(i, TemplateEvent::Exported(None)).1->Refuse_0.status == 500,
        template_after(i, TemplateEvent::SiblingsRead(None)).1->Refuse_0.status == 500,
        template_after(
            i,
            TemplateEvent::NotCreated(DocStoreError::Conflict),
        ).1->Refuse_0.status == 409,
        template_after(i, TemplateEvent::NotCreated(DocStoreError::Other)).1->Refuse_0.status
            == 500,
        template_after(i, TemplateEvent::Parsed(None)).1->Refuse_0.status == 422,
        template_after(i, TemplateEvent::Parsed(None)).1->Refuse_0.code == "markdown.parse"@,
        !i.rooms_ready ==> template_after(i, TemplateEvent::Parsed(Some(update))).1
            == TemplateNextView::Refuse(crate::http::internal_error()),
        template_after(i, TemplateEvent::RoomAcquired(false)).1->Refuse_0.status == 500,
        template_after(
            i,
            TemplateEvent::Answered(RoomAnswer::Rejected),
        ).1->Refuse_0.status == 422,
        template_after(i, TemplateEvent::Answered(RoomAnswer::Rejected)).1->Refuse_0.code
            == "markdown.apply"@,
        template_after(
            i,
            TemplateEvent::Answered(RoomAnswer::Unreachable),
        ).1->Refuse_0.status == 500,
{
}

/// A document that was looked up is answered as it is, with the name of the reader's
/// role on it.
pub proof fn law_a_found_document_is_answered(
    role: WorkspaceRole,
    found: Result<Option<Document>, DocStoreError>,
)
    ensures
        ({
            let answer = found_answer(role, found);
            let there = found is Ok && found->Ok_0 is Some;
            &&& answer is Ok <==> there
            &&& answer matches Ok(a) ==> a.doc == response(found->Ok_0->0@) && a.effective_role
                == crate::access::role_text(role)
            &&& found is Ok && !there ==> answer->Err_0.status == 404
            &&& found is Err ==> answer->Err_0.status == 500
        }),
{
}

/// A rename asks for the title of the request, or for the document's own where the
/// request gives none, and for the icon of the request; a document that is not there
/// is not renamed.
pub proof fn law_what_a_rename_asks_for(
    request: PatchRequest,
    found: Result<Option<Document>, DocStoreError>,
)
    ensures
        ({
            let answer = rename_answer(request, found);
            let there = found is Ok && found->Ok_0 is Some;
            &&& answer is Ok <==> there
            &&& answer matches Ok(a) ==> {
                &&& request.title is Some ==> a.title == request.title->0@
                &&& request.title is None ==> a.title == found->Ok_0->0.title@
                &&& request.icon is Some ==> a.icon == Some(request.icon->0@)
                &&& request.icon is None ==> a.icon is None
            }
            &&& found is Ok && !there ==> answer->Err_0.status == 404
            &&& found is Err ==> answer->Err_0.status == 500
        }),
{
}

/// What a change to a document that went to the store is answered: a document that
/// was changed as it is now, archiving and restoring with 204; one that is not there
/// with 404, a place that is taken and a loop each with a conflict of its own where a
/// move can meet them, and all else with 500.
pub proof fn law_what_changes_are_answered(
    outcome: Result<Document, DocStoreError>,
    done: Result<(), DocStoreError>,
)
    ensures
        outcome is Ok <==> changed_answer(outcome) is Ok,
        outcome is Ok ==> changed_answer(outcome)->Ok_0 == response(outcome->Ok_0@),
        outcome is Ok <==> moved_answer(outcome) is Ok,
        outcome is Ok ==> moved_answer(outcome)->Ok_0 == response(outcome->Ok_0@),
        done is Ok <==> archived_answer(done) == Ok::<u16, crate::http::RefusalView>(204u16),
        outcome == Err::<Document, _>(DocStoreError::NotFound) ==> changed_answer(
            outcome,
        )->Err_0.status == 404 && moved_answer(outcome)->Err_0.status == 404,
        outcome is Err && outcome != Err::<Document, _>(DocStoreError::NotFound) ==> changed_answer(
            outcome,
        )->Err_0.status == 500,
        outcome == Err::<Document, _>(DocStoreError::Conflict) ==> moved_answer(
            outcome,
        )->Err_0.status == 409 && moved_answer(outcome)->Err_0.code == "doc.sort_key_conflict"@,
        outcome == Err::<Document, _>(DocStoreError::Cycle) ==> moved_answer(outcome)->Err_0.status
            == 409 && moved_answer(outcome)->Err_0.code == "doc.move_cycle"@,
        outcome == Err::<Document, _>(DocStoreError::Other) ==> moved_answer(outcome)->Err_0.status
            == 500,
        done == Err::<(), _>(DocStoreError::NotFound) ==> archived_answer(done)->Err_0.status
            == 404,
        done is Err && done != Err::<(), _>(DocStoreError::NotFound) ==> archived_answer(
            done,
        )->Err_0.status == 500,
{
}

} // verus!
