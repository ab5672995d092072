//! Who asks, and what they may do.

use crate::http::{refuse, Refusal};
use crate::ids::Uuid;
use crate::text::same_text;
use vstd::prelude::*;

verus! {

/// A role in a workspace, or on a document.
#[derive(Clone, Copy, Debug, PartialEq, Eq, Structural)]
pub enum WorkspaceRole {
    Owner,
    Editor,
    Viewer,
}

/// The stored name of a role.
pub open spec fn role_text(role: WorkspaceRole) -> Seq<char> {
    match role {
        WorkspaceRole::Owner => "owner"@,
        WorkspaceRole::Editor => "editor"@,
        WorkspaceRole::Viewer => "viewer"@,
    }
}

impl WorkspaceRole {
    pub fn as_str(&self) -> (r: &'static str)
        ensures
            r@ == role_text(*self),
    {
        match self {
            Self::Owner => "owner",
            Self::Editor => "editor",
            Self::Viewer => "viewer",
        }
    }

    /// The role with this name.
    pub fn parse(text: &str) -> (r: Option<WorkspaceRole>)
        ensures
            forall|role: WorkspaceRole| r == Some(role) <==> text@ == #[trigger] role_text(role),
    {
        let r = if same_text(text, "owner") {
            Some(Self::Owner)
        } else if same_text(text, "editor") {
            Some(Self::Editor)
        } else if same_text(text, "viewer") {
            Some(Self::Viewer)
        } else {
            None
        };
        proof {
            law_role_names_distinct();
            assert forall|role: WorkspaceRole| r == Some(role) <==> text@
                == #[trigger] role_text(role) by {
                match role {
                    WorkspaceRole::Owner => {},
                    WorkspaceRole::Editor => {},
                    WorkspaceRole::Viewer => {},
                }
                assert(role_text(WorkspaceRole::Owner) == "owner"@);
                assert(role_text(WorkspaceRole::Editor) == "editor"@);
                assert(role_text(WorkspaceRole::Viewer) == "viewer"@);
            }
        }
        r
    }

    /// Whether this role may change a document.
    pub fn can_write(&self) -> (r: bool)
        ensures
            r == (*self != WorkspaceRole::Viewer),
    {
        match self {
            Self::Owner => true,
            Self::Editor => true,
            Self::Viewer => false,
        }
    }
}

/// Distinct roles have distinct names.
pub proof fn law_role_names_distinct()
    ensures
        forall|a: WorkspaceRole, b: WorkspaceRole| #[trigger]
            role_text(a) == #[trigger] role_text(b) ==> a == b,
{
    reveal_strlit("owner");
    reveal_strlit("editor");
    reveal_strlit("viewer");
    assert("owner"@[0] == 'o');
    assert("editor"@[0] == 'e');
    assert("viewer"@[0] == 'v');
}

/// The session behind a request.
#[derive(Clone, Copy, Debug, PartialEq, Eq, Structural)]
pub struct AuthContext {
    pub user_id: Uuid,
    pub workspace_id: Uuid,
    pub role: WorkspaceRole,
}

/// What is known of who makes a request: the session, if there is one, and the
/// role on the document that the request names, if any was granted.
#[derive(Clone, Copy, Debug, PartialEq, Eq, Structural)]
pub struct Caller {
    pub auth: Option<AuthContext>,
    pub doc_role: Option<WorkspaceRole>,
}

/// What answers a caller who must be able to read the document.
pub open spec fn viewer_gate(c: Caller) -> Option<crate::http::RefusalView> {
    if c.auth is None {
        Some(crate::http::session_required())
    } else if c.doc_role is None {
        Some(crate::http::refusal(403, "acl.no_grant"@, ""@))
    } else {
        None
    }
}

/// What answers a caller who must be able to change the document.
pub open spec fn editor_gate(c: Caller) -> Option<crate::http::RefusalView> {
    if c.auth is None {
        Some(crate::http::session_required())
    } else if c.doc_role is None {
        Some(crate::http::refusal(403, "acl.no_grant"@, ""@))
    } else if c.doc_role == Some(WorkspaceRole::Viewer) {
        Some(crate::http::refusal(403, "acl.editor_required"@, ""@))
    } else {
        None
    }
}

/// What answers a caller who must own the document.
pub open spec fn owner_gate(c: Caller) -> Option<crate::http::RefusalView> {
    if c.auth is None {
        Some(crate::http::session_required())
    } else if c.doc_role is None {
        Some(crate::http::refusal(403, "acl.no_grant"@, ""@))
    } else if c.doc_role != Some(WorkspaceRole::Owner) {
        Some(crate::http::refusal(403, "acl.owner_required"@, ""@))
    } else {
        None
    }
}

/// The session of a caller whom a gate lets through.
pub open spec fn admitted(
    c: Caller,
    gate: Option<crate::http::RefusalView>,
) -> Result<AuthContext, crate::http::RefusalView> {
    match gate {
        Some(refused) => Err(refused),
        None => Ok(c.auth->0),
    }
}

/// What answers a request that reads something of the document, before the store is
/// asked.
pub open spec fn viewer_request(c: Caller, store_ready: bool) -> Option<crate::http::RefusalView> {
    match viewer_gate(c) {
        Some(refused) => Some(refused),
        None => if store_ready {
            None
        } else {
            Some(crate::http::internal_error())
        },
    }
}

/// What answers a request that only an owner of the document may make, before the
/// store is asked.
pub open spec fn owner_request(c: Caller, store_ready: bool) -> Result<
    AuthContext,
    crate::http::RefusalView,
> {
    match admitted(c, owner_gate(c)) {
        Err(refused) => Err(refused),
        Ok(ctx) => if store_ready {
            Ok(ctx)
        } else {
            Err(crate::http::internal_error())
        },
    }
}

/// Whether a refusal is the one described, or neither is there.
pub open spec fn refuses(r: Option<Refusal>, expected: Option<crate::http::RefusalView>) -> bool {
    match (r, expected) {
        (Some(a), Some(b)) => a@ == b,
        (None, None) => true,
        _ => false,
    }
}

/// The session of a request.
pub fn require_auth(c: &Caller) -> (r: Option<AuthContext>)
    ensures
        r == c.auth,
{
    c.auth
}

/// Refuses who may not change the document.
pub fn require_editor(c: &Caller) -> (r: Option<Refusal>)
    ensures
        refuses(r, editor_gate(*c)),
{
    if c.auth.is_none() {
        return Some(refuse(401, "auth.session_required"));
    }
    match c.doc_role {
        None => Some(refuse(403, "acl.no_grant")),
        Some(WorkspaceRole::Viewer) => Some(refuse(403, "acl.editor_required")),
        Some(_) => None,
    }
}

/// Refuses who may not read the document.
pub fn require_viewer(c: &Caller) -> (r: Option<Refusal>)
    ensures
        refuses(r, viewer_gate(*c)),
{
    if c.auth.is_none() {
        return Some(refuse(401, "auth.session_required"));
    }
    if c.doc_role.is_none() {
        return Some(refuse(403, "acl.no_grant"));
    }
    None
}

/// Refuses who does not own the document.
pub fn require_owner(c: &Caller) -> (r: Option<Refusal>)
    ensures
        refuses(r, owner_gate(*c)),
{
    if c.auth.is_none() {
        return Some(refuse(401, "auth.session_required"));
    }
    match c.doc_role {
        None => Some(refuse(403, "acl.no_grant")),
        Some(WorkspaceRole::Owner) => None,
        Some(_) => Some(refuse(403, "acl.owner_required")),
    }
}

/// The session of a caller who may change the document.
pub fn admit_editor(c: &Caller) -> (r: Result<AuthContext, Refusal>)
    ensures
        crate::http::answers(r, admitted(*c, editor_gate(*c))),
{
    if let Some(refused) = require_editor(c) {
        return Err(refused);
    }
    match require_auth(c) {
        Some(ctx) => Ok(ctx),
        None => Err(refuse(401, "auth.session_required")),
    }
}

/// The session of a caller who owns the document.
pub fn admit_owner(c: &Caller) -> (r: Result<AuthContext, Refusal>)
    ensures
        crate::http::answers(r, admitted(*c, owner_gate(*c))),
{
    if let Some(refused) = require_owner(c) {
        return Err(refused);
    }
    match require_auth(c) {
        Some(ctx) => Ok(ctx),
        None => Err(refuse(401, "auth.session_required")),
    }
}

/// Each gate lets through only whom the one before it does: an owner may edit,
/// and an editor may read.
pub proof fn law_gates_are_nested(c: Caller)
    ensures
        owner_gate(c) is None ==> editor_gate(c) is None,
        editor_gate(c) is None ==> viewer_gate(c) is None,
        viewer_gate(c) is None ==> c.auth is Some && c.doc_role is Some,
        editor_gate(c) is None <==> c.auth is Some && (c.doc_role == Some(WorkspaceRole::Owner)
            || c.doc_role == Some(WorkspaceRole::Editor)),
        owner_gate(c) is None <==> c.auth is Some && c.doc_role == Some(WorkspaceRole::Owner),
{
    if let Some(role) = c.doc_role {
        match role {
            WorkspaceRole::Owner => {},
            WorkspaceRole::Editor => {},
            WorkspaceRole::Viewer => {},
        }
    }
}

/// Roles are stored as `owner`, `editor` and `viewer`, and no other text names one.
pub proof fn law_which_texts_name_a_role(text: Seq<char>)
    ensures
        (exists|role: WorkspaceRole| #[trigger] role_text(role) == text) <==> text == "owner"@ || text
            == "editor"@ || text == "viewer"@,
        role_text(WorkspaceRole::Owner) == "owner"@,
        role_text(WorkspaceRole::Editor) == "editor"@,
        role_text(WorkspaceRole::Viewer) == "viewer"@,
{
    if text == "owner"@ {
        assert(role_text(WorkspaceRole::Owner) == text);
    } else if text == "editor"@ {
        assert(role_text(WorkspaceRole::Editor) == text);
    } else if text == "viewer"@ {
        assert(role_text(WorkspaceRole::Viewer) == text);
    }
}

/// What each gate answers: without a session it asks for one; without a role on the
/// document it says so; to an editor or a viewer who must own the document, and to
/// a viewer who must be able to change it, it says what is wanted. Whoever passes
/// goes on in the session that they came with.
pub proof fn law_what_the_gates_answer(c: Caller)
    ensures
        ({
            let gates = seq![viewer_gate(c), editor_gate(c), owner_gate(c)];
            &&& forall|i: int|
                0 <= i < 3 && c.auth is None ==> (#[trigger] gates[i]) is Some && gates[i]->0.status
                    == 401 && gates[i]->0.code == "auth.session_required"@
            &&& forall|i: int|
                0 <= i < 3 && c.auth is Some && c.doc_role is None ==> (#[trigger] gates[i]) is Some
                    && gates[i]->0.status == 403 && gates[i]->0.code == "acl.no_grant"@
        }),
        c.auth is Some && c.doc_role is Some ==> viewer_gate(c) is None,
        c.auth is Some && c.doc_role == Some(WorkspaceRole::Viewer) ==> editor_gate(c) is Some
            && editor_gate(c)->0.status == 403 && editor_gate(c)->0.code
            == "acl.editor_required"@,
        c.auth is Some && (c.doc_role == Some(WorkspaceRole::Editor) || c.doc_role == Some(
            WorkspaceRole::Owner,
        )) ==> editor_gate(c) is None,
        c.auth is Some && (c.doc_role == Some(WorkspaceRole::Editor) || c.doc_role == Some(
            WorkspaceRole::Viewer,
        )) ==> owner_gate(c) is Some && owner_gate(c)->0.status == 403 && owner_gate(c)->0.code
            == "acl.owner_required"@,
        c.auth is Some && c.doc_role == Some(WorkspaceRole::Owner) ==> owner_gate(c) is None,
        admitted(c, editor_gate(c)) is Ok <==> editor_gate(c) is None,
        admitted(c, editor_gate(c)) matches Ok(ctx) ==> c.auth == Some(ctx),
        admitted(c, editor_gate(c)) matches Err(refused) ==> editor_gate(c) == Some(refused),
        admitted(c, owner_gate(c)) is Ok <==> owner_gate(c) is None,
        admitted(c, owner_gate(c)) matches Ok(ctx) ==> c.auth == Some(ctx),
        admitted(c, owner_gate(c)) matches Err(refused) ==> owner_gate(c) == Some(refused),
{
    law_gates_are_nested(c);
    let gates = seq![viewer_gate(c), editor_gate(c), owner_gate(c)];
    assert(gates[0] == viewer_gate(c) && gates[1] == editor_gate(c) && gates[2] == owner_gate(c));
}

/// What answers a request that reads of a document or that only its owner may make:
/// who may not is refused first, and then for want of the store. An owner goes on in
/// their own session.
pub proof fn law_who_gets_to_the_store(c: Caller, store_ready: bool)
    ensures
        viewer_request(c, store_ready) is None <==> c.auth is Some && c.doc_role is Some
            && store_ready,
        c.auth is None ==> viewer_request(c, store_ready)->0.status == 401,
        c.auth is Some && c.doc_role is None ==> viewer_request(c, store_ready)->0.status == 403,
        c.auth is Some && c.doc_role is Some && !store_ready ==> viewer_request(
            c,
            store_ready,
        )->0.status == 500,
        owner_request(c, store_ready) is Ok <==> c.auth is Some && c.doc_role == Some(
            WorkspaceRole::Owner,
        ) && store_ready,
        owner_request(c, store_ready) matches Ok(ctx) ==> c.auth == Some(ctx),
        c.auth is None ==> owner_request(c, store_ready)->Err_0.status == 401,
        c.auth is Some && c.doc_role != Some(WorkspaceRole::Owner) ==> owner_request(
            c,
            store_ready,
        )->Err_0.status == 403,
        c.auth is Some && c.doc_role == Some(WorkspaceRole::Owner) && !store_ready
            ==> owner_request(c, store_ready)->Err_0.status == 500,
{
    law_gates_are_nested(c);
}

} // verus!
