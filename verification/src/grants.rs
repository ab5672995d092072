//! Document grants: who is given which role on a document, what each endpoint
//! decides, and the notification of who a document was shared with.

use crate::access::{admit_owner, require_viewer, AuthContext, Caller, WorkspaceRole};
use crate::http::{internal, json_err, refuse, Received, Refusal};
use crate::ids::{format_uuid, parse_uuid, Uuid};
use crate::notifications::{NewNotification, NotificationData, NotificationKind};
use crate::text::strip_prefix;
use vstd::prelude::*;
use vstd::string::*;

verus! {

/// Whom a grant is for.
#[derive(Clone, Copy, Debug, PartialEq, Eq, Structural)]
pub enum Principal {
    /// A user.
    User(Uuid),
    /// A group. Groups can be named, but grants to them have no effect.
    Group,
    /// Neither.
    Invalid,
}

/// Whom a text of the form `user:<id>` or `group:<name>` names.
pub open spec fn principal_of(text: Seq<char>) -> Principal {
    match crate::text::after_prefix(text, "user:"@) {
        Some(rest) => match crate::ids::uuid_parsed(rest) {
            Some(id) => Principal::User(id),
            None => Principal::Invalid,
        },
        None => match crate::text::after_prefix(text, "group:"@) {
            Some(rest) => if rest.len() > 0 {
                Principal::Group
            } else {
                Principal::Invalid
            },
            None => Principal::Invalid,
        },
    }
}

/// Whom a text names.
pub fn read_principal(text: &str) -> (r: Principal)
    ensures
        r == principal_of(text@),
{
    if let Some(rest) = strip_prefix(text, "user:") {
        return match parse_uuid(rest) {
            Some(id) => Principal::User(id),
            None => Principal::Invalid,
        };
    }
    if let Some(rest) = strip_prefix(text, "group:") {
        if rest.unicode_len() > 0 {
            return Principal::Group;
        }
    }
    Principal::Invalid
}

/// Whether a text names a user or a group.
pub fn is_valid_principal(text: &str) -> (r: bool)
    ensures
        r == (principal_of(text@) != Principal::Invalid),
{
    match read_principal(text) {
        Principal::Invalid => false,
        _ => true,
    }
}

/// The body of a request to grant a role.
#[derive(Debug)]
pub struct PutGrantRequest {
    pub role: String,
    pub inherit: bool,
}

/// A grant that the store is to record.
#[derive(Clone, Copy, Debug, PartialEq, Eq, Structural)]
pub struct NewGrant {
    pub ctx: AuthContext,
    pub grantee: Uuid,
    pub role: WorkspaceRole,
    pub inherit: bool,
}

/// The role with a name.
pub open spec fn role_named(name: Seq<char>) -> Option<WorkspaceRole> {
    if name == crate::access::role_text(WorkspaceRole::Owner) {
        Some(WorkspaceRole::Owner)
    } else if name == crate::access::role_text(WorkspaceRole::Editor) {
        Some(WorkspaceRole::Editor)
    } else if name == crate::access::role_text(WorkspaceRole::Viewer) {
        Some(WorkspaceRole::Viewer)
    } else {
        None
    }
}

/// What answers a request to grant a role: the checks come in this order, and
/// the first that fails decides.
pub open spec fn grant_request(
    caller: Caller,
    principal: Principal,
    received: Received<PutGrantRequest>,
    store_ready: bool,
) -> Result<NewGrant, crate::http::RefusalView> {
    match crate::access::admitted(caller, crate::access::owner_gate(caller)) {
        Err(refused) => Err(refused),
        Ok(ctx) => match received {
            Received::Parsed(b) => match (role_named(b.role@), principal) {
                (None, _) => Err(crate::http::refusal(422, "grant.invalid_role"@, ""@)),
                (Some(_), Principal::Invalid) => Err(
                    crate::http::refusal(422, "grant.invalid_principal"@, ""@),
                ),
                (Some(_), Principal::Group) => Err(
                    crate::http::refusal(
                        422,
                        "grant.group_unsupported"@,
                        "group grants are not supported; grant individual users"@,
                    ),
                ),
                (Some(role), Principal::User(grantee)) => if store_ready {
                    Ok(NewGrant { ctx, grantee, role, inherit: b.inherit })
                } else {
                    Err(crate::http::internal_error())
                },
            },
            _ => Err(crate::http::bad_request()),
        },
    }
}

/// Whether a request to grant a role goes to the store, given whom it names.
pub fn put_grant_for(
    caller: &Caller,
    principal: Principal,
    received: Received<PutGrantRequest>,
    store_ready: bool,
) -> (r: Result<NewGrant, Refusal>)
    ensures
        crate::http::answers(r, grant_request(*caller, principal, received, store_ready)),
        r matches Ok(g) ==> received is Parsed && g.inherit == received->Parsed_0.inherit
            && crate::access::role_text(g.role) == received->Parsed_0.role@,
{
    let ctx = match admit_owner(caller) {
        Ok(ctx) => ctx,
        Err(refused) => return Err(refused),
    };
    let b = match received {
        Received::Parsed(b) => b,
        _ => return Err(refuse(400, "bad_request")),
    };
    let role = match WorkspaceRole::parse(b.role.as_str()) {
        Some(role) => role,
        None => {
            assert(b.role@ != crate::access::role_text(WorkspaceRole::Owner));
            assert(b.role@ != crate::access::role_text(WorkspaceRole::Editor));
            assert(b.role@ != crate::access::role_text(WorkspaceRole::Viewer));
            return Err(refuse(422, "grant.invalid_role"));
        },
    };
    proof {
        assert(b.role@ == crate::access::role_text(role));
        crate::access::law_role_names_distinct();
        match role {
            WorkspaceRole::Owner => {},
            WorkspaceRole::Editor => {},
            WorkspaceRole::Viewer => {},
        }
        assert(role_named(b.role@) == Some(role));
    }
    match principal {
        Principal::Invalid => Err(refuse(422, "grant.invalid_principal")),
        Principal::Group => Err(
            json_err(
                422,
                "grant.group_unsupported",
                "group grants are not supported; grant individual users",
            ),
        ),
        Principal::User(grantee) => if store_ready {
            Ok(NewGrant { ctx, grantee, role, inherit: b.inherit })
        } else {
            Err(internal())
        },
    }
}

/// PUT /api/docs/{id}/grants/{principal}: whether the request goes to the store.
pub fn put_grant(
    caller: &Caller,
    principal: &str,
    received: Received<PutGrantRequest>,
    store_ready: bool,
) -> (r: Result<NewGrant, Refusal>)
    ensures
        crate::http::answers(
            r,
            grant_request(*caller, principal_of(principal@), received, store_ready),
        ),
        r matches Ok(g) ==> received is Parsed && g.inherit == received->Parsed_0.inherit
            && crate::access::role_text(g.role) == received->Parsed_0.role@,
{
    let whom = read_principal(principal);
    put_grant_for(caller, whom, received, store_ready)
}

/// DELETE /api/docs/{id}/grants/{principal}: whether the request goes to the
/// store. Any principal may be named, so that a grant to a group can be taken
/// back.
pub fn delete_grant(caller: &Caller, store_ready: bool) -> (r: Result<AuthContext, Refusal>)
    ensures
        crate::http::answers(r, crate::access::owner_request(*caller, store_ready)),
{
    match admit_owner(caller) {
        Err(refused) => Err(refused),
        Ok(ctx) => if store_ready {
            Ok(ctx)
        } else {
            Err(internal())
        },
    }
}

/// GET /api/docs/{id}/grants: whether the request goes to the store.
pub fn list_grants(caller: &Caller, store_ready: bool) -> (r: Option<Refusal>)
    ensures
        crate::access::refuses(r, crate::access::viewer_request(*caller, store_ready)),
{
    if let Some(refused) = require_viewer(caller) {
        return Some(refused);
    }
    if !store_ready {
        return Some(internal());
    }
    None
}

/// Answers a request that gave or took a grant, once the store was asked. What
/// becomes of telling the grantee does not change the answer.
pub fn grant_changed(stored: bool) -> (r: Result<u16, Refusal>)
    ensures
        crate::http::answers(r, crate::http::written_answer(stored)),
{
    if stored {
        Ok(204)
    } else {
        Err(internal())
    }
}

/// The dedupe key of a shared document.
pub open spec fn share_key(doc_id: Uuid, grantee: Uuid) -> Seq<char> {
    "share:"@ + crate::ids::uuid_text(doc_id) + ":"@ + crate::ids::uuid_text(grantee)
}

/// The notification of who a document was shared with.
pub open spec fn share_note(
    workspace_id: Uuid,
    title: Seq<char>,
    doc_id: Uuid,
    grantee: Uuid,
    actor: Uuid,
) -> crate::notifications::NewNotificationView {
    crate::notifications::NewNotificationView {
        workspace_id,
        user_id: grantee,
        actor_id: Some(actor),
        kind: NotificationKind::DocShared,
        doc_id: Some(doc_id),
        target_kind: "document"@,
        target_id: crate::ids::uuid_text(doc_id),
        dedupe_key: share_key(doc_id, grantee),
        data: crate::notifications::NotificationDataView::Share { doc_title: title },
    }
}

/// Tells a user that a document was shared with them.
pub fn emit_doc_shared(
    workspace_id: Uuid,
    title: &str,
    doc_id: Uuid,
    grantee: Uuid,
    actor: Uuid,
) -> (r: NewNotification)
    ensures
        r@ == share_note(workspace_id, title@, doc_id, grantee, actor),
{
    let id = format_uuid(doc_id);
    let mut key = "share:".to_owned();
    key.append(id.as_str());
    key.append(":");
    key.append(format_uuid(grantee).as_str());
    NewNotification {
        workspace_id,
        user_id: grantee,
        actor_id: Some(actor),
        kind: NotificationKind::DocShared,
        doc_id: Some(doc_id),
        target_kind: "document".to_owned(),
        target_id: id,
        dedupe_key: key,
        data: NotificationData::Share { doc_title: title.to_owned() },
    }
}

/// A grant as it is answered.
#[derive(Debug)]
pub struct GrantResponse {
    pub principal: String,
    pub role: String,
    pub inherit: bool,
}

/// A grant, answered.
pub fn to_grant_response(principal: String, role: WorkspaceRole, inherit: bool) -> (r:
    GrantResponse)
    ensures
        r.principal@ == principal@,
        r.role@ == crate::access::role_text(role),
        r.inherit == inherit,
{
    GrantResponse { principal, role: role.as_str().to_owned(), inherit }
}

/// No role is ever granted to a group, nor by anyone but an owner.
pub proof fn law_only_owners_grant_and_only_to_users(
    caller: Caller,
    principal: Principal,
    received: Received<PutGrantRequest>,
    store_ready: bool,
)
    requires
        grant_request(caller, principal, received, store_ready) is Ok,
    ensures
        caller.doc_role == Some(WorkspaceRole::Owner),
        caller.auth == Some(grant_request(caller, principal, received, store_ready)->Ok_0.ctx),
        principal == Principal::User(
            grant_request(caller, principal, received, store_ready)->Ok_0.grantee,
        ),
{
}

/// The form in which an identifier is written names that user.
pub proof fn law_user_principal_names_the_user(rest: Seq<char>, id: Uuid)
    requires
        crate::ids::uuid_parsed(rest) == Some(id),
    ensures
        principal_of("user:"@ + rest) == Principal::User(id),
{
    let text = "user:"@ + rest;
    assert(text.take("user:"@.len() as int) =~= "user:"@);
    assert(text.skip("user:"@.len() as int) =~= rest);
}

/// A document is told to be shared with a user once, however often and by whom
/// it is shared: the key names document and user and nothing else.
pub proof fn law_sharing_is_keyed_on_document_and_user(d1: Uuid, g1: Uuid, d2: Uuid, g2: Uuid)
    ensures
        share_key(d1, g1) == share_key(d2, g2) <==> d1 == d2 && g1 == g2,
{
    reveal_strlit("share:");
    reveal_strlit(":");
    let a = share_key(d1, g1);
    let b = share_key(d2, g2);
    assert(a.subrange(6, 42) =~= crate::ids::uuid_text(d1));
    assert(b.subrange(6, 42) =~= crate::ids::uuid_text(d2));
    assert(a.subrange(43, 79) =~= crate::ids::uuid_text(g1));
    assert(b.subrange(43, 79) =~= crate::ids::uuid_text(g2));
    if a == b {
        crate::ids::lemma_uuid_text_injective(d1, d2);
        crate::ids::lemma_uuid_text_injective(g1, g2);
    }
}

/// A grant that goes to the store carries what was asked for: it is given by the
/// caller, who owns the document, to the user whom the path names; the name of its
/// role is the role of the body, and it is inherited exactly where the body says
/// so.
pub proof fn law_a_grant_carries_what_was_asked(
    caller: Caller,
    principal: Principal,
    received: Received<PutGrantRequest>,
    store_ready: bool,
)
    ensures
        grant_request(caller, principal, received, store_ready) matches Ok(g) ==> {
            &&& caller.auth == Some(g.ctx)
            &&& caller.doc_role == Some(WorkspaceRole::Owner)
            &&& principal == Principal::User(g.grantee)
            &&& received is Parsed
            &&& crate::access::role_text(g.role) == received->Parsed_0.role@
            &&& g.inherit == received->Parsed_0.inherit
        },
{
}

/// A request to grant a role goes to the store exactly where an owner names a user
/// and a role that there is, and the store is there. Otherwise the first thing that
/// is amiss is what it is refused for.
pub proof fn law_which_grants_are_refused(
    caller: Caller,
    principal: Principal,
    received: Received<PutGrantRequest>,
    store_ready: bool,
)
    ensures
        ({
            let answer = grant_request(caller, principal, received, store_ready);
            let owner = caller.auth is Some && caller.doc_role == Some(WorkspaceRole::Owner);
            let role_known = received is Parsed && exists|role: WorkspaceRole|
                #[trigger] crate::access::role_text(role) == received->Parsed_0.role@;
            &&& answer is Ok <==> owner && role_known && principal is User && store_ready
            &&& caller.auth is None ==> answer is Err && answer->Err_0.status == 401
                && answer->Err_0.code == "auth.session_required"@
            &&& caller.auth is Some && caller.doc_role is None ==> answer is Err
                && answer->Err_0.status == 403 && answer->Err_0.code == "acl.no_grant"@
            &&& caller.auth is Some && caller.doc_role is Some && !owner ==> answer is Err
                && answer->Err_0.status == 403 && answer->Err_0.code == "acl.owner_required"@
            &&& owner && !(received is Parsed) ==> answer is Err && answer->Err_0.status == 400
                && answer->Err_0.code == "bad_request"@
            &&& owner && received is Parsed && !role_known ==> answer is Err
                && answer->Err_0.status == 422 && answer->Err_0.code == "grant.invalid_role"@
            &&& owner && role_known && principal is Invalid ==> answer is Err
                && answer->Err_0.status == 422 && answer->Err_0.code == "grant.invalid_principal"@
            &&& owner && role_known && principal is Group ==> answer is Err
                && answer->Err_0.status == 422 && answer->Err_0.code == "grant.group_unsupported"@
            &&& owner && role_known && principal is User && !store_ready ==> answer is Err
                && answer->Err_0.status == 500 && answer->Err_0.code == "internal"@
        }),
{
    crate::access::law_role_names_distinct();
    if received is Parsed {
        let name = received->Parsed_0.role@;
        if role_named(name) is Some {
            assert(crate::access::role_text(role_named(name)->0) == name);
        }
    }
}

/// A text names a user exactly where it is `user:` with an identifier behind it, and
/// a group exactly where it is `group:` with anything behind it.
pub proof fn law_which_texts_name_a_principal(text: Seq<char>, rest: Seq<char>)
    ensures
        crate::ids::uuid_parsed(rest) is None ==> principal_of("user:"@ + rest)
            == Principal::Invalid,
        crate::ids::uuid_parsed(rest) is Some ==> principal_of("user:"@ + rest) == Principal::User(
            crate::ids::uuid_parsed(rest)->0,
        ),
        rest.len() > 0 ==> principal_of("group:"@ + rest) == Principal::Group,
        rest.len() == 0 ==> principal_of("group:"@ + rest) == Principal::Invalid,
        principal_of(text) matches Principal::User(id) ==> exists|r: Seq<char>|
            text == "user:"@ + r && #[trigger] crate::ids::uuid_parsed(r) == Some(id),
        principal_of(text) is Group ==> exists|r: Seq<char>|
            r.len() > 0 && text == #[trigger] ("group:"@ + r),
{
    reveal_strlit("user:");
    reveal_strlit("group:");
    let user = "user:"@ + rest;
    let group = "group:"@ + rest;
    assert(user.take(5) =~= "user:"@);
    assert(user.skip(5) =~= rest);
    assert(group.take(6) =~= "group:"@);
    assert(group.skip(6) =~= rest);
    assert(group[0] == 'g');
    if crate::text::has_prefix(group, "user:"@) {
        assert(group.take(5)[0] == 'g');
    }
    if principal_of(text) is User {
        let r = text.skip(5);
        assert(text =~= "user:"@ + r);
        assert(crate::ids::uuid_parsed(r) is Some);
    }
    if principal_of(text) is Group {
        let r = text.skip(6);
        assert(text =~= "group:"@ + r);
    }
}

/// The notification of a shared document goes to who was given the role and names
/// who gave it; it points to the document and shows its title.
pub proof fn law_a_share_tells_the_grantee(
    workspace_id: Uuid,
    title: Seq<char>,
    doc_id: Uuid,
    grantee: Uuid,
    actor: Uuid,
)
    ensures
        ({
            let n = share_note(workspace_id, title, doc_id, grantee, actor);
            &&& n.workspace_id == workspace_id
            &&& n.user_id == grantee
            &&& n.actor_id == Some(actor)
            &&& n.kind == NotificationKind::DocShared
            &&& n.doc_id == Some(doc_id)
            &&& n.target_kind == "document"@
            &&& n.target_id == crate::ids::uuid_text(doc_id)
            &&& n.data is Share
            &&& n.data->Share_doc_title == title
            &&& n.dedupe_key == "share:"@ + crate::ids::uuid_text(doc_id) + ":"@
                + crate::ids::uuid_text(grantee)
        }),
{
}

} // verus!
