use knot::access::{require_auth, AuthContext, Caller, WorkspaceRole};
use knot::grants::{
    delete_grant, emit_doc_shared, grant_changed, is_valid_principal, list_grants, put_grant,
    put_grant_for, read_principal, to_grant_response, Principal, PutGrantRequest,
};
use knot::http::{or_internal, Received};
use knot::ids::{uuid_to_text, Uuid};
use knot::notifications::{
    NameEntry, NotificationData, NotificationKind, NotificationTable, References,
};
use knot::time::Timestamp;

const WS: Uuid = 1;
const DOC: Uuid = 2;
const ALICE: Uuid = 10;
const BOB: Uuid = 11;

/// Everything that these tests name is there.
fn refs() -> References {
    References {
        workspaces: (0..1000).collect(),
        users: (0..1000).collect(),
        docs: (0..1000).collect(),
    }
}

fn owner() -> Caller {
    Caller {
        auth: Some(AuthContext { user_id: ALICE, workspace_id: WS, role: WorkspaceRole::Owner }),
        doc_role: Some(WorkspaceRole::Owner),
    }
}

fn body(role: &str) -> Received<PutGrantRequest> {
    Received::Parsed(PutGrantRequest { role: role.to_string(), inherit: true })
}

#[test]
fn granting_access_notifies_the_grantee() {
    let principal = format!("user:{}", uuid_to_text(BOB));
    let g = put_grant(&owner(), &principal, body("editor"), true).unwrap();
    assert_eq!(g.grantee, BOB);
    assert_eq!(g.role, WorkspaceRole::Editor);
    assert!(g.inherit);
    assert_eq!(grant_changed(true).unwrap(), 204);
    let mut inbox = NotificationTable::new();
    let n = emit_doc_shared(WS, "Test Doc", DOC, g.grantee, g.ctx.user_id);
    inbox.emit(n, Timestamp::from_micros(0).unwrap(), &refs()).unwrap();
    let none: Vec<NameEntry> = vec![];
    let rows = inbox.list(BOB, false, 50, None, &none, &none);
    assert_eq!(rows.len(), 1);
    assert_eq!(rows[0].kind, "doc_shared");
    assert_eq!(rows[0].doc_id, Some(DOC));
}

#[test]
fn sharing_again_notifies_nobody() {
    let now = Timestamp::from_micros(0).unwrap();
    let mut inbox = NotificationTable::new();
    assert!(inbox.emit(emit_doc_shared(WS, "T", DOC, BOB, ALICE), now, &refs()).unwrap());
    assert!(!inbox.emit(emit_doc_shared(WS, "T2", DOC, BOB, 77), now, &refs()).unwrap());
    assert!(inbox.emit(emit_doc_shared(WS, "T", DOC + 1, BOB, ALICE), now, &refs()).unwrap());
    // Sharing with oneself neither.
    assert!(!inbox.emit(emit_doc_shared(WS, "T", DOC, ALICE, ALICE), now, &refs()).unwrap());
}

#[test]
fn a_share_says_what_was_shared() {
    let n = emit_doc_shared(WS, "Plan", DOC, BOB, ALICE);
    assert_eq!(n.kind, NotificationKind::DocShared);
    assert_eq!(n.target_kind, "document");
    assert_eq!(n.target_id, uuid_to_text(DOC));
    assert_eq!(n.dedupe_key, format!("share:{}:{}", uuid_to_text(DOC), uuid_to_text(BOB)));
    assert!(matches!(&n.data, NotificationData::Share { doc_title } if doc_title == "Plan"));
}

#[test]
fn principals_are_users_or_groups() {
    assert_eq!(read_principal(&format!("user:{}", uuid_to_text(BOB))), Principal::User(BOB));
    assert_eq!(read_principal("user:nobody"), Principal::Invalid);
    assert_eq!(read_principal("user:"), Principal::Invalid);
    assert_eq!(read_principal("group:x"), Principal::Group);
    assert_eq!(read_principal("group:"), Principal::Invalid);
    assert_eq!(read_principal("team:x"), Principal::Invalid);
    assert_eq!(read_principal(""), Principal::Invalid);
    assert!(is_valid_principal("group:x"));
    assert!(!is_valid_principal("group:"));
}

#[test]
fn grants_are_checked_in_order() {
    let refused = |c: Caller, p: &str, b: Received<PutGrantRequest>, ready: bool| {
        let e = put_grant(&c, p, b, ready).unwrap_err();
        (e.status, e.code, e.message)
    };
    let mut c = owner();
    c.auth = None;
    assert_eq!(refused(c, "x", Received::Malformed, true).0, 401);
    let mut c = owner();
    c.doc_role = None;
    assert_eq!(refused(c, "x", Received::Malformed, true).1, "acl.no_grant");
    c.doc_role = Some(WorkspaceRole::Editor);
    assert_eq!(refused(c, "x", Received::Malformed, true), (403, "acl.owner_required", ""));
    let c = owner();
    assert_eq!(refused(c, "x", Received::Unreadable, true), (400, "bad_request", ""));
    assert_eq!(refused(c, "x", Received::Malformed, true), (400, "bad_request", ""));
    assert_eq!(refused(c, "x", body("admin"), true), (422, "grant.invalid_role", ""));
    assert_eq!(refused(c, "x", body("viewer"), true), (422, "grant.invalid_principal", ""));
    assert_eq!(
        refused(c, "group:x", body("viewer"), true),
        (422, "grant.group_unsupported", "group grants are not supported; grant individual users")
    );
    let p = format!("user:{}", uuid_to_text(BOB));
    assert_eq!(refused(c, &p, body("owner"), false), (500, "internal", ""));
    let g = put_grant_for(&c, Principal::User(7), body("owner"), true).unwrap();
    assert_eq!((g.grantee, g.role), (7, WorkspaceRole::Owner));
}

#[test]
fn owners_take_back_and_readers_list() {
    assert!(delete_grant(&owner(), true).is_ok());
    assert_eq!(delete_grant(&owner(), false).unwrap_err().status, 500);
    let mut c = owner();
    c.doc_role = Some(WorkspaceRole::Viewer);
    assert_eq!(delete_grant(&c, true).unwrap_err().code, "acl.owner_required");
    assert!(list_grants(&c, true).is_none());
    assert_eq!(list_grants(&c, false).unwrap().status, 500);
    c.doc_role = None;
    assert_eq!(list_grants(&c, true).unwrap().code, "acl.no_grant");
    assert_eq!(require_auth(&c).unwrap().user_id, ALICE);
    let r = to_grant_response("user:x".to_string(), WorkspaceRole::Viewer, false);
    assert_eq!((r.principal.as_str(), r.role.as_str(), r.inherit), ("user:x", "viewer", false));
}

#[test]
fn roles_are_read_back() {
    for role in [WorkspaceRole::Owner, WorkspaceRole::Editor, WorkspaceRole::Viewer] {
        assert_eq!(WorkspaceRole::parse(role.as_str()), Some(role));
    }
    assert_eq!(WorkspaceRole::parse("Owner"), None);
    assert_eq!(WorkspaceRole::parse(""), None);
}

#[test]
fn a_store_that_fails_is_an_internal_error() {
    let ok: Result<u8, u8> = Ok(3);
    assert_eq!(or_internal(ok).unwrap(), 3);
    let bad: Result<u8, u8> = Err(1);
    let e = or_internal(bad).unwrap_err();
    assert_eq!((e.status, e.code, e.message), (500, "internal", ""));
}

#[test]
fn a_stored_grant_is_answered_whatever_becomes_of_the_notice() {
    assert_eq!(grant_changed(true).unwrap(), 204);
    let refused = grant_changed(false).unwrap_err();
    assert_eq!((refused.status, refused.code), (500, "internal"));
}
