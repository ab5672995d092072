//! The upgrades to collaboration sockets: who may join the room of a document or
//! a board, and who may write there.

use crate::access::{AuthContext, WorkspaceRole};
use crate::http::{internal, refuse, Refusal};
use vstd::prelude::*;

verus! {

/// The largest message that a collaboration socket takes.
pub const MAX_WS_MESSAGE_BYTES: usize = 4194304;

/// What a lookup of the caller's role on a document gave.
#[derive(Clone, Copy, Debug, PartialEq, Eq, Structural)]
pub enum RoleLookup {
    /// This role.
    Role(WorkspaceRole),
    /// None was granted.
    NoRole,
    /// It could not be looked up.
    Failed,
}

/// GET /collab/doc/{doc_id}: whether the caller's role is looked up.
pub fn collab_upgrade(auth: Option<AuthContext>, acl_ready: bool) -> (r: Result<
    AuthContext,
    Refusal,
>)
    ensures
        crate::http::answers(r, crate::doc_routes::session_request(auth, acl_ready)),
{
    match auth {
        None => Err(refuse(401, "auth.session_required")),
        Some(ctx) => if acl_ready {
            Ok(ctx)
        } else {
            Err(internal())
        },
    }
}

/// What answers who wants to join a document's room: whether they may write
/// there.
pub open spec fn room_entry(found: RoleLookup, rooms_ready: bool) -> Result<
    bool,
    crate::http::RefusalView,
> {
    match found {
        RoleLookup::NoRole => Err(crate::http::refusal(403, "acl.no_grant"@, ""@)),
        RoleLookup::Failed => Err(crate::http::internal_error()),
        RoleLookup::Role(role) => if rooms_ready {
            Ok(role != WorkspaceRole::Viewer)
        } else {
            Err(crate::http::internal_error())
        },
    }
}

/// Whether the caller joins the document's room, and whether they may write
/// there. Viewers may read along.
pub fn join_room(found: RoleLookup, rooms_ready: bool) -> (r: Result<bool, Refusal>)
    ensures
        crate::http::answers(r, room_entry(found, rooms_ready)),
{
    match found {
        RoleLookup::NoRole => Err(refuse(403, "acl.no_grant")),
        RoleLookup::Failed => Err(internal()),
        RoleLookup::Role(role) => if rooms_ready {
            Ok(role.can_write())
        } else {
            Err(internal())
        },
    }
}

/// GET /collab/board/{board_id}: whether the board is looked up.
pub fn collab_board_upgrade(
    auth: Option<AuthContext>,
    boards_ready: bool,
    acl_ready: bool,
) -> (r: Result<AuthContext, Refusal>)
    ensures
        crate::http::answers(
            r,
            crate::doc_routes::session_request(auth, boards_ready && acl_ready),
        ),
{
    match auth {
        None => Err(refuse(401, "auth.session_required")),
        Some(ctx) => if boards_ready && acl_ready {
            Ok(ctx)
        } else {
            Err(internal())
        },
    }
}

/// Refuses a board that is not there.
pub fn board_found(found: bool) -> (r: Option<Refusal>)
    ensures
        crate::access::refuses(
            r,
            if found {
                None
            } else {
                Some(crate::http::refusal(404, "board.not_found"@, ""@))
            },
        ),
{
    if found {
        None
    } else {
        Some(refuse(404, "board.not_found"))
    }
}

/// What answers who wants to join a board's room.
pub open spec fn board_entry(found: RoleLookup, rooms_ready: bool) -> Option<
    crate::http::RefusalView,
> {
    match found {
        RoleLookup::NoRole => Some(crate::http::refusal(403, "acl.no_grant"@, ""@)),
        RoleLookup::Role(WorkspaceRole::Viewer) => Some(
            crate::http::refusal(403, "acl.no_grant"@, ""@),
        ),
        RoleLookup::Failed => Some(crate::http::internal_error()),
        RoleLookup::Role(_) => if rooms_ready {
            None
        } else {
            Some(crate::http::internal_error())
        },
    }
}

/// Refuses who may not join the board's room: only who may change its document
/// may.
pub fn join_board(found: RoleLookup, rooms_ready: bool) -> (r: Option<Refusal>)
    ensures
        crate::access::refuses(r, board_entry(found, rooms_ready)),
{
    match found {
        RoleLookup::NoRole => Some(refuse(403, "acl.no_grant")),
        RoleLookup::Failed => Some(internal()),
        RoleLookup::Role(role) => if !role.can_write() {
            Some(refuse(403, "acl.no_grant"))
        } else if rooms_ready {
            None
        } else {
            Some(internal())
        },
    }
}

/// Who joins a board could also write in the room of its document, and nobody
/// without a role joins either.
pub proof fn law_boards_are_for_writers(found: RoleLookup, rooms_ready: bool)
    ensures
        board_entry(found, rooms_ready) is None <==> room_entry(found, rooms_ready) == Ok::<
            bool,
            crate::http::RefusalView,
        >(true),
        room_entry(found, rooms_ready) is Ok ==> found is Role,
{
}

/// Who joins a document's room: everyone with a role on it, where the rooms are
/// there; owners and editors to write, viewers to read along. Nobody else does, and
/// where the role could not be looked up or the rooms are not there the fault is the
/// server's.
pub proof fn law_who_joins_a_room(found: RoleLookup, rooms_ready: bool)
    ensures
        ({
            let entry = room_entry(found, rooms_ready);
            &&& entry is Ok <==> found is Role && rooms_ready
            &&& entry == Ok::<bool, crate::http::RefusalView>(true) <==> rooms_ready && (found
                == RoleLookup::Role(WorkspaceRole::Owner) || found == RoleLookup::Role(
                WorkspaceRole::Editor,
            ))
            &&& entry == Ok::<bool, crate::http::RefusalView>(false) <==> rooms_ready && found
                == RoleLookup::Role(WorkspaceRole::Viewer)
            &&& found is NoRole ==> entry->Err_0.status == 403 && entry->Err_0.code
                == "acl.no_grant"@
            &&& found is Failed ==> entry->Err_0.status == 500
            &&& found is Role && !rooms_ready ==> entry->Err_0.status == 500
        }),
{
    if let RoleLookup::Role(role) = found {
        assert(role == WorkspaceRole::Owner || role == WorkspaceRole::Editor || role
            == WorkspaceRole::Viewer) by {
            match role {
                WorkspaceRole::Owner => {},
                WorkspaceRole::Editor => {},
                WorkspaceRole::Viewer => {},
            }
        }
    }
}

/// Who joins a board's room: owners and editors of its document, where the rooms are
/// there. To a viewer the answer is that of someone without a role.
pub proof fn law_who_joins_a_board(found: RoleLookup, rooms_ready: bool)
    ensures
        ({
            let entry = board_entry(found, rooms_ready);
            &&& entry is None <==> rooms_ready && (found == RoleLookup::Role(WorkspaceRole::Owner)
                || found == RoleLookup::Role(WorkspaceRole::Editor))
            &&& found is NoRole || found == RoleLookup::Role(WorkspaceRole::Viewer)
                ==> entry->0.status == 403 && entry->0.code == "acl.no_grant"@
            &&& found is Failed ==> entry->0.status == 500
            &&& !rooms_ready && (found == RoleLookup::Role(WorkspaceRole::Owner) || found
                == RoleLookup::Role(WorkspaceRole::Editor)) ==> entry->0.status == 500
        }),
{
    if let RoleLookup::Role(role) = found {
        assert(role == WorkspaceRole::Owner || role == WorkspaceRole::Editor || role
            == WorkspaceRole::Viewer) by {
            match role {
                WorkspaceRole::Owner => {},
                WorkspaceRole::Editor => {},
                WorkspaceRole::Viewer => {},
            }
        }
    }
}

} // verus!
