//! The comment endpoints: what each decides on the way from request to answer.
//!
//! An endpoint alternates decisions and work that is done elsewhere. Each
//! decision is a function from what is known so far to the work that comes next,
//! or to the refusal that ends the request:
//!
//! - writing a comment: [`create_thread`] or [`create_reply`], then the store,
//!   then [`comment_created`];
//! - changing one: [`edit_comment`], then reading the comment, [`edit_allowed`],
//!   the store, [`comment_edited`];
//! - deleting one: [`may_change`], reading it, [`delete_allowed`], the store,
//!   [`stored`];
//! - resolving a thread: [`may_change`], reading its root,
//!   [`ensure_comment_in_doc`], the store, [`thread_changed`];
//! - reacting: [`add_reaction`] or [`may_change`], reading the comment,
//!   [`ensure_comment_in_doc`], the store, [`stored`];
//! - listing: [`list_comments`], then the store.

use crate::access::{admit_editor, require_viewer, AuthContext, Caller, WorkspaceRole};
use crate::comments::{Comment, CommentEvent, CommentWrite};
use crate::http::{internal, json_err, refuse, Received, Refusal};
use crate::ids::Uuid;
use crate::text::same_text;
use vstd::prelude::*;
use vstd::string::*;

verus! {

/// How many bytes of a request's body the comment endpoints read.
pub const MAX_REQUEST_BYTES: usize = 8192;

/// How many bytes of a request's body the reaction endpoint reads.
pub const MAX_REACTION_BYTES: usize = 256;

/// How many bytes a comment may have.
pub const MAX_COMMENT_BYTES: usize = 4096;

/// The emojis that a reaction may be.
pub open spec fn is_allowed_emoji(e: Seq<char>) -> bool {
    ||| e == "👍"@
    ||| e == "🎉"@
    ||| e == "❤️"@
    ||| e == "🚀"@
    ||| e == "👀"@
    ||| e == "🙏"@
}

/// Whether a reaction may be this emoji.
pub fn emoji_allowed(e: &str) -> (r: bool)
    ensures
        r == is_allowed_emoji(e@),
{
    same_text(e, "👍") || same_text(e, "🎉") || same_text(e, "❤️") || same_text(e, "🚀") || same_text(
        e,
        "👀",
    ) || same_text(e, "🙏")
}

/// The body of a request for a new thread.
#[derive(Debug)]
pub struct CreateThreadBody {
    pub body: String,
    /// Where the commented range starts, in base64.
    pub position_y: Option<String>,
    /// Where the commented range ends, in base64.
    pub position_y_end: Option<String>,
    pub anchor_text: Option<String>,
    /// The users that the author picked by name.
    pub mentions: Vec<Uuid>,
}

/// The body of a request for a reply.
#[derive(Debug)]
pub struct CreateReplyBody {
    pub body: String,
    /// The users that the author picked by name.
    pub mentions: Vec<Uuid>,
}

/// The body of a request to change a comment.
#[derive(Debug)]
pub struct EditBody {
    pub body: String,
}

/// The body of a request to react to a comment.
#[derive(Debug)]
pub struct ReactionBody {
    pub emoji: String,
}

/// Why the comment store could not do what was asked.
#[derive(Clone, Copy, Debug, PartialEq, Eq, Structural)]
pub enum CommentStoreError {
    NotFound,
    BodyTooLong,
    Other,
}

/// The refusal of a comment that is too long.
pub open spec fn too_large() -> crate::http::RefusalView {
    crate::http::refusal(413, "comment.body_too_large"@, ""@)
}

/// The refusal of a comment that is not there.
pub open spec fn not_found() -> crate::http::RefusalView {
    crate::http::refusal(404, "comment.not_found"@, ""@)
}

/// What base64 text holds, or nothing where it is not base64.
pub uninterp spec fn base64_decoded(text: Seq<char>) -> Option<Seq<u8>>;

/// Decodes base64 of the standard alphabet, with padding.
///
/// Calls `base64::Engine::decode` of the engine
/// `base64::engine::general_purpose::STANDARD`. The result is named.
#[verifier::external_body]
fn decode_base64(text: &str) -> (r: Option<Vec<u8>>)
    ensures
        r is Some <==> base64_decoded(text@) is Some,
        r is Some ==> Some(r->0@) == base64_decoded(text@),
{
    base64::Engine::decode(&base64::engine::general_purpose::STANDARD, text).ok()
}

/// A position that a request names.
#[derive(Debug)]
pub enum Position {
    Absent,
    Invalid,
    Decoded(Vec<u8>),
}

#[verifier::ext_equal]
pub enum PositionView {
    Absent,
    Invalid,
    Decoded(Seq<u8>),
}

impl View for Position {
    type V = PositionView;

    open spec fn view(&self) -> PositionView {
        match *self {
            Position::Absent => PositionView::Absent,
            Position::Invalid => PositionView::Invalid,
            Position::Decoded(bytes) => PositionView::Decoded(bytes@),
        }
    }
}

/// The position that an optional base64 text names.
pub open spec fn position_of(text: Option<String>) -> PositionView {
    match text {
        None => PositionView::Absent,
        Some(t) => match base64_decoded(t@) {
            None => PositionView::Invalid,
            Some(bytes) => PositionView::Decoded(bytes),
        },
    }
}

/// The bytes of a position that is there and valid.
pub open spec fn position_bytes(p: PositionView) -> Option<Seq<u8>> {
    match p {
        PositionView::Decoded(bytes) => Some(bytes),
        _ => None,
    }
}

fn decode_position(text: &Option<String>) -> (r: Position)
    ensures
        r@ == position_of(*text),
{
    match text {
        None => Position::Absent,
        Some(t) => match decode_base64(t.as_str()) {
            None => Position::Invalid,
            Some(bytes) => Position::Decoded(bytes),
        },
    }
}

/// A thread that the store is to open.
#[derive(Debug)]
pub struct NewThread {
    pub doc_id: Uuid,
    pub author_id: Uuid,
    pub body: String,
    pub position_y: Option<Vec<u8>>,
    pub position_y_end: Option<Vec<u8>>,
    pub anchor_text: Option<String>,
    pub mentions: Vec<Uuid>,
}

#[verifier::ext_equal]
pub struct NewThreadView {
    pub doc_id: Uuid,
    pub author_id: Uuid,
    pub body: Seq<char>,
    pub position_y: Option<Seq<u8>>,
    pub position_y_end: Option<Seq<u8>>,
    pub anchor_text: Option<Seq<char>>,
    pub mentions: Seq<Uuid>,
}

/// The bytes of an optional vector.
pub open spec fn opt_bytes(v: Option<Vec<u8>>) -> Option<Seq<u8>> {
    match v {
        Some(v) => Some(v@),
        None => None,
    }
}

impl View for NewThread {
    type V = NewThreadView;

    open spec fn view(&self) -> NewThreadView {
        NewThreadView {
            doc_id: self.doc_id,
            author_id: self.author_id,
            body: self.body@,
            position_y: opt_bytes(self.position_y),
            position_y_end: opt_bytes(self.position_y_end),
            anchor_text: crate::notifications::opt_text(self.anchor_text),
            mentions: self.mentions@,
        }
    }
}

/// How many bytes a text has.
pub open spec fn byte_len(text: Seq<char>) -> nat {
    vstd::utf8::encode_utf8(text).len()
}

/// What answers a request for a new thread: the checks come in this order, and
/// the first that fails decides.
pub open spec fn thread_request(
    caller: Caller,
    doc_id: Uuid,
    received: Received<CreateThreadBody>,
    position_y: PositionView,
    position_y_end: PositionView,
    store_ready: bool,
) -> Result<NewThreadView, crate::http::RefusalView> {
    match crate::access::admitted(caller, crate::access::editor_gate(caller)) {
        Err(refused) => Err(refused),
        Ok(ctx) => match received {
            Received::Unreadable => Err(too_large()),
            Received::Malformed => Err(crate::http::bad_request()),
            Received::Parsed(b) => if byte_len(b.body@) > MAX_COMMENT_BYTES {
                Err(
                    crate::http::refusal(
                        413,
                        "comment.body_too_large"@,
                        "body must be ≤ 4096 chars"@,
                    ),
                )
            } else if position_y is Invalid {
                Err(crate::http::refusal(400, "comment.invalid_position_y"@, ""@))
            } else if position_y_end is Invalid {
                Err(crate::http::refusal(400, "comment.invalid_position_y_end"@, ""@))
            } else if !store_ready {
                Err(crate::http::internal_error())
            } else {
                Ok(
                    NewThreadView {
                        doc_id,
                        author_id: ctx.user_id,
                        body: b.body@,
                        position_y: position_bytes(position_y),
                        position_y_end: position_bytes(position_y_end),
                        anchor_text: crate::notifications::opt_text(b.anchor_text),
                        mentions: b.mentions@,
                    },
                )
            },
        },
    }
}

fn is_too_long(body: &String) -> (r: bool)
    ensures
        r == (byte_len(body@) > MAX_COMMENT_BYTES),
{
    body.as_str().as_bytes().len() > MAX_COMMENT_BYTES
}

/// Whether a request for a new thread goes to the store, given the positions
/// that it names.
pub fn open_thread(
    caller: &Caller,
    doc_id: Uuid,
    received: Received<CreateThreadBody>,
    position_y: Position,
    position_y_end: Position,
    store_ready: bool,
) -> (r: Result<NewThread, Refusal>)
    ensures
        crate::http::answers_view(
            r,
            thread_request(
                *caller,
                doc_id,
                received,
                position_y@,
                position_y_end@,
                store_ready,
            ),
        ),
{
    let ctx = match admit_editor(caller) {
        Ok(ctx) => ctx,
        Err(refused) => return Err(refused),
    };
    let b = match received {
        Received::Unreadable => return Err(refuse(413, "comment.body_too_large")),
        Received::Malformed => return Err(refuse(400, "bad_request")),
        Received::Parsed(b) => b,
    };
    if is_too_long(&b.body) {
        return Err(json_err(413, "comment.body_too_large", "body must be ≤ 4096 chars"));
    }
    let from: Option<Vec<u8>> = match position_y {
        Position::Absent => None,
        Position::Invalid => return Err(refuse(400, "comment.invalid_position_y")),
        Position::Decoded(bytes) => Some(bytes),
    };
    let to: Option<Vec<u8>> = match position_y_end {
        Position::Absent => None,
        Position::Invalid => return Err(refuse(400, "comment.invalid_position_y_end")),
        Position::Decoded(bytes) => Some(bytes),
    };
    if !store_ready {
        return Err(internal());
    }
    Ok(
        NewThread {
            doc_id,
            author_id: ctx.user_id,
            body: b.body,
            position_y: from,
            position_y_end: to,
            anchor_text: b.anchor_text,
            mentions: b.mentions,
        },
    )
}

/// The positions that a request for a new thread names.
pub open spec fn positions_of(received: Received<CreateThreadBody>) -> (PositionView, PositionView) {
    match received {
        Received::Parsed(b) => (position_of(b.position_y), position_of(b.position_y_end)),
        _ => (PositionView::Absent, PositionView::Absent),
    }
}

/// POST /api/docs/{doc_id}/comments: whether the request goes to the store.
pub fn create_thread(
    caller: &Caller,
    doc_id: Uuid,
    received: Received<CreateThreadBody>,
    store_ready: bool,
) -> (r: Result<NewThread, Refusal>)
    ensures
        crate::http::answers_view(
            r,
            thread_request(
                *caller,
                doc_id,
                received,
                positions_of(received).0,
                positions_of(received).1,
                store_ready,
            ),
        ),
{
    let (from, to) = match &received {
        Received::Parsed(b) => (decode_position(&b.position_y), decode_position(
            &b.position_y_end,
        )),
        _ => (Position::Absent, Position::Absent),
    };
    open_thread(caller, doc_id, received, from, to, store_ready)
}

/// A reply that the store is to add.
#[derive(Debug)]
pub struct NewReply {
    pub doc_id: Uuid,
    pub thread_id: Uuid,
    pub author_id: Uuid,
    pub body: String,
    pub mentions: Vec<Uuid>,
}

#[verifier::ext_equal]
pub struct NewReplyView {
    pub doc_id: Uuid,
    pub thread_id: Uuid,
    pub author_id: Uuid,
    pub body: Seq<char>,
    pub mentions: Seq<Uuid>,
}

impl View for NewReply {
    type V = NewReplyView;

    open spec fn view(&self) -> NewReplyView {
        NewReplyView {
            doc_id: self.doc_id,
            thread_id: self.thread_id,
            author_id: self.author_id,
            body: self.body@,
            mentions: self.mentions@,
        }
    }
}

/// What answers a request for a reply.
pub open spec fn reply_request(
    caller: Caller,
    doc_id: Uuid,
    thread_id: Uuid,
    received: Received<CreateReplyBody>,
    store_ready: bool,
) -> Result<NewReplyView, crate::http::RefusalView> {
    match crate::access::admitted(caller, crate::access::editor_gate(caller)) {
        Err(refused) => Err(refused),
        Ok(ctx) => match received {
            Received::Unreadable => Err(too_large()),
            Received::Malformed => Err(crate::http::bad_request()),
            Received::Parsed(b) => if byte_len(b.body@) > MAX_COMMENT_BYTES {
                Err(too_large())
            } else if !store_ready {
                Err(crate::http::internal_error())
            } else {
                Ok(
                    NewReplyView {
                        doc_id,
                        thread_id,
                        author_id: ctx.user_id,
                        body: b.body@,
                        mentions: b.mentions@,
                    },
                )
            },
        },
    }
}

/// POST /api/docs/{doc_id}/comments/{thread_id}/replies: whether the request
/// goes to the store.
pub fn create_reply(
    caller: &Caller,
    doc_id: Uuid,
    thread_id: Uuid,
    received: Received<CreateReplyBody>,
    store_ready: bool,
) -> (r: Result<NewReply, Refusal>)
    ensures
        crate::http::answers_view(
            r,
            reply_request(*caller, doc_id, thread_id, received, store_ready),
        ),
{
    let ctx = match admit_editor(caller) {
        Ok(ctx) => ctx,
        Err(refused) => return Err(refused),
    };
    let b = match received {
        Received::Unreadable => return Err(refuse(413, "comment.body_too_large")),
        Received::Malformed => return Err(refuse(400, "bad_request")),
        Received::Parsed(b) => b,
    };
    if is_too_long(&b.body) {
        return Err(refuse(413, "comment.body_too_large"));
    }
    if !store_ready {
        return Err(internal());
    }
    Ok(
        NewReply {
            doc_id,
            thread_id,
            author_id: ctx.user_id,
            body: b.body,
            mentions: b.mentions,
        },
    )
}

/// A comment that was written: the status of the answer, and what the inbox is
/// to be told.
#[derive(Debug)]
pub struct Written {
    pub status: u16,
    pub event: CommentEvent,
}

#[verifier::ext_equal]
pub struct WrittenView {
    pub status: u16,
    pub event: crate::comments::CommentEventView,
}

impl View for Written {
    type V = WrittenView;

    open spec fn view(&self) -> WrittenView {
        WrittenView { status: self.status, event: self.event@ }
    }
}

/// What answers a request for a new comment that went to the store.
pub open spec fn created_answer(
    doc_id: Uuid,
    author_id: Uuid,
    mentions: Seq<Uuid>,
    outcome: Result<Comment, CommentStoreError>,
) -> Result<WrittenView, crate::http::RefusalView> {
    match outcome {
        Ok(c) => Ok(
            WrittenView {
                status: 201,
                event: crate::comments::CommentEventView {
                    doc_id,
                    thread_id: c.thread_id,
                    comment_id: c.id,
                    author_id,
                    body: c.body@,
                    write: CommentWrite::Created,
                    explicit: mentions,
                },
            },
        ),
        Err(CommentStoreError::BodyTooLong) => Err(too_large()),
        Err(_) => Err(crate::http::internal_error()),
    }
}

/// Answers a request for a new comment, a thread's first or a reply, that went
/// to the store.
pub fn comment_created(
    doc_id: Uuid,
    author_id: Uuid,
    mentions: Vec<Uuid>,
    outcome: Result<Comment, CommentStoreError>,
) -> (r: Result<Written, Refusal>)
    ensures
        crate::http::answers_view(r, created_answer(doc_id, author_id, mentions@, outcome)),
{
    match outcome {
        Ok(c) => Ok(
            Written {
                status: 201,
                event: CommentEvent {
                    doc_id,
                    thread_id: c.thread_id,
                    comment_id: c.id,
                    author_id,
                    body: c.body,
                    write: CommentWrite::Created,
                    explicit: mentions,
                },
            },
        ),
        Err(CommentStoreError::BodyTooLong) => Err(refuse(413, "comment.body_too_large")),
        Err(_) => Err(internal()),
    }
}

/// GET /api/docs/{doc_id}/comments: whether the request goes to the store.
pub fn list_comments(caller: &Caller, store_ready: bool) -> (r: Option<Refusal>)
    ensures
        crate::access::refuses(r, crate::access::viewer_request(*caller, store_ready)),
{
    if let Some(refused) = require_viewer(caller) {
        return Some(refused);
    }
    if !store_ready {
        return Some(internal());
    }
    None
}

/// What answers a request to change something about a comment before the
/// comment is read.
pub open spec fn change_request(caller: Caller, store_ready: bool) -> Result<
    AuthContext,
    crate::http::RefusalView,
> {
    match crate::access::admitted(caller, crate::access::editor_gate(caller)) {
        Err(refused) => Err(refused),
        Ok(ctx) => if store_ready {
            Ok(ctx)
        } else {
            Err(crate::http::internal_error())
        },
    }
}

/// Whether a request to resolve or reopen a thread, to take back a reaction or
/// to delete a comment gets to read the comment.
pub fn may_change(caller: &Caller, store_ready: bool) -> (r: Result<AuthContext, Refusal>)
    ensures
        crate::http::answers(r, change_request(*caller, store_ready)),
{
    match admit_editor(caller) {
        Err(refused) => Err(refused),
        Ok(ctx) => if store_ready {
            Ok(ctx)
        } else {
            Err(internal())
        },
    }
}

/// What answers a request about a comment that was looked up: the role on the
/// path's document says nothing of other documents, so a comment of another one
/// is as good as absent.
pub open spec fn in_doc(
    found: Result<Comment, CommentStoreError>,
    doc_id: Uuid,
) -> Result<(), crate::http::RefusalView> {
    match found {
        Ok(c) => if c.doc_id == doc_id {
            Ok(())
        } else {
            Err(not_found())
        },
        Err(CommentStoreError::NotFound) => Err(not_found()),
        Err(_) => Err(crate::http::internal_error()),
    }
}

/// Refuses a comment that does not belong to the document of the request.
pub fn ensure_comment_in_doc(
    found: &Result<Comment, CommentStoreError>,
    doc_id: Uuid,
) -> (r: Result<(), Refusal>)
    ensures
        crate::http::answers(r, in_doc(*found, doc_id)),
{
    match found {
        Ok(c) => if c.doc_id == doc_id {
            Ok(())
        } else {
            Err(refuse(404, "comment.not_found"))
        },
        Err(CommentStoreError::NotFound) => Err(refuse(404, "comment.not_found")),
        Err(_) => Err(internal()),
    }
}

/// What answers a request to resolve or reopen a thread that went to the store.
pub open spec fn thread_answer(outcome: Result<(), CommentStoreError>) -> Result<
    u16,
    crate::http::RefusalView,
> {
    match outcome {
        Ok(_) => Ok(204u16),
        Err(CommentStoreError::NotFound) => Err(
            crate::http::refusal(404, "comment.not_found"@, "thread not found or not a root"@),
        ),
        Err(_) => Err(crate::http::internal_error()),
    }
}

/// Answers a request to resolve or reopen a thread that went to the store.
pub fn thread_changed(outcome: &Result<(), CommentStoreError>) -> (r: Result<u16, Refusal>)
    ensures
        crate::http::answers(r, thread_answer(*outcome)),
{
    match outcome {
        Ok(_) => Ok(204),
        Err(CommentStoreError::NotFound) => Err(
            json_err(404, "comment.not_found", "thread not found or not a root"),
        ),
        Err(_) => Err(internal()),
    }
}

/// Answers a request to add or take back a reaction, or to delete a comment,
/// that went to the store.
pub fn stored(outcome: &Result<(), CommentStoreError>) -> (r: Result<u16, Refusal>)
    ensures
        crate::http::answers(r, crate::http::written_answer(outcome is Ok)),
{
    match outcome {
        Ok(_) => Ok(204),
        Err(_) => Err(internal()),
    }
}

/// A reaction that the store is to add.
#[derive(Debug)]
pub struct NewReaction {
    pub user_id: Uuid,
    pub emoji: String,
}

#[verifier::ext_equal]
pub struct NewReactionView {
    pub user_id: Uuid,
    pub emoji: Seq<char>,
}

impl View for NewReaction {
    type V = NewReactionView;

    open spec fn view(&self) -> NewReactionView {
        NewReactionView { user_id: self.user_id, emoji: self.emoji@ }
    }
}

/// What answers a request to react before the comment is read.
pub open spec fn reaction_request(
    caller: Caller,
    received: Received<ReactionBody>,
    store_ready: bool,
) -> Result<NewReactionView, crate::http::RefusalView> {
    match crate::access::admitted(caller, crate::access::editor_gate(caller)) {
        Err(refused) => Err(refused),
        Ok(ctx) => match received {
            Received::Unreadable => Err(crate::http::bad_request()),
            Received::Malformed => Err(crate::http::bad_request()),
            Received::Parsed(b) => if !is_allowed_emoji(b.emoji@) {
                Err(
                    crate::http::refusal(
                        415,
                        "comment.invalid_emoji"@,
                        "emoji not in allow-list"@,
                    ),
                )
            } else if !store_ready {
                Err(crate::http::internal_error())
            } else {
                Ok(NewReactionView { user_id: ctx.user_id, emoji: b.emoji@ })
            },
        },
    }
}

/// POST /api/docs/{doc_id}/comments/{comment_id}/reactions: whether the request
/// gets to read the comment.
pub fn add_reaction(
    caller: &Caller,
    received: Received<ReactionBody>,
    store_ready: bool,
) -> (r: Result<NewReaction, Refusal>)
    ensures
        crate::http::answers_view(r, reaction_request(*caller, received, store_ready)),
{
    let ctx = match admit_editor(caller) {
        Ok(ctx) => ctx,
        Err(refused) => return Err(refused),
    };
    let b = match received {
        Received::Parsed(b) => b,
        _ => return Err(refuse(400, "bad_request")),
    };
    if !emoji_allowed(b.emoji.as_str()) {
        return Err(json_err(415, "comment.invalid_emoji", "emoji not in allow-list"));
    }
    if !store_ready {
        return Err(internal());
    }
    Ok(NewReaction { user_id: ctx.user_id, emoji: b.emoji })
}

/// A change to a comment's text.
#[derive(Debug)]
pub struct CommentEdit {
    pub editor_id: Uuid,
    pub body: String,
}

#[verifier::ext_equal]
pub struct CommentEditView {
    pub editor_id: Uuid,
    pub body: Seq<char>,
}

impl View for CommentEdit {
    type V = CommentEditView;

    open spec fn view(&self) -> CommentEditView {
        CommentEditView { editor_id: self.editor_id, body: self.body@ }
    }
}

/// What answers a request to change a comment before the comment is read.
pub open spec fn edit_request(
    caller: Caller,
    received: Received<EditBody>,
    store_ready: bool,
) -> Result<CommentEditView, crate::http::RefusalView> {
    match crate::access::admitted(caller, crate::access::editor_gate(caller)) {
        Err(refused) => Err(refused),
        Ok(ctx) => match received {
            Received::Unreadable => Err(too_large()),
            Received::Malformed => Err(crate::http::bad_request()),
            Received::Parsed(b) => if byte_len(b.body@) > MAX_COMMENT_BYTES {
                Err(too_large())
            } else if !store_ready {
                Err(crate::http::internal_error())
            } else {
                Ok(CommentEditView { editor_id: ctx.user_id, body: b.body@ })
            },
        },
    }
}

/// PATCH /api/docs/{doc_id}/comments/{comment_id}: whether the request gets to
/// read the comment.
pub fn edit_comment(
    caller: &Caller,
    received: Received<EditBody>,
    store_ready: bool,
) -> (r: Result<CommentEdit, Refusal>)
    ensures
        crate::http::answers_view(r, edit_request(*caller, received, store_ready)),
{
    let ctx = match admit_editor(caller) {
        Ok(ctx) => ctx,
        Err(refused) => return Err(refused),
    };
    let b = match received {
        Received::Unreadable => return Err(refuse(413, "comment.body_too_large")),
        Received::Malformed => return Err(refuse(400, "bad_request")),
        Received::Parsed(b) => b,
    };
    if is_too_long(&b.body) {
        return Err(refuse(413, "comment.body_too_large"));
    }
    if !store_ready {
        return Err(internal());
    }
    Ok(CommentEdit { editor_id: ctx.user_id, body: b.body })
}

/// Whether the change may be made to the comment that was found.
pub open spec fn edit_permission(
    editor_id: Uuid,
    doc_id: Uuid,
    found: Result<Comment, CommentStoreError>,
) -> Result<(), crate::http::RefusalView> {
    match in_doc(found, doc_id) {
        Err(refused) => Err(refused),
        Ok(_) => if found->Ok_0.author_id == editor_id {
            Ok(())
        } else {
            Err(crate::http::refusal(403, "comment.not_author"@, "only the author can edit"@))
        },
    }
}

/// Whether the change may be made to the comment that was found: only its author
/// may.
pub fn edit_allowed(
    editor_id: Uuid,
    doc_id: Uuid,
    found: &Result<Comment, CommentStoreError>,
) -> (r: Result<(), Refusal>)
    ensures
        crate::http::answers(r, edit_permission(editor_id, doc_id, *found)),
{
    match found {
        Ok(c) => if c.doc_id != doc_id {
            Err(refuse(404, "comment.not_found"))
        } else if c.author_id != editor_id {
            Err(json_err(403, "comment.not_author", "only the author can edit"))
        } else {
            Ok(())
        },
        Err(CommentStoreError::NotFound) => Err(refuse(404, "comment.not_found")),
        Err(_) => Err(internal()),
    }
}

/// What answers a request to change a comment that went to the store.
pub open spec fn edited_answer(
    editor_id: Uuid,
    outcome: Result<Comment, CommentStoreError>,
) -> Result<WrittenView, crate::http::RefusalView> {
    match outcome {
        Ok(c) => Ok(
            WrittenView {
                status: 200,
                event: crate::comments::CommentEventView {
                    doc_id: c.doc_id,
                    thread_id: c.thread_id,
                    comment_id: c.id,
                    author_id: editor_id,
                    body: c.body@,
                    write: CommentWrite::Edited,
                    explicit: Seq::empty(),
                },
            },
        ),
        Err(CommentStoreError::NotFound) => Err(not_found()),
        Err(CommentStoreError::BodyTooLong) => Err(too_large()),
        Err(_) => Err(crate::http::internal_error()),
    }
}

/// Answers a request to change a comment that went to the store.
pub fn comment_edited(
    editor_id: Uuid,
    outcome: Result<Comment, CommentStoreError>,
) -> (r: Result<Written, Refusal>)
    ensures
        crate::http::answers_view(r, edited_answer(editor_id, outcome)),
{
    match outcome {
        Ok(c) => Ok(
            Written {
                status: 200,
                event: CommentEvent {
                    doc_id: c.doc_id,
                    thread_id: c.thread_id,
                    comment_id: c.id,
                    author_id: editor_id,
                    body: c.body,
                    write: CommentWrite::Edited,
                    explicit: Vec::new(),
                },
            },
        ),
        Err(CommentStoreError::NotFound) => Err(refuse(404, "comment.not_found")),
        Err(CommentStoreError::BodyTooLong) => Err(refuse(413, "comment.body_too_large")),
        Err(_) => Err(internal()),
    }
}

/// Whether the comment that was found may be deleted.
pub open spec fn delete_permission(
    ctx: AuthContext,
    doc_id: Uuid,
    found: Result<Comment, CommentStoreError>,
) -> Result<(), crate::http::RefusalView> {
    match in_doc(found, doc_id) {
        Err(refused) => Err(refused),
        Ok(_) => if found->Ok_0.author_id == ctx.user_id || ctx.role == WorkspaceRole::Owner {
            Ok(())
        } else {
            Err(
                crate::http::refusal(
                    403,
                    "comment.not_author"@,
                    "only author or workspace owner can delete"@,
                ),
            )
        },
    }
}

/// DELETE /api/docs/{doc_id}/comments/{comment_id}: whether the comment that was
/// found may be deleted. Its author may, and an owner of the workspace.
pub fn delete_allowed(
    ctx: &AuthContext,
    doc_id: Uuid,
    found: &Result<Comment, CommentStoreError>,
) -> (r: Result<(), Refusal>)
    ensures
        crate::http::answers(r, delete_permission(*ctx, doc_id, *found)),
{
    match found {
        Ok(c) => if c.doc_id != doc_id {
            Err(refuse(404, "comment.not_found"))
        } else if c.author_id != ctx.user_id && ctx.role != WorkspaceRole::Owner {
            Err(json_err(403, "comment.not_author", "only author or workspace owner can delete"))
        } else {
            Ok(())
        },
        Err(CommentStoreError::NotFound) => Err(refuse(404, "comment.not_found")),
        Err(_) => Err(internal()),
    }
}

/// Nothing can be done to a comment through the path of another document: every
/// request is answered as if the comment were not there.
pub proof fn law_comments_of_other_documents_are_out_of_reach(
    c: Comment,
    doc_id: Uuid,
    ctx: AuthContext,
)
    requires
        c.doc_id != doc_id,
    ensures
        in_doc(Ok(c), doc_id) == Err::<(), _>(not_found()),
        edit_permission(ctx.user_id, doc_id, Ok(c)) == Err::<(), _>(not_found()),
        delete_permission(ctx, doc_id, Ok(c)) == Err::<(), _>(not_found()),
        in_doc(Err(CommentStoreError::NotFound), doc_id) == Err::<(), _>(not_found()),
{
}

/// Who may change a comment may also delete it.
pub proof fn law_who_may_edit_may_delete(
    ctx: AuthContext,
    doc_id: Uuid,
    found: Result<Comment, CommentStoreError>,
)
    requires
        edit_permission(ctx.user_id, doc_id, found) is Ok,
    ensures
        delete_permission(ctx, doc_id, found) is Ok,
        found is Ok && found->Ok_0.author_id == ctx.user_id && found->Ok_0.doc_id == doc_id,
{
}

/// No request of someone who may not change the document gets to the store.
pub proof fn law_writing_needs_an_editor(
    caller: Caller,
    doc_id: Uuid,
    thread_id: Uuid,
    thread: Received<CreateThreadBody>,
    y: PositionView,
    y_end: PositionView,
    reply: Received<CreateReplyBody>,
    edit: Received<EditBody>,
    reaction: Received<ReactionBody>,
    store_ready: bool,
)
    requires
        crate::access::editor_gate(caller) is Some,
    ensures
        ({
            let refused = crate::access::editor_gate(caller)->0;
            &&& thread_request(caller, doc_id, thread, y, y_end, store_ready) == Err::<
                NewThreadView,
                _,
            >(refused)
            &&& reply_request(caller, doc_id, thread_id, reply, store_ready) == Err::<
                NewReplyView,
                _,
            >(refused)
            &&& edit_request(caller, edit, store_ready) == Err::<CommentEditView, _>(refused)
            &&& reaction_request(caller, reaction, store_ready) == Err::<NewReactionView, _>(
                refused,
            )
            &&& change_request(caller, store_ready) == Err::<AuthContext, _>(refused)
        }),
{
}

/// Whether a caller may change the document: there is a session, and the caller is
/// an owner or an editor of it.
pub open spec fn may_write(caller: Caller) -> bool {
    caller.auth is Some && (caller.doc_role == Some(WorkspaceRole::Owner) || caller.doc_role
        == Some(WorkspaceRole::Editor))
}

/// A request for a new thread goes to the store exactly where the caller may change
/// the document, the body was understood, its text has at most 4096 bytes, no
/// position is invalid and the store is there. What goes there is what was sent, by
/// the caller, in the document of the path.
pub proof fn law_a_thread_is_opened_as_requested(
    caller: Caller,
    doc_id: Uuid,
    received: Received<CreateThreadBody>,
    position_y: PositionView,
    position_y_end: PositionView,
    store_ready: bool,
)
    ensures
        ({
            let answer = thread_request(
                caller,
                doc_id,
                received,
                position_y,
                position_y_end,
                store_ready,
            );
            let fits = received is Parsed && vstd::utf8::encode_utf8(
                received->Parsed_0.body@,
            ).len() <= 4096;
            &&& answer is Ok <==> may_write(caller) && fits && !(position_y is Invalid) && !(
            position_y_end is Invalid) && store_ready
            &&& answer matches Ok(t) ==> {
                let b = received->Parsed_0;
                &&& t.doc_id == doc_id
                &&& t.author_id == caller.auth->0.user_id
                &&& t.body == b.body@
                &&& t.mentions == b.mentions@
                &&& b.anchor_text is None ==> t.anchor_text is None
                &&& b.anchor_text is Some ==> t.anchor_text == Some(b.anchor_text->0@)
                &&& position_y is Absent ==> t.position_y is None
                &&& position_y is Decoded ==> t.position_y == Some(position_y->Decoded_0)
                &&& position_y_end is Absent ==> t.position_y_end is None
                &&& position_y_end is Decoded ==> t.position_y_end == Some(
                    position_y_end->Decoded_0,
                )
            }
            &&& may_write(caller) && received is Unreadable ==> answer->Err_0.status == 413
                && answer->Err_0.code == "comment.body_too_large"@
            &&& may_write(caller) && received is Malformed ==> answer->Err_0.status == 400
                && answer->Err_0.code == "bad_request"@
            &&& may_write(caller) && received is Parsed && !fits ==> answer->Err_0.status == 413
                && answer->Err_0.code == "comment.body_too_large"@
            &&& may_write(caller) && fits && position_y is Invalid ==> answer->Err_0.status == 400
                && answer->Err_0.code == "comment.invalid_position_y"@
            &&& may_write(caller) && fits && !(position_y is Invalid) && position_y_end is Invalid
                ==> answer->Err_0.status == 400 && answer->Err_0.code
                == "comment.invalid_position_y_end"@
            &&& may_write(caller) && fits && !(position_y is Invalid) && !(position_y_end is Invalid)
                && !store_ready ==> answer->Err_0.status == 500
        }),
{
    crate::access::law_gates_are_nested(caller);
}

/// The positions of a thread are those of its request: none where the request names
/// none, and else what its base64 text holds.
pub proof fn law_positions_are_decoded(received: Received<CreateThreadBody>)
    requires
        received is Parsed,
    ensures
        ({
            let b = received->Parsed_0;
            let (y, y_end) = positions_of(received);
            &&& b.position_y is None <==> y is Absent
            &&& b.position_y is Some && base64_decoded(b.position_y->0@) is None <==> y is Invalid
            &&& y is Decoded ==> base64_decoded(b.position_y->0@) == Some(y->Decoded_0)
            &&& b.position_y_end is None <==> y_end is Absent
            &&& b.position_y_end is Some && base64_decoded(b.position_y_end->0@) is None
                <==> y_end is Invalid
            &&& y_end is Decoded ==> base64_decoded(b.position_y_end->0@) == Some(y_end->Decoded_0)
        }),
{
}

/// A request for a reply goes to the store exactly where the caller may change the
/// document, the body was understood, its text has at most 4096 bytes and the store
/// is there. What goes there is what was sent, by the caller, in the document and
/// the thread of the path.
pub proof fn law_a_reply_is_added_as_requested(
    caller: Caller,
    doc_id: Uuid,
    thread_id: Uuid,
    received: Received<CreateReplyBody>,
    store_ready: bool,
)
    ensures
        ({
            let answer = reply_request(caller, doc_id, thread_id, received, store_ready);
            let fits = received is Parsed && vstd::utf8::encode_utf8(
                received->Parsed_0.body@,
            ).len() <= 4096;
            &&& answer is Ok <==> may_write(caller) && fits && store_ready
            &&& answer matches Ok(n) ==> {
                &&& n.doc_id == doc_id
                &&& n.thread_id == thread_id
                &&& n.author_id == caller.auth->0.user_id
                &&& n.body == received->Parsed_0.body@
                &&& n.mentions == received->Parsed_0.mentions@
            }
            &&& may_write(caller) && received is Malformed ==> answer->Err_0.status == 400
            &&& may_write(caller) && !(received is Malformed) && !fits ==> answer->Err_0.status
                == 413 && answer->Err_0.code == "comment.body_too_large"@
            &&& may_write(caller) && fits && !store_ready ==> answer->Err_0.status == 500
        }),
{
    crate::access::law_gates_are_nested(caller);
}

/// A comment that was stored is answered as created, and the inbox is told of that
/// comment, by its author, with the users whom the author picked: a new thread and
/// a reply alike. Too long a text is the client's fault; all else is the server's.
pub proof fn law_a_stored_comment_is_told(
    doc_id: Uuid,
    author_id: Uuid,
    mentions: Seq<Uuid>,
    outcome: Result<Comment, CommentStoreError>,
)
    ensures
        ({
            let answer = created_answer(doc_id, author_id, mentions, outcome);
            &&& answer is Ok <==> outcome is Ok
            &&& answer matches Ok(w) ==> {
                let c = outcome->Ok_0;
                &&& w.status == 201
                &&& w.event.doc_id == doc_id
                &&& w.event.thread_id == c.thread_id
                &&& w.event.comment_id == c.id
                &&& w.event.author_id == author_id
                &&& w.event.body == c.body@
                &&& w.event.write == CommentWrite::Created
                &&& w.event.explicit == mentions
            }
            &&& outcome == Err::<Comment, _>(CommentStoreError::BodyTooLong)
                ==> answer->Err_0.status == 413
            &&& outcome is Err && outcome != Err::<Comment, _>(CommentStoreError::BodyTooLong)
                ==> answer->Err_0.status == 500
        }),
{
}

/// A comment that was changed is answered as such, and the inbox is told of the
/// change, by who changed it, in the comment's own document; nobody was picked.
pub proof fn law_a_changed_comment_is_told(
    editor_id: Uuid,
    outcome: Result<Comment, CommentStoreError>,
)
    ensures
        ({
            let answer = edited_answer(editor_id, outcome);
            &&& answer is Ok <==> outcome is Ok
            &&& answer matches Ok(w) ==> {
                let c = outcome->Ok_0;
                &&& w.status == 200
                &&& w.event.doc_id == c.doc_id
                &&& w.event.thread_id == c.thread_id
                &&& w.event.comment_id == c.id
                &&& w.event.author_id == editor_id
                &&& w.event.body == c.body@
                &&& w.event.write == CommentWrite::Edited
                &&& w.event.explicit.len() == 0
            }
            &&& outcome == Err::<Comment, _>(CommentStoreError::NotFound) ==> answer->Err_0.status
                == 404
            &&& outcome == Err::<Comment, _>(CommentStoreError::BodyTooLong)
                ==> answer->Err_0.status == 413
            &&& outcome == Err::<Comment, _>(CommentStoreError::Other) ==> answer->Err_0.status
                == 500
        }),
{
}

/// A request to change a comment gets to read it exactly where the caller may change
/// the document, the body was understood, its text has at most 4096 bytes and the
/// store is there. The text is that of the body, the editor is the caller.
pub proof fn law_an_edit_is_made_as_requested(
    caller: Caller,
    received: Received<EditBody>,
    store_ready: bool,
)
    ensures
        ({
            let answer = edit_request(caller, received, store_ready);
            let fits = received is Parsed && vstd::utf8::encode_utf8(
                received->Parsed_0.body@,
            ).len() <= 4096;
            &&& answer is Ok <==> may_write(caller) && fits && store_ready
            &&& answer matches Ok(e) ==> e.editor_id == caller.auth->0.user_id && e.body
                == received->Parsed_0.body@
            &&& may_write(caller) && received is Malformed ==> answer->Err_0.status == 400
            &&& may_write(caller) && !(received is Malformed) && !fits ==> answer->Err_0.status
                == 413
            &&& may_write(caller) && fits && !store_ready ==> answer->Err_0.status == 500
        }),
{
    crate::access::law_gates_are_nested(caller);
}

/// A reaction gets to read its comment exactly where the caller may change the
/// document, the body was understood, its emoji is one of those allowed and the
/// store is there. It is the caller's, with the emoji of the body.
pub proof fn law_a_reaction_is_added_as_requested(
    caller: Caller,
    received: Received<ReactionBody>,
    store_ready: bool,
)
    ensures
        ({
            let answer = reaction_request(caller, received, store_ready);
            let allowed = received is Parsed && is_allowed_emoji(received->Parsed_0.emoji@);
            &&& answer is Ok <==> may_write(caller) && allowed && store_ready
            &&& answer matches Ok(n) ==> n.user_id == caller.auth->0.user_id && n.emoji
                == received->Parsed_0.emoji@
            &&& may_write(caller) && !(received is Parsed) ==> answer->Err_0.status == 400
            &&& may_write(caller) && received is Parsed && !allowed ==> answer->Err_0.status == 415
                && answer->Err_0.code == "comment.invalid_emoji"@
            &&& may_write(caller) && allowed && !store_ready ==> answer->Err_0.status == 500
        }),
{
    crate::access::law_gates_are_nested(caller);
}

/// Who may touch a comment that was looked up: in the document of the path, its
/// author alone may change it, and its author or an owner of the workspace may
/// delete it, whatever role they have otherwise. A comment that cannot be read is
/// the server's fault.
pub proof fn law_who_may_touch_a_comment(
    ctx: AuthContext,
    doc_id: Uuid,
    found: Result<Comment, CommentStoreError>,
)
    ensures
        ({
            let here = found is Ok && found->Ok_0.doc_id == doc_id;
            let own = here && found->Ok_0.author_id == ctx.user_id;
            &&& in_doc(found, doc_id) is Ok <==> here
            &&& edit_permission(ctx.user_id, doc_id, found) is Ok <==> own
            &&& delete_permission(ctx, doc_id, found) is Ok <==> own || here && ctx.role
                == WorkspaceRole::Owner
            &&& here && !own ==> edit_permission(ctx.user_id, doc_id, found)->Err_0.status == 403
                && edit_permission(ctx.user_id, doc_id, found)->Err_0.code
                == "comment.not_author"@
            &&& here && !own && ctx.role != WorkspaceRole::Owner ==> delete_permission(
                ctx,
                doc_id,
                found,
            )->Err_0.status == 403 && delete_permission(ctx, doc_id, found)->Err_0.code
                == "comment.not_author"@
            &&& found is Ok && !here ==> in_doc(found, doc_id)->Err_0.status == 404
            &&& found == Err::<Comment, _>(CommentStoreError::NotFound) ==> in_doc(
                found,
                doc_id,
            )->Err_0.status == 404
            &&& found is Err && found != Err::<Comment, _>(CommentStoreError::NotFound) ==> in_doc(
                found,
                doc_id,
            )->Err_0.status == 500
        }),
{
}

/// A request to change something about a comment gets to read it exactly where the
/// caller may change the document and the store is there, in the caller's session.
pub proof fn law_changes_are_made_by_the_caller(caller: Caller, store_ready: bool)
    ensures
        change_request(caller, store_ready) is Ok <==> may_write(caller) && store_ready,
        change_request(caller, store_ready) matches Ok(ctx) ==> caller.auth == Some(ctx),
        may_write(caller) && !store_ready ==> change_request(caller, store_ready)->Err_0.status
            == 500,
        caller.auth is None ==> change_request(caller, store_ready)->Err_0.status == 401,
        caller.auth is Some && !may_write(caller) ==> change_request(
            caller,
            store_ready,
        )->Err_0.status == 403,
{
    crate::access::law_gates_are_nested(caller);
}

/// A reaction is one of six emojis and no other text.
pub proof fn law_which_emojis_are_allowed(e: Seq<char>)
    ensures
        is_allowed_emoji(e) <==> seq!["👍"@, "🎉"@, "❤️"@, "🚀"@, "👀"@, "🙏"@].contains(e),
{
    let all = seq!["👍"@, "🎉"@, "❤️"@, "🚀"@, "👀"@, "🙏"@];
    assert(all[0] == "👍"@ && all[1] == "🎉"@ && all[2] == "❤️"@ && all[3] == "🚀"@ && all[4] == "👀"@
        && all[5] == "🙏"@);
    if all.contains(e) {
        let i = choose|i: int| 0 <= i < all.len() && all[i] == e;
        assert(i == 0 || i == 1 || i == 2 || i == 3 || i == 4 || i == 5);
    }
}

/// A thread that was resolved or reopened is answered with 204; one that is not there,
/// or is no thread's first comment, with 404; and all else with 500.
pub proof fn law_what_a_changed_thread_is_answered(outcome: Result<(), CommentStoreError>)
    ensures
        outcome is Ok <==> thread_answer(outcome) == Ok::<u16, crate::http::RefusalView>(204u16),
        outcome == Err::<(), _>(CommentStoreError::NotFound) ==> thread_answer(
            outcome,
        )->Err_0.status == 404 && thread_answer(outcome)->Err_0.code == "comment.not_found"@,
        outcome is Err && outcome != Err::<(), _>(CommentStoreError::NotFound) ==> thread_answer(
            outcome,
        )->Err_0.status == 500,
{
}

} // verus!
