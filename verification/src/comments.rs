//! Comments on documents: whom a comment tells of what.

use crate::ids::{format_uuid, Uuid};
use crate::notifications::{NewNotification, NotificationData, NotificationKind};
use crate::seqs::has_u128;
use crate::text::{any_text, join2};
use vstd::prelude::*;
use vstd::string::*;

verus! {

/// How many characters of a comment a notification shows.
pub const EXCERPT_CHARS: usize = 140;

/// What the first group of a pattern captured at each of its matches in a text,
/// or nothing where the pattern is not one.
pub uninterp spec fn first_groups(pattern: Seq<char>, text: Seq<char>) -> Option<
    Seq<Option<Seq<char>>>,
>;

/// A text in lower case.
pub uninterp spec fn lowercase(text: Seq<char>) -> Seq<char>;

/// The views of a sequence of texts.
pub open spec fn texts_view(texts: Seq<String>) -> Seq<Seq<char>> {
    Seq::new(texts.len(), |i: int| texts[i]@)
}

/// The views of a sequence of optional texts.
pub open spec fn opt_texts_view(texts: Seq<Option<String>>) -> Seq<Option<Seq<char>>> {
    Seq::new(texts.len(), |i: int| crate::notifications::opt_text(texts[i]))
}

/// The pattern of a mention: a word behind an `@` that starts the text or
/// follows white space.
pub open spec fn mention_pattern() -> Seq<char> {
    "(?:^|\\s)@(\\w+)"@
}

/// What the first group of a pattern captured at each of its matches, from left
/// to right.
///
/// Calls `regex::Regex::new` and `captures_iter`, and `get(1)` on each of the
/// captures. The result is named; it is claimed besides that the pattern of a
/// mention is one that `Regex::new` accepts.
#[verifier::external_body]
fn find_first_groups(pattern: &str, text: &str) -> (r: Option<Vec<Option<String>>>)
    ensures
        r is Some <==> first_groups(pattern@, text@) is Some,
        r is Some ==> Some(opt_texts_view(r->0@)) == first_groups(pattern@, text@),
        pattern@ == mention_pattern() ==> r is Some,
{
    match regex::Regex::new(pattern) {
        Ok(re) => Some(
            re.captures_iter(text).map(|c| c.get(1).map(|m| m.as_str().to_string())).collect(),
        ),
        Err(_) => None,
    }
}

/// A text in lower case.
///
/// Calls `str::to_lowercase`. The result is named.
#[verifier::external_body]
fn to_lowercase(text: &str) -> (r: String)
    ensures
        r@ == lowercase(text@),
{
    text.to_lowercase()
}

/// The handles among what was captured, in lower case.
pub open spec fn handles_of(found: Seq<Option<Seq<char>>>) -> Seq<Seq<char>>
    decreases found.len(),
{
    if found.len() == 0 {
        Seq::empty()
    } else {
        let rest = handles_of(found.drop_last());
        match found.last() {
            Some(handle) => rest.push(lowercase(handle)),
            None => rest,
        }
    }
}

/// The handles among what was captured, in lower case.
pub fn lowercase_handles(found: &Vec<Option<String>>) -> (r: Vec<String>)
    ensures
        texts_view(r@) == handles_of(opt_texts_view(found@)),
{
    let ghost all = opt_texts_view(found@);
    let mut out: Vec<String> = Vec::new();
    let mut i: usize = 0;
    proof {
        assert(all.take(0) =~= Seq::<Option<Seq<char>>>::empty());
        assert(texts_view(out@) =~= handles_of(all.take(0)));
    }
    while i < found.len()
        invariant
            i <= found@.len(),
            all == opt_texts_view(found@),
            texts_view(out@) == handles_of(all.take(i as int)),
        decreases found@.len() - i,
    {
        proof {
            assert(all.take(i + 1).drop_last() =~= all.take(i as int));
            assert(all.take(i + 1).last() == all[i as int]);
        }
        let ghost out0 = out@;
        match &found[i] {
            Some(handle) => {
                let low = to_lowercase(handle.as_str());
                let ghost v = low@;
                out.push(low);
                assert(texts_view(out@) =~= texts_view(out0).push(v));
            },
            None => {},
        }
        i += 1;
    }
    assert(all.take(i as int) =~= all);
    out
}

/// The handles that a comment mentions, in lower case.
pub open spec fn mentions_in(body: Seq<char>) -> Seq<Seq<char>> {
    handles_of(first_groups(mention_pattern(), body)->0)
}

/// The handles that a comment mentions, in lower case.
pub fn extract_mentions(body: &str) -> (r: Vec<String>)
    ensures
        texts_view(r@) == mentions_in(body@),
{
    match find_first_groups("(?:^|\\s)@(\\w+)", body) {
        Some(found) => lowercase_handles(&found),
        None => Vec::new(),
    }
}

/// Whether a comment was just written or changed afterwards. A change tells the
/// thread nothing new, so it notifies nobody of a reply; it can still mention
/// someone for the first time.
#[derive(Clone, Copy, Debug, PartialEq, Eq, Structural)]
pub enum CommentWrite {
    Created,
    Edited,
}

/// A member of a workspace.
#[derive(Debug)]
pub struct Member {
    pub user_id: Uuid,
    pub display_name: String,
}

#[verifier::ext_equal]
pub struct MemberView {
    pub user_id: Uuid,
    pub display_name: Seq<char>,
}

impl View for Member {
    type V = MemberView;

    open spec fn view(&self) -> MemberView {
        MemberView { user_id: self.user_id, display_name: self.display_name@ }
    }
}

/// The views of a sequence of members.
pub open spec fn members_view(ms: Seq<Member>) -> Seq<MemberView> {
    Seq::new(ms.len(), |i: int| ms[i]@)
}

/// A comment, as far as decisions depend on it.
#[derive(Debug)]
pub struct Comment {
    pub id: Uuid,
    pub doc_id: Uuid,
    pub thread_id: Uuid,
    pub author_id: Uuid,
    pub body: String,
    pub deleted: bool,
}

#[verifier::ext_equal]
pub struct CommentView {
    pub id: Uuid,
    pub doc_id: Uuid,
    pub thread_id: Uuid,
    pub author_id: Uuid,
    pub body: Seq<char>,
    pub deleted: bool,
}

impl View for Comment {
    type V = CommentView;

    open spec fn view(&self) -> CommentView {
        CommentView {
            id: self.id,
            doc_id: self.doc_id,
            thread_id: self.thread_id,
            author_id: self.author_id,
            body: self.body@,
            deleted: self.deleted,
        }
    }
}

/// The views of a sequence of comments.
pub open spec fn comments_view(cs: Seq<Comment>) -> Seq<CommentView> {
    Seq::new(cs.len(), |i: int| cs[i]@)
}

/// The document that a comment stands in, as far as notifications show it.
#[derive(Debug)]
pub struct CommentedDoc {
    pub workspace_id: Uuid,
    pub title: String,
}

/// A comment that was written.
#[derive(Debug)]
pub struct CommentEvent {
    pub doc_id: Uuid,
    pub thread_id: Uuid,
    pub comment_id: Uuid,
    pub author_id: Uuid,
    pub body: String,
    pub write: CommentWrite,
    /// The users that the author picked by name.
    pub explicit: Vec<Uuid>,
}

#[verifier::ext_equal]
pub struct CommentEventView {
    pub doc_id: Uuid,
    pub thread_id: Uuid,
    pub comment_id: Uuid,
    pub author_id: Uuid,
    pub body: Seq<char>,
    pub write: CommentWrite,
    pub explicit: Seq<Uuid>,
}

impl View for CommentEvent {
    type V = CommentEventView;

    open spec fn view(&self) -> CommentEventView {
        CommentEventView {
            doc_id: self.doc_id,
            thread_id: self.thread_id,
            comment_id: self.comment_id,
            author_id: self.author_id,
            body: self.body@,
            write: self.write,
            explicit: self.explicit@,
        }
    }
}

/// Whether a comment mentions a member: the author picked them, or typed their
/// display name.
pub open spec fn is_mentioned(
    handles: Seq<Seq<char>>,
    explicit: Seq<Uuid>,
) -> spec_fn(MemberView) -> bool {
    |m: MemberView| explicit.contains(m.user_id) || handles.contains(lowercase(m.display_name))
}

/// The identifiers of a sequence of members.
pub open spec fn ids_of(ms: Seq<MemberView>) -> Seq<Uuid> {
    Seq::new(ms.len(), |i: int| ms[i].user_id)
}

/// The members that a comment mentions, in the order of the members. Who is not
/// a member is never mentioned.
pub open spec fn mentioned(
    members: Seq<MemberView>,
    handles: Seq<Seq<char>>,
    explicit: Seq<Uuid>,
) -> Seq<Uuid> {
    ids_of(members.filter(is_mentioned(handles, explicit)))
}

/// Who else wrote in a thread, each once and in the order in which they first
/// did, without those in `skip`. A deleted comment does not count.
pub open spec fn repliers(comments: Seq<CommentView>, thread_id: Uuid, skip: Seq<Uuid>) -> Seq<Uuid>
    decreases comments.len(),
{
    if comments.len() == 0 {
        Seq::empty()
    } else {
        let rest = repliers(comments.drop_last(), thread_id, skip);
        let c = comments.last();
        if c.thread_id == thread_id && !c.deleted && !skip.contains(c.author_id) && !rest.contains(
            c.author_id,
        ) {
            rest.push(c.author_id)
        } else {
            rest
        }
    }
}

/// The start of a comment that its notifications show.
pub open spec fn excerpt(body: Seq<char>) -> Seq<char> {
    if body.len() <= EXCERPT_CHARS {
        body
    } else {
        body.take(EXCERPT_CHARS as int)
    }
}

/// The dedupe key of a notification of a comment.
pub open spec fn comment_key(kind: NotificationKind, comment_id: Uuid) -> Seq<char> {
    (if kind == NotificationKind::Mention {
        "mention:"@
    } else {
        "reply:"@
    }) + crate::ids::uuid_text(comment_id)
}

/// The notification of a comment to one user.
pub open spec fn comment_note(
    e: CommentEventView,
    workspace_id: Uuid,
    title: Seq<char>,
    kind: NotificationKind,
    user_id: Uuid,
) -> crate::notifications::NewNotificationView {
    crate::notifications::NewNotificationView {
        workspace_id,
        user_id,
        actor_id: Some(e.author_id),
        kind,
        doc_id: Some(e.doc_id),
        target_kind: "comment"@,
        target_id: crate::ids::uuid_text(e.comment_id),
        dedupe_key: comment_key(kind, e.comment_id),
        data: crate::notifications::NotificationDataView::Comment {
            excerpt: excerpt(e.body),
            doc_title: title,
            thread_id: e.thread_id,
        },
    }
}

/// The notifications of a comment to several users.
pub open spec fn comment_notes(
    e: CommentEventView,
    workspace_id: Uuid,
    title: Seq<char>,
    kind: NotificationKind,
    users: Seq<Uuid>,
) -> Seq<crate::notifications::NewNotificationView> {
    Seq::new(users.len(), |i: int| comment_note(e, workspace_id, title, kind, users[i]))
}

/// Who is told of a reply: for a new comment whose thread could be read, the
/// thread's other authors that the comment does not mention.
pub open spec fn replied_to(
    e: CommentEventView,
    mentioned_ids: Seq<Uuid>,
    thread: Option<Seq<CommentView>>,
) -> Seq<Uuid> {
    match thread {
        Some(comments) if e.write == CommentWrite::Created => repliers(
            comments,
            e.thread_id,
            mentioned_ids.push(e.author_id),
        ),
        _ => Seq::empty(),
    }
}

/// All notifications of a comment: a mention for everyone it mentions, then a
/// reply for the thread's other authors.
pub open spec fn fan_out(
    e: CommentEventView,
    workspace_id: Uuid,
    title: Seq<char>,
    members: Seq<MemberView>,
    handles: Seq<Seq<char>>,
    thread: Option<Seq<CommentView>>,
) -> Seq<crate::notifications::NewNotificationView> {
    let ids = mentioned(members, handles, e.explicit);
    comment_notes(e, workspace_id, title, NotificationKind::Mention, ids) + comment_notes(
        e,
        workspace_id,
        title,
        NotificationKind::Reply,
        replied_to(e, ids, thread),
    )
}

fn note(
    e: &CommentEvent,
    workspace_id: Uuid,
    title: &str,
    kind: NotificationKind,
    user_id: Uuid,
) -> (r: NewNotification)
    requires
        kind == NotificationKind::Mention || kind == NotificationKind::Reply,
    ensures
        r@ == comment_note(e@, workspace_id, title@, kind, user_id),
{
    let id = format_uuid(e.comment_id);
    let key = match kind {
        NotificationKind::Mention => join2("mention:", id.as_str()),
        _ => join2("reply:", id.as_str()),
    };
    let n: usize = e.body.as_str().unicode_len();
    let shown = if n <= EXCERPT_CHARS {
        e.body.clone()
    } else {
        e.body.as_str().substring_char(0, EXCERPT_CHARS).to_owned()
    };
    assert(shown@ =~= excerpt(e.body@));
    NewNotification {
        workspace_id,
        user_id,
        actor_id: Some(e.author_id),
        kind,
        doc_id: Some(e.doc_id),
        target_kind: "comment".to_owned(),
        target_id: id,
        dedupe_key: key,
        data: NotificationData::Comment {
            excerpt: shown,
            doc_title: title.to_owned(),
            thread_id: e.thread_id,
        },
    }
}

fn mentioned_members(members: &Vec<Member>, handles: &Vec<String>, explicit: &Vec<Uuid>) -> (r: Vec<
    Uuid,
>)
    ensures
        r@ == mentioned(members_view(members@), texts_view(handles@), explicit@),
{
    let ghost all = members_view(members@);
    let ghost hs = texts_view(handles@);
    let ghost p = is_mentioned(hs, explicit@);
    let mut out: Vec<Uuid> = Vec::new();
    let mut i: usize = 0;
    proof {
        reveal(Seq::filter);
        assert(all.take(0) =~= Seq::<MemberView>::empty());
        assert(out@ =~= ids_of(all.take(0).filter(p)));
    }
    while i < members.len()
        invariant
            i <= members@.len(),
            all == members_view(members@),
            hs == texts_view(handles@),
            p == is_mentioned(hs, explicit@),
            out@ == ids_of(all.take(i as int).filter(p)),
        decreases members@.len() - i,
    {
        let m = &members[i];
        assert(all[i as int] == m@);
        proof {
            crate::seqs::lemma_filter_step(all, i as int, p);
        }
        let low = to_lowercase(m.display_name.as_str());
        let named = any_text(handles, low.as_str());
        proof {
            if named {
                let k = choose|k: int| 0 <= k < handles@.len() && #[trigger] handles@[k]@ == low@;
                assert(hs[k] == low@);
            }
            if hs.contains(low@) {
                let k = choose|k: int| 0 <= k < hs.len() && hs[k] == low@;
                assert(handles@[k]@ == low@);
            }
        }
        if has_u128(explicit, m.user_id) || named {
            let ghost kept = all.take(i as int).filter(p);
            out.push(m.user_id);
            assert(ids_of(kept.push(m@)) =~= ids_of(kept).push(m.user_id));
        }
        i += 1;
    }
    assert(all.take(i as int) =~= all);
    out
}

fn thread_repliers(comments: &Vec<Comment>, thread_id: Uuid, skip: &Vec<Uuid>) -> (r: Vec<Uuid>)
    ensures
        r@ == repliers(comments_view(comments@), thread_id, skip@),
{
    let ghost all = comments_view(comments@);
    let mut out: Vec<Uuid> = Vec::new();
    let mut i: usize = 0;
    assert(all.take(0) =~= Seq::<CommentView>::empty());
    while i < comments.len()
        invariant
            i <= comments@.len(),
            all == comments_view(comments@),
            out@ == repliers(all.take(i as int), thread_id, skip@),
        decreases comments@.len() - i,
    {
        let c = &comments[i];
        proof {
            assert(all[i as int] == c@);
            assert(all.take(i + 1).drop_last() =~= all.take(i as int));
            assert(all.take(i + 1).last() == c@);
        }
        if c.thread_id == thread_id && !c.deleted && !has_u128(skip, c.author_id) && !has_u128(
            &out,
            c.author_id,
        ) {
            out.push(c.author_id);
        }
        i += 1;
    }
    assert(all.take(i as int) =~= all);
    out
}

/// The notifications of a comment, given the handles that its text mentions.
pub fn comment_notifications(
    e: &CommentEvent,
    doc: &CommentedDoc,
    members: &Vec<Member>,
    handles: &Vec<String>,
    thread: Option<&Vec<Comment>>,
) -> (r: Vec<NewNotification>)
    ensures
        crate::notifications::notes_view(r@) == fan_out(
            e@,
            doc.workspace_id,
            doc.title@,
            members_view(members@),
            texts_view(handles@),
            match thread {
                Some(cs) => Some(comments_view(cs@)),
                None => None,
            },
        ),
{
    let ghost tv: Option<Seq<CommentView>> = match thread {
        Some(cs) => Some(comments_view(cs@)),
        None => None,
    };
    let ids = mentioned_members(members, handles, &e.explicit);
    let mut batch: Vec<NewNotification> = Vec::new();
    let mut i: usize = 0;
    while i < ids.len()
        invariant
            i <= ids@.len(),
            batch@.len() == i,
            forall|k: int|
                0 <= k < i ==> (#[trigger] batch@[k])@ == comment_note(
                    e@,
                    doc.workspace_id,
                    doc.title@,
                    NotificationKind::Mention,
                    ids@[k],
                ),
        decreases ids@.len() - i,
    {
        batch.push(
            note(e, doc.workspace_id, doc.title.as_str(), NotificationKind::Mention, ids[i]),
        );
        i += 1;
    }
    let told: Vec<Uuid> = match (e.write, thread) {
        (CommentWrite::Created, Some(comments)) => {
            let mut skip: Vec<Uuid> = Vec::new();
            let mut k: usize = 0;
            while k < ids.len()
                invariant
                    k <= ids@.len(),
                    skip@ == ids@.take(k as int),
                decreases ids@.len() - k,
            {
                skip.push(ids[k]);
                assert(skip@ =~= ids@.take(k + 1));
                k += 1;
            }
            assert(ids@.take(k as int) =~= ids@);
            skip.push(e.author_id);
            thread_repliers(comments, e.thread_id, &skip)
        },
        _ => Vec::new(),
    };
    assert(told@ == replied_to(e@, ids@, tv));
    let mut j: usize = 0;
    while j < told.len()
        invariant
            j <= told@.len(),
            batch@.len() == ids@.len() + j,
            forall|k: int|
                0 <= k < ids@.len() ==> (#[trigger] batch@[k])@ == comment_note(
                    e@,
                    doc.workspace_id,
                    doc.title@,
                    NotificationKind::Mention,
                    ids@[k],
                ),
            forall|k: int|
                ids@.len() <= k < ids@.len() + j ==> (#[trigger] batch@[k])@ == comment_note(
                    e@,
                    doc.workspace_id,
                    doc.title@,
                    NotificationKind::Reply,
                    told@[k - ids@.len()],
                ),
        decreases told@.len() - j,
    {
        batch.push(
            note(e, doc.workspace_id, doc.title.as_str(), NotificationKind::Reply, told[j]),
        );
        j += 1;
    }
    assert(crate::notifications::notes_view(batch@) =~= fan_out(
        e@,
        doc.workspace_id,
        doc.title@,
        members_view(members@),
        texts_view(handles@),
        tv,
    ));
    batch
}

/// All notifications of a comment, by the handles that its own text mentions, where
/// its document and the members could be read.
pub open spec fn told_of(
    e: CommentEventView,
    doc: Option<(Uuid, Seq<char>)>,
    members: Option<Seq<MemberView>>,
    thread: Option<Seq<CommentView>>,
) -> Seq<crate::notifications::NewNotificationView> {
    match (doc, members) {
        (Some(doc), Some(members)) => fan_out(
            e,
            doc.0,
            doc.1,
            members,
            mentions_in(e.body),
            thread,
        ),
        _ => Seq::empty(),
    }
}

/// The notifications of a comment: a mention for everyone that it picks or names,
/// and for a new comment a reply for the thread's other authors. Who is both
/// gets the mention only.
///
/// `doc` and `members` are `None` where they could not be read: then nobody is
/// told. `thread` is `None` where the thread could not be read: then nobody is
/// told of a reply.
pub fn emit_comment_notifications(
    e: &CommentEvent,
    doc: Option<&CommentedDoc>,
    members: Option<&Vec<Member>>,
    thread: Option<&Vec<Comment>>,
) -> (r: Vec<NewNotification>)
    ensures
        crate::notifications::notes_view(r@) == told_of(
            e@,
            match doc {
                Some(doc) => Some((doc.workspace_id, doc.title@)),
                None => None,
            },
            match members {
                Some(members) => Some(members_view(members@)),
                None => None,
            },
            match thread {
                Some(cs) => Some(comments_view(cs@)),
                None => None,
            },
        ),
{
    match (doc, members) {
        (Some(doc), Some(members)) => {
            let handles = extract_mentions(e.body.as_str());
            comment_notifications(e, doc, members, &handles, thread)
        },
        _ => {
            let none: Vec<NewNotification> = Vec::new();
            assert(crate::notifications::notes_view(none@)
                =~= Seq::<crate::notifications::NewNotificationView>::empty());
            none
        },
    }
}

/// Who is told of a reply: exactly the authors of comments in the thread that
/// stand and are not to be skipped, each once.
pub proof fn law_repliers_are_the_other_authors(
    comments: Seq<CommentView>,
    thread_id: Uuid,
    skip: Seq<Uuid>,
)
    ensures
        repliers(comments, thread_id, skip).no_duplicates(),
        forall|u: Uuid| #[trigger]
            repliers(comments, thread_id, skip).contains(u) <==> !skip.contains(u) && exists|i: int|
                0 <= i < comments.len() && (#[trigger] comments[i]).thread_id == thread_id
                    && !comments[i].deleted && comments[i].author_id == u,
    decreases comments.len(),
{
    let r = repliers(comments, thread_id, skip);
    if comments.len() > 0 {
        let before = comments.drop_last();
        let rest = repliers(before, thread_id, skip);
        let c = comments.last();
        law_repliers_are_the_other_authors(before, thread_id, skip);
        assert forall|u: Uuid| #[trigger] r.contains(u) <==> !skip.contains(u) && exists|i: int|
            0 <= i < comments.len() && (#[trigger] comments[i]).thread_id == thread_id
                && !comments[i].deleted && comments[i].author_id == u by {
            let wrote = exists|i: int|
                0 <= i < comments.len() && (#[trigger] comments[i]).thread_id == thread_id
                    && !comments[i].deleted && comments[i].author_id == u;
            let wrote_before = exists|i: int|
                0 <= i < before.len() && (#[trigger] before[i]).thread_id == thread_id
                    && !before[i].deleted && before[i].author_id == u;
            assert(rest.contains(u) <==> !skip.contains(u) && wrote_before);
            if wrote_before {
                let i = choose|i: int|
                    0 <= i < before.len() && (#[trigger] before[i]).thread_id == thread_id
                        && !before[i].deleted && before[i].author_id == u;
                assert(comments[i] == before[i]);
            }
            if wrote && !wrote_before {
                let i = choose|i: int|
                    0 <= i < comments.len() && (#[trigger] comments[i]).thread_id == thread_id
                        && !comments[i].deleted && comments[i].author_id == u;
                if i < before.len() {
                    assert(before[i] == comments[i]);
                }
                assert(comments[i] == c);
            }
            if c.thread_id == thread_id && !c.deleted && c.author_id == u {
                assert(comments[comments.len() - 1] == c);
                assert(wrote);
            }
            if r.len() > rest.len() {
                assert(r == rest.push(c.author_id));
                if rest.contains(u) {
                    let i = choose|i: int| 0 <= i < rest.len() && rest[i] == u;
                    assert(r[i] == u);
                }
                if c.author_id == u {
                    assert(r[rest.len() as int] == u);
                }
                if r.contains(u) {
                    let i = choose|i: int| 0 <= i < r.len() && r[i] == u;
                    if i < rest.len() {
                        assert(rest[i] == u);
                    }
                }
            }
        }
    }
}

/// Who is mentioned: exactly the members that the author picked or named, each
/// once where no one is a member twice.
pub proof fn law_mentioned_are_members_picked_or_named(
    members: Seq<MemberView>,
    handles: Seq<Seq<char>>,
    explicit: Seq<Uuid>,
)
    ensures
        forall|u: Uuid| #[trigger]
            mentioned(members, handles, explicit).contains(u) <==> exists|i: int|
                0 <= i < members.len() && (#[trigger] members[i]).user_id == u && (
                explicit.contains(u) || handles.contains(lowercase(members[i].display_name))),
        ids_of(members).no_duplicates() ==> mentioned(members, handles, explicit).no_duplicates(),
{
    let p = is_mentioned(handles, explicit);
    let kept = members.filter(p);
    let ids = mentioned(members, handles, explicit);
    let at = crate::seqs::lemma_filter_order(members, p);
    assert forall|u: Uuid| #[trigger] ids.contains(u) <==> exists|i: int|
        0 <= i < members.len() && (#[trigger] members[i]).user_id == u && (explicit.contains(u)
            || handles.contains(lowercase(members[i].display_name))) by {
        if ids.contains(u) {
            let k = choose|k: int| 0 <= k < ids.len() && ids[k] == u;
            members.lemma_filter_pred(p, k);
            assert(members[at[k]] == kept[k]);
            assert(members[at[k]].user_id == u);
        }
        if exists|i: int|
            0 <= i < members.len() && (#[trigger] members[i]).user_id == u && (explicit.contains(u)
                || handles.contains(lowercase(members[i].display_name))) {
            let i = choose|i: int|
                0 <= i < members.len() && (#[trigger] members[i]).user_id == u && (
                explicit.contains(u) || handles.contains(lowercase(members[i].display_name)));
            assert(members.contains(members[i]));
            crate::seqs::lemma_filter_contains(members, p, members[i]);
            let k = choose|k: int| 0 <= k < kept.len() && kept[k] == members[i];
            assert(ids[k] == u);
        }
    }
    if ids_of(members).no_duplicates() {
        assert forall|i: int, j: int| 0 <= i < ids.len() && 0 <= j < ids.len() && i != j implies ids[i]
            != ids[j] by {
            assert(members[at[i]] == kept[i] && members[at[j]] == kept[j]);
            if i < j {
                assert(at[i] < at[j]);
            } else {
                assert(at[j] < at[i]);
            }
            assert(ids_of(members)[at[i]] == ids[i]);
            assert(ids_of(members)[at[j]] == ids[j]);
        }
    }
}

/// The picked and the named are told alike: picking someone never keeps a named
/// member from being told, nor the other way round.
pub proof fn law_mentions_are_a_union(
    members: Seq<MemberView>,
    handles: Seq<Seq<char>>,
    explicit: Seq<Uuid>,
    u: Uuid,
)
    ensures
        mentioned(members, handles, explicit).contains(u) <==> mentioned(
            members,
            handles,
            Seq::empty(),
        ).contains(u) || mentioned(members, Seq::empty(), explicit).contains(u),
{
    law_mentioned_are_members_picked_or_named(members, handles, explicit);
    law_mentioned_are_members_picked_or_named(members, handles, Seq::empty());
    law_mentioned_are_members_picked_or_named(members, Seq::empty(), explicit);
    let a = mentioned(members, handles, explicit);
    let b = mentioned(members, handles, Seq::empty());
    let c = mentioned(members, Seq::<Seq<char>>::empty(), explicit);
    assert(a.contains(u) || !a.contains(u));
    assert(b.contains(u) || !b.contains(u));
    assert(c.contains(u) || !c.contains(u));
}

/// One comment gives one user at most one notification, a mention rather than a
/// reply, and its author none that tells of a reply.
pub proof fn law_one_notification_per_user(
    e: CommentEventView,
    workspace_id: Uuid,
    title: Seq<char>,
    members: Seq<MemberView>,
    handles: Seq<Seq<char>>,
    thread: Option<Seq<CommentView>>,
)
    requires
        ids_of(members).no_duplicates(),
    ensures
        ({
            let notes = fan_out(e, workspace_id, title, members, handles, thread);
            &&& forall|i: int, j: int|
                0 <= i < j < notes.len() ==> (#[trigger] notes[i]).user_id != (
                #[trigger] notes[j]).user_id
            &&& forall|i: int|
                0 <= i < notes.len() && (#[trigger] notes[i]).kind == NotificationKind::Reply
                    ==> notes[i].user_id != e.author_id && !mentioned(
                    members,
                    handles,
                    e.explicit,
                ).contains(notes[i].user_id)
        }),
{
    let ids = mentioned(members, handles, e.explicit);
    let told = replied_to(e, ids, thread);
    let notes = fan_out(e, workspace_id, title, members, handles, thread);
    law_mentioned_are_members_picked_or_named(members, handles, e.explicit);
    if let Some(cs) = thread {
        law_repliers_are_the_other_authors(cs, e.thread_id, ids.push(e.author_id));
    }
    let skip = ids.push(e.author_id);
    assert forall|k: int| 0 <= k < told.len() implies !skip.contains(#[trigger] told[k]) by {
        assert(told.contains(told[k]));
    }
    assert forall|i: int| 0 <= i < notes.len() && i >= ids.len() implies !ids.contains(
        (#[trigger] notes[i]).user_id,
    ) && notes[i].user_id != e.author_id by {
        let u = told[i - ids.len()];
        assert(notes[i].user_id == u);
        if ids.contains(u) {
            let k = choose|k: int| 0 <= k < ids.len() && ids[k] == u;
            assert(skip[k] == u);
        }
        if u == e.author_id {
            assert(skip[ids.len() as int] == u);
        }
    }
    assert forall|i: int, j: int| 0 <= i < j < notes.len() implies (#[trigger] notes[i]).user_id
        != (#[trigger] notes[j]).user_id by {
        if j < ids.len() {
            assert(ids[i] != ids[j]);
        } else if i < ids.len() {
            assert(ids.contains(ids[i]));
        } else {
            assert(told[i - ids.len()] != told[j - ids.len()]);
        }
    }
}

/// Changing a comment tells nobody of a reply.
pub proof fn law_editing_is_no_reply(
    e: CommentEventView,
    workspace_id: Uuid,
    title: Seq<char>,
    members: Seq<MemberView>,
    handles: Seq<Seq<char>>,
    thread: Option<Seq<CommentView>>,
    i: int,
)
    requires
        e.write == CommentWrite::Edited,
        0 <= i < fan_out(e, workspace_id, title, members, handles, thread).len(),
    ensures
        fan_out(e, workspace_id, title, members, handles, thread)[i].kind
            == NotificationKind::Mention,
{
}

/// Changing a comment again and still mentioning whom it mentioned tells nobody
/// twice: where everyone that the second text mentions is mentioned by the
/// first, the second change adds nothing.
pub proof fn law_a_mention_is_told_once(
    inbox: crate::notifications::InboxView,
    first: CommentEventView,
    second: CommentEventView,
    workspace_id: Uuid,
    title: Seq<char>,
    members: Seq<MemberView>,
    handles1: Seq<Seq<char>>,
    handles2: Seq<Seq<char>>,
    thread1: Option<Seq<CommentView>>,
    thread2: Option<Seq<CommentView>>,
    now: i64,
    later: i64,
)
    requires
        second.write == CommentWrite::Edited,
        first.comment_id == second.comment_id,
        first.author_id == second.author_id,
        forall|u: Uuid| #[trigger]
            mentioned(members, handles2, second.explicit).contains(u) ==> mentioned(
                members,
                handles1,
                first.explicit,
            ).contains(u),
    ensures
        ({
            let n1 = fan_out(first, workspace_id, title, members, handles1, thread1);
            let n2 = fan_out(second, workspace_id, title, members, handles2, thread2);
            let once = crate::notifications::after_emits(inbox, n1, now);
            crate::notifications::after_emits(once, n2, later) == once
        }),
{
    let n1 = fan_out(first, workspace_id, title, members, handles1, thread1);
    let n2 = fan_out(second, workspace_id, title, members, handles2, thread2);
    let ids1 = mentioned(members, handles1, first.explicit);
    let ids2 = mentioned(members, handles2, second.explicit);
    assert forall|j: int| 0 <= j < n2.len() implies crate::notifications::is_self_notification(
        #[trigger] n2[j],
    ) || exists|i: int|
        0 <= i < n1.len() && !crate::notifications::is_self_notification(n1[i])
            && (#[trigger] n1[i]).user_id == n2[j].user_id && n1[i].dedupe_key
            == n2[j].dedupe_key by {
        assert(ids2.contains(ids2[j]));
        let i = choose|i: int| 0 <= i < ids1.len() && ids1[i] == ids2[j];
        assert(n1[i].user_id == n2[j].user_id);
        assert(n1[i].dedupe_key == n2[j].dedupe_key);
    }
    crate::notifications::law_repeated_batch_adds_nothing(inbox, n1, n2, now, later);
}

/// The keys of two comments' notifications agree only where kind and comment
/// do.
pub proof fn law_comment_keys_are_distinct(k1: NotificationKind, c1: Uuid, k2: NotificationKind, c2: Uuid)
    requires
        k1 == NotificationKind::Mention || k1 == NotificationKind::Reply,
        k2 == NotificationKind::Mention || k2 == NotificationKind::Reply,
        comment_key(k1, c1) == comment_key(k2, c2),
    ensures
        k1 == k2,
        c1 == c2,
{
    reveal_strlit("mention:");
    reveal_strlit("reply:");
    let a = comment_key(k1, c1);
    let b = comment_key(k2, c2);
    assert(k1 == NotificationKind::Mention ==> a[0] == 'm');
    assert(k1 == NotificationKind::Reply ==> a[0] == 'r');
    assert(k2 == NotificationKind::Mention ==> b[0] == 'm');
    assert(k2 == NotificationKind::Reply ==> b[0] == 'r');
    let n: int = if k1 == NotificationKind::Mention { 8 } else { 6 };
    assert(a.skip(n) =~= crate::ids::uuid_text(c1));
    assert(b.skip(n) =~= crate::ids::uuid_text(c2));
    crate::ids::lemma_uuid_text_injective(c1, c2);
}

/// The handles of a comment are what was captured and nothing else, each in
/// lower case and all of them in their order: where every match captured a word,
/// each gives one handle.
pub proof fn law_handles_are_the_captured_words(found: Seq<Option<Seq<char>>>)
    ensures
        forall|h: Seq<char>| #[trigger]
            handles_of(found).contains(h) <==> exists|i: int|
                0 <= i < found.len() && (#[trigger] found[i]) is Some && lowercase(found[i]->0) == h,
        (forall|i: int| 0 <= i < found.len() ==> (#[trigger] found[i]) is Some) ==> (handles_of(
            found,
        ).len() == found.len() && forall|i: int|
            0 <= i < found.len() ==> #[trigger] handles_of(found)[i] == lowercase(found[i]->0)),
    decreases found.len(),
{
    if found.len() > 0 {
        let front = found.drop_last();
        let rest = handles_of(front);
        let n = found.len() - 1;
        law_handles_are_the_captured_words(front);
        assert forall|h: Seq<char>| #[trigger]
            handles_of(found).contains(h) implies exists|i: int|
            0 <= i < found.len() && (#[trigger] found[i]) is Some && lowercase(found[i]->0) == h by {
            let k = choose|k: int| 0 <= k < handles_of(found).len() && handles_of(found)[k] == h;
            if k < rest.len() {
                assert(rest[k] == h);
                assert(rest.contains(h));
                let i = choose|i: int|
                    0 <= i < front.len() && (#[trigger] front[i]) is Some && lowercase(front[i]->0)
                        == h;
                assert(found[i] == front[i]);
            } else {
                assert(found[n] is Some);
            }
        }
        assert forall|h: Seq<char>| (exists|i: int|
            0 <= i < found.len() && (#[trigger] found[i]) is Some && lowercase(found[i]->0) == h)
            implies #[trigger] handles_of(found).contains(h) by {
            let i = choose|i: int|
                0 <= i < found.len() && (#[trigger] found[i]) is Some && lowercase(found[i]->0)
                    == h;
            if i < n {
                assert(front[i] == found[i]);
                assert(rest.contains(h));
                let k = choose|k: int| 0 <= k < rest.len() && rest[k] == h;
                assert(handles_of(found)[k] == h);
            } else {
                assert(handles_of(found)[rest.len() as int] == h);
            }
        }
        if forall|i: int| 0 <= i < found.len() ==> (#[trigger] found[i]) is Some {
            assert forall|i: int| 0 <= i < front.len() implies (#[trigger] front[i]) is Some by {
                assert(found[i] is Some);
            }
            assert(found[n] is Some);
            assert forall|i: int| 0 <= i < found.len() implies #[trigger] handles_of(found)[i]
                == lowercase(found[i]->0) by {
                if i < n {
                    assert(handles_of(front)[i] == lowercase(front[i]->0));
                }
            }
        }
    }
}

/// A new comment reaches its thread: every author of a comment that stands in
/// the thread, other than the comment's own author and whom the comment mentions,
/// is told of a reply, once and of nothing else, whoever else is mentioned.
pub proof fn law_a_reply_reaches_the_thread(
    e: CommentEventView,
    workspace_id: Uuid,
    title: Seq<char>,
    members: Seq<MemberView>,
    handles: Seq<Seq<char>>,
    comments: Seq<CommentView>,
    i: int,
)
    requires
        e.write == CommentWrite::Created,
        0 <= i < comments.len(),
        comments[i].thread_id == e.thread_id,
        !comments[i].deleted,
        comments[i].author_id != e.author_id,
        forall|m: int|
            0 <= m < members.len() && (#[trigger] members[m]).user_id == comments[i].author_id
                ==> !e.explicit.contains(members[m].user_id) && !handles.contains(
                lowercase(members[m].display_name),
            ),
    ensures
        ({
            let notes = fan_out(e, workspace_id, title, members, handles, Some(comments));
            &&& exists|k: int|
                0 <= k < notes.len() && (#[trigger] notes[k]).kind == NotificationKind::Reply
                    && notes[k].user_id == comments[i].author_id
            &&& forall|k: int, l: int|
                0 <= k < l < notes.len() ==> !((#[trigger] notes[k]).user_id
                    == comments[i].author_id && (#[trigger] notes[l]).user_id
                    == comments[i].author_id)
        }),
{
    let u = comments[i].author_id;
    let ids = mentioned(members, handles, e.explicit);
    let skip = ids.push(e.author_id);
    let told = replied_to(e, ids, Some(comments));
    let notes = fan_out(e, workspace_id, title, members, handles, Some(comments));
    law_mentioned_are_members_picked_or_named(members, handles, e.explicit);
    law_repliers_are_the_other_authors(comments, e.thread_id, skip);
    assert(!ids.contains(u));
    if skip.contains(u) {
        let k = choose|k: int| 0 <= k < skip.len() && skip[k] == u;
        assert(k < ids.len() && ids[k] == u);
    }
    assert(told.contains(u));
    let k = choose|k: int| 0 <= k < told.len() && told[k] == u;
    assert(notes[ids.len() + k].user_id == u);
    assert forall|k: int, l: int| 0 <= k < l < notes.len() implies !((#[trigger] notes[k]).user_id
        == u && (#[trigger] notes[l]).user_id == u) by {
        if k < ids.len() {
            assert(ids.contains(ids[k]));
        } else {
            assert(told[k - ids.len()] != told[l - ids.len()]);
        }
    }
}

/// Everyone whom a comment mentions is told of a mention, whether the comment is
/// new or changed and whether its thread could be read: each member whom the
/// author picked, and each whose display name is among the handles, upper and
/// lower case alike. Mentions come before replies.
pub proof fn law_a_mention_reaches_the_member(
    e: CommentEventView,
    workspace_id: Uuid,
    title: Seq<char>,
    members: Seq<MemberView>,
    handles: Seq<Seq<char>>,
    thread: Option<Seq<CommentView>>,
    m: int,
)
    requires
        0 <= m < members.len(),
        e.explicit.contains(members[m].user_id) || handles.contains(
            lowercase(members[m].display_name),
        ),
    ensures
        ({
            let notes = fan_out(e, workspace_id, title, members, handles, thread);
            &&& exists|k: int|
                0 <= k < notes.len() && (#[trigger] notes[k]).kind == NotificationKind::Mention
                    && notes[k].user_id == members[m].user_id
            &&& forall|k: int, l: int|
                0 <= k < l < notes.len() && (#[trigger] notes[l]).kind == NotificationKind::Mention
                    ==> (#[trigger] notes[k]).kind == NotificationKind::Mention
        }),
{
    let ids = mentioned(members, handles, e.explicit);
    let notes = fan_out(e, workspace_id, title, members, handles, thread);
    law_mentioned_are_members_picked_or_named(members, handles, e.explicit);
    assert(ids.contains(members[m].user_id));
    let k = choose|k: int| 0 <= k < ids.len() && ids[k] == members[m].user_id;
    assert(notes[k].user_id == members[m].user_id);
}

/// Nobody else is told: whoever gets a mention is a member whom the author picked
/// or named, and whoever is told of a reply wrote a comment that stands in the
/// thread of a new comment, is not its author and is not mentioned by it.
pub proof fn law_a_comment_tells_nobody_else(
    e: CommentEventView,
    workspace_id: Uuid,
    title: Seq<char>,
    members: Seq<MemberView>,
    handles: Seq<Seq<char>>,
    thread: Option<Seq<CommentView>>,
    k: int,
)
    requires
        0 <= k < fan_out(e, workspace_id, title, members, handles, thread).len(),
    ensures
        ({
            let n = fan_out(e, workspace_id, title, members, handles, thread)[k];
            let named = exists|m: int|
                0 <= m < members.len() && (#[trigger] members[m]).user_id == n.user_id && (
                e.explicit.contains(n.user_id) || handles.contains(
                    lowercase(members[m].display_name),
                ));
            &&& n.kind == NotificationKind::Mention || n.kind == NotificationKind::Reply
            &&& n.kind == NotificationKind::Mention ==> named
            &&& n.kind == NotificationKind::Reply ==> !named && n.user_id != e.author_id && e.write
                == CommentWrite::Created && thread is Some && exists|i: int|
                0 <= i < thread->0.len() && (#[trigger] thread->0[i]).thread_id == e.thread_id
                    && !thread->0[i].deleted && thread->0[i].author_id == n.user_id
        }),
{
    let ids = mentioned(members, handles, e.explicit);
    let skip = ids.push(e.author_id);
    let n = fan_out(e, workspace_id, title, members, handles, thread)[k];
    law_mentioned_are_members_picked_or_named(members, handles, e.explicit);
    if k < ids.len() {
        assert(ids.contains(ids[k]));
    } else {
        let told = replied_to(e, ids, thread);
        let comments = thread->0;
        law_repliers_are_the_other_authors(comments, e.thread_id, skip);
        assert(told[k - ids.len()] == n.user_id);
        assert(told.contains(n.user_id));
        assert(!skip.contains(n.user_id));
        assert(skip[ids.len() as int] == e.author_id);
        if ids.contains(n.user_id) {
            let l = choose|l: int| 0 <= l < ids.len() && ids[l] == n.user_id;
            assert(skip[l] == n.user_id);
        }
    }
}

/// What a notification of a comment carries: the document's workspace and title,
/// the author as who acted, the comment as what it points to, its thread, and the
/// comment's text up to its 140th character. Its key names the comment and
/// whether it tells of a mention or of a reply.
pub proof fn law_a_notification_shows_its_comment(
    e: CommentEventView,
    workspace_id: Uuid,
    title: Seq<char>,
    members: Seq<MemberView>,
    handles: Seq<Seq<char>>,
    thread: Option<Seq<CommentView>>,
    k: int,
)
    requires
        0 <= k < fan_out(e, workspace_id, title, members, handles, thread).len(),
    ensures
        ({
            let n = fan_out(e, workspace_id, title, members, handles, thread)[k];
            &&& n.workspace_id == workspace_id
            &&& n.actor_id == Some(e.author_id)
            &&& n.doc_id == Some(e.doc_id)
            &&& n.target_kind == "comment"@
            &&& n.target_id == crate::ids::uuid_text(e.comment_id)
            &&& n.kind == NotificationKind::Mention ==> n.dedupe_key == "mention:"@
                + crate::ids::uuid_text(e.comment_id)
            &&& n.kind == NotificationKind::Reply ==> n.dedupe_key == "reply:"@
                + crate::ids::uuid_text(e.comment_id)
            &&& n.data is Comment
            &&& n.data->Comment_doc_title == title
            &&& n.data->Comment_thread_id == e.thread_id
            &&& e.body.len() <= 140 ==> n.data->Comment_excerpt == e.body
            &&& e.body.len() > 140 ==> n.data->Comment_excerpt.len() == 140 && forall|c: int|
                0 <= c < 140 ==> #[trigger] n.data->Comment_excerpt[c] == e.body[c]
        }),
{
}

/// A comment whose document or whose workspace's members could not be read tells
/// nobody. Else it tells by the words behind the `@`s of its own text: every member
/// whose display name is one of them, upper and lower case alike, is told of a
/// mention, and so is every member whom the author picked.
pub proof fn law_a_comment_tells_by_its_own_text(
    e: CommentEventView,
    doc: Option<(Uuid, Seq<char>)>,
    members: Option<Seq<MemberView>>,
    thread: Option<Seq<CommentView>>,
    m: int,
    w: int,
)
    ensures
        doc is None || members is None ==> told_of(e, doc, members, thread).len() == 0,
        ({
            let words = first_groups(mention_pattern(), e.body)->0;
            doc is Some && members is Some && 0 <= m < members->0.len() && (e.explicit.contains(
                members->0[m].user_id,
            ) || (0 <= w < words.len() && words[w] is Some && lowercase(words[w]->0) == lowercase(
                members->0[m].display_name,
            ))) ==> exists|k: int|
                0 <= k < told_of(e, doc, members, thread).len() && (#[trigger] told_of(
                    e,
                    doc,
                    members,
                    thread,
                )[k]).kind == NotificationKind::Mention && told_of(
                    e,
                    doc,
                    members,
                    thread,
                )[k].user_id == members->0[m].user_id && told_of(
                    e,
                    doc,
                    members,
                    thread,
                )[k].workspace_id == (doc->0).0
        }),
{
    let words = first_groups(mention_pattern(), e.body)->0;
    law_handles_are_the_captured_words(words);
    if doc is Some && members is Some && 0 <= m < members->0.len() {
        let handles = mentions_in(e.body);
        if 0 <= w < words.len() && words[w] is Some && lowercase(words[w]->0) == lowercase(
            members->0[m].display_name,
        ) {
            assert(handles_of(words).contains(lowercase(members->0[m].display_name)));
        }
        if e.explicit.contains(members->0[m].user_id) || handles.contains(
            lowercase(members->0[m].display_name),
        ) {
            law_a_mention_reaches_the_member(
                e,
                (doc->0).0,
                (doc->0).1,
                members->0,
                handles,
                thread,
                m,
            );
            let notes = told_of(e, doc, members, thread);
            let k = choose|k: int|
                0 <= k < notes.len() && (#[trigger] notes[k]).kind == NotificationKind::Mention
                    && notes[k].user_id == members->0[m].user_id;
            law_a_notification_shows_its_comment(
                e,
                (doc->0).0,
                (doc->0).1,
                members->0,
                handles,
                thread,
                k,
            );
        }
    }
}

} // verus!
