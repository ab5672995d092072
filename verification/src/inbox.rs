//! The inbox endpoints: what each decides on the way from request to answer.
//!
//! A row is addressed to one recipient, so ownership needs no check. Access to
//! its document does: a notification can outlive the grant that made it
//! visible, so rows that name a document are checked again and left out where
//! the reader has no role on it any more.

use crate::access::AuthContext;
use crate::collab::RoleLookup;
use crate::http::{internal, refuse, Received, Refusal};
use crate::ids::{format_uuid, Uuid};
use crate::notifications::{Notification, NotificationData};
use crate::text::same_text;
use vstd::prelude::*;
use vstd::string::*;

verus! {

/// How many rows a page has unless the request says otherwise.
pub const DEFAULT_LIMIT: i64 = 50;

/// How many rows a page has at most.
pub const MAX_LIMIT: i64 = 100;

/// How far unread rows are counted.
pub const UNREAD_CAP: i64 = 100;

/// How many bytes of a request's body the inbox endpoints read.
pub const MAX_REQUEST_BYTES: usize = 65536;

/// What a request for a page says.
#[derive(Debug)]
pub struct ListQuery {
    pub filter: Option<String>,
    pub limit: Option<i64>,
    pub cursor: Option<i64>,
}

/// What the store is asked for a page.
#[derive(Clone, Copy, Debug, PartialEq, Eq, Structural)]
pub struct PageQuery {
    pub ctx: AuthContext,
    pub unread_only: bool,
    pub limit: i64,
    pub cursor: Option<i64>,
}

/// The number of rows that a page has: what was asked for, kept between one and
/// the most that a page can have.
pub open spec fn page_limit(asked: Option<i64>) -> i64 {
    let n = match asked {
        Some(n) => n,
        None => DEFAULT_LIMIT,
    };
    if n < 1 {
        1i64
    } else if n > MAX_LIMIT {
        MAX_LIMIT
    } else {
        n
    }
}

/// What answers a request for a page before the store is asked.
pub open spec fn page_request(
    auth: Option<AuthContext>,
    stores_ready: bool,
    q: ListQuery,
) -> Result<PageQuery, crate::http::RefusalView> {
    match auth {
        None => Err(crate::http::session_required()),
        Some(ctx) => if stores_ready {
            Ok(
                PageQuery {
                    ctx,
                    unread_only: q.filter is Some && q.filter->0@ == "unread"@,
                    limit: page_limit(q.limit),
                    cursor: q.cursor,
                },
            )
        } else {
            Err(crate::http::internal_error())
        },
    }
}

/// GET /api/notifications: what the store is asked.
pub fn list(auth: Option<AuthContext>, stores_ready: bool, q: &ListQuery) -> (r: Result<
    PageQuery,
    Refusal,
>)
    ensures
        crate::http::answers(r, page_request(auth, stores_ready, *q)),
{
    let ctx = match auth {
        Some(ctx) => ctx,
        None => return Err(refuse(401, "auth.session_required")),
    };
    if !stores_ready {
        return Err(internal());
    }
    let unread_only = match &q.filter {
        Some(f) => same_text(f.as_str(), "unread"),
        None => false,
    };
    let asked: i64 = match q.limit {
        Some(n) => n,
        None => DEFAULT_LIMIT,
    };
    let limit: i64 = if asked < 1 {
        1
    } else if asked > MAX_LIMIT {
        MAX_LIMIT
    } else {
        asked
    };
    Ok(PageQuery { ctx, unread_only, limit, cursor: q.cursor })
}

/// A row as it is answered.
#[derive(Debug)]
pub struct InboxItem {
    pub id: i64,
    pub kind: String,
    pub doc_id: Option<String>,
    pub doc_title: Option<String>,
    pub target_kind: String,
    pub target_id: String,
    pub actor_display_name: Option<String>,
    pub data: NotificationData,
    pub created_at: String,
    pub read: bool,
}

#[verifier::ext_equal]
pub struct InboxItemView {
    pub id: i64,
    pub kind: Seq<char>,
    pub doc_id: Option<Seq<char>>,
    pub doc_title: Option<Seq<char>>,
    pub target_kind: Seq<char>,
    pub target_id: Seq<char>,
    pub actor_display_name: Option<Seq<char>>,
    pub data: crate::notifications::NotificationDataView,
    pub created_at: Seq<char>,
    pub read: bool,
}

impl View for InboxItem {
    type V = InboxItemView;

    open spec fn view(&self) -> InboxItemView {
        InboxItemView {
            id: self.id,
            kind: self.kind@,
            doc_id: crate::notifications::opt_text(self.doc_id),
            doc_title: crate::notifications::opt_text(self.doc_title),
            target_kind: self.target_kind@,
            target_id: self.target_id@,
            actor_display_name: crate::notifications::opt_text(self.actor_display_name),
            data: self.data@,
            created_at: self.created_at@,
            read: self.read,
        }
    }
}

/// The views of a sequence of items.
pub open spec fn items_view(items: Seq<InboxItem>) -> Seq<InboxItemView> {
    Seq::new(items.len(), |i: int| items[i]@)
}

/// What a row is answered as.
pub open spec fn item_of(n: crate::notifications::NotificationView) -> InboxItemView {
    InboxItemView {
        id: n.id,
        kind: n.kind,
        doc_id: match n.doc_id {
            Some(d) => Some(crate::ids::uuid_text(d)),
            None => None,
        },
        doc_title: n.doc_title,
        target_kind: n.target_kind,
        target_id: n.target_id,
        actor_display_name: n.actor_display_name,
        data: n.data,
        created_at: crate::time::rfc3339_text(n.created_at),
        read: n.read_at is Some,
    }
}

fn to_item(n: &Notification) -> (r: InboxItem)
    ensures
        r@ == item_of(n@),
{
    InboxItem {
        id: n.id,
        kind: n.kind.clone(),
        doc_id: match n.doc_id {
            Some(d) => Some(format_uuid(d)),
            None => None,
        },
        doc_title: match &n.doc_title {
            Some(t) => Some(t.clone()),
            None => None,
        },
        target_kind: n.target_kind.clone(),
        target_id: n.target_id.clone(),
        actor_display_name: match &n.actor_display_name {
            Some(t) => Some(t.clone()),
            None => None,
        },
        data: n.data.clone(),
        created_at: n.created_at.to_rfc3339(),
        read: n.read_at.is_some(),
    }
}

/// A page as it is answered.
#[derive(Debug)]
pub struct ListResponse {
    pub items: Vec<InboxItem>,
    pub next_cursor: Option<i64>,
}

#[verifier::ext_equal]
pub struct ListResponseView {
    pub items: Seq<InboxItemView>,
    pub next_cursor: Option<i64>,
}

impl View for ListResponse {
    type V = ListResponseView;

    open spec fn view(&self) -> ListResponseView {
        ListResponseView { items: items_view(self.items@), next_cursor: self.next_cursor }
    }
}

/// Whether the check of a row's document could not be made.
pub open spec fn check_failed(
    n: crate::notifications::NotificationView,
    check: RoleLookup,
) -> bool {
    n.doc_id is Some && check is Failed
}

/// Whether a row is shown: it names no document, or one on which the reader has
/// a role.
pub open spec fn is_shown(n: crate::notifications::NotificationView, check: RoleLookup) -> bool {
    n.doc_id is None || check is Role
}

/// The rows of a page that are shown, in their order.
pub open spec fn shown_items(
    rows: Seq<crate::notifications::NotificationView>,
    checks: Seq<RoleLookup>,
) -> Seq<InboxItemView>
    decreases rows.len(),
{
    if rows.len() == 0 {
        Seq::empty()
    } else {
        let rest = shown_items(rows.drop_last(), checks);
        let i = rows.len() - 1;
        if is_shown(rows[i], checks[i]) {
            rest.push(item_of(rows[i]))
        } else {
            rest
        }
    }
}

/// Where the next page starts: behind the last row, where the page is full.
/// Rows that are left out count, so that the pages keep their places.
pub open spec fn cursor_after(
    rows: Seq<crate::notifications::NotificationView>,
    limit: i64,
) -> Option<i64> {
    if rows.len() == limit && rows.len() > 0 {
        Some(rows.last().id)
    } else {
        None
    }
}

/// What answers a request for a page that was read and checked. A check that
/// could not be made fails the request: leaving the row out would look like
/// lost data.
pub open spec fn page_answer(
    rows: Seq<crate::notifications::NotificationView>,
    checks: Seq<RoleLookup>,
    limit: i64,
) -> Result<ListResponseView, crate::http::RefusalView> {
    if exists|i: int| 0 <= i < rows.len() && check_failed(#[trigger] rows[i], checks[i]) {
        Err(crate::http::internal_error())
    } else {
        Ok(
            ListResponseView {
                items: shown_items(rows, checks),
                next_cursor: cursor_after(rows, limit),
            },
        )
    }
}

/// Answers a request for a page, given its rows and for each the reader's role
/// on its document. What is given for a row without a document plays no part.
pub fn page_response(rows: &Vec<Notification>, checks: &Vec<RoleLookup>, limit: i64) -> (r: Result<
    ListResponse,
    Refusal,
>)
    requires
        rows@.len() == checks@.len(),
        limit >= 0,
    ensures
        crate::http::answers_view(
            r,
            page_answer(crate::notifications::read_view(rows@), checks@, limit),
        ),
{
    let ghost rv = crate::notifications::read_view(rows@);
    let next_cursor: Option<i64> = if rows.len() as u64 == limit as u64 && rows.len() > 0 {
        Some(rows[rows.len() - 1].id)
    } else {
        None
    };
    assert(next_cursor == cursor_after(rv, limit));
    let mut items: Vec<InboxItem> = Vec::new();
    let mut i: usize = 0;
    proof {
        assert(rv.take(0) =~= Seq::<crate::notifications::NotificationView>::empty());
        assert(items_view(items@) =~= shown_items(rv.take(0), checks@));
    }
    while i < rows.len()
        invariant
            i <= rows@.len(),
            rows@.len() == checks@.len(),
            rv == crate::notifications::read_view(rows@),
            items_view(items@) == shown_items(rv.take(i as int), checks@),
            forall|k: int| 0 <= k < i ==> !check_failed(#[trigger] rv[k], checks@[k]),
        decreases rows@.len() - i,
    {
        proof {
            assert(rv[i as int] == rows@[i as int]@);
            assert(rv.take(i + 1).drop_last() =~= rv.take(i as int));
            assert(rv.take(i + 1)[i as int] == rv[i as int]);
        }
        let keep = if rows[i].doc_id.is_none() {
            true
        } else {
            match checks[i] {
                RoleLookup::Role(_) => true,
                RoleLookup::NoRole => false,
                RoleLookup::Failed => {
                    assert(check_failed(rv[i as int], checks@[i as int]));
                    return Err(internal());
                },
            }
        };
        let ghost items0 = items@;
        if keep {
            let item = to_item(&rows[i]);
            let ghost v = item@;
            items.push(item);
            assert(items_view(items@) =~= items_view(items0).push(v));
        }
        i += 1;
    }
    assert(rv.take(i as int) =~= rv);
    Ok(ListResponse { items, next_cursor })
}

/// The number of unread rows as it is answered.
#[derive(Clone, Copy, Debug, PartialEq, Eq, Structural)]
pub struct CountResponse {
    pub count: i64,
    pub capped: bool,
}

/// Whether the badge shows a "+" behind the count: the count reached the number
/// up to which rows are counted, so there may be more.
pub fn is_capped(n: i64, cap: i64) -> (r: bool)
    ensures
        r == (n >= cap),
{
    n >= cap
}

/// GET /api/notifications/unread_count: whether the store is asked.
pub fn unread_count(auth: Option<AuthContext>, store_ready: bool) -> (r: Result<
    AuthContext,
    Refusal,
>)
    ensures
        crate::http::answers(r, crate::doc_routes::session_request(auth, store_ready)),
{
    match auth {
        None => Err(refuse(401, "auth.session_required")),
        Some(ctx) => if store_ready {
            Ok(ctx)
        } else {
            Err(internal())
        },
    }
}

/// What the badge shows of a count.
pub open spec fn badge(n: i64) -> CountResponse {
    CountResponse { count: n, capped: n >= UNREAD_CAP }
}

/// Answers with the number of unread rows.
pub fn count_response(n: i64) -> (r: CountResponse)
    ensures
        r.count == n,
        r.capped == (n >= UNREAD_CAP),
        r == badge(n),
{
    CountResponse { count: n, capped: is_capped(n, UNREAD_CAP) }
}

/// The body of a request to mark rows as read.
#[derive(Debug)]
pub struct ReadBody {
    pub ids: Vec<i64>,
    pub all: bool,
}

/// Which rows are to be marked as read.
#[derive(Debug)]
pub enum ToRead {
    All,
    These(Vec<i64>),
}

#[verifier::ext_equal]
pub enum ToReadView {
    All,
    These(Seq<i64>),
}

impl View for ToRead {
    type V = ToReadView;

    open spec fn view(&self) -> ToReadView {
        match *self {
            ToRead::All => ToReadView::All,
            ToRead::These(ids) => ToReadView::These(ids@),
        }
    }
}

/// What answers a request to mark rows as read before the store is asked.
pub open spec fn read_request(
    auth: Option<AuthContext>,
    store_ready: bool,
    received: Received<ReadBody>,
) -> Result<(Uuid, ToReadView), crate::http::RefusalView> {
    match crate::doc_routes::session_request(auth, store_ready) {
        Err(refused) => Err(refused),
        Ok(ctx) => match received {
            Received::Unreadable => Err(crate::http::refusal(413, "bad_request"@, ""@)),
            Received::Malformed => Err(crate::http::bad_request()),
            Received::Parsed(b) => Ok(
                (
                    ctx.user_id,
                    if b.all {
                        ToReadView::All
                    } else {
                        ToReadView::These(b.ids@)
                    },
                ),
            ),
        },
    }
}

/// POST /api/notifications/read: whose rows are to be marked, and which.
pub fn mark_read(
    auth: Option<AuthContext>,
    store_ready: bool,
    received: Received<ReadBody>,
) -> (r: Result<(Uuid, ToRead), Refusal>)
    ensures
        match (r, read_request(auth, store_ready, received)) {
            (Ok(a), Ok(b)) => a.0 == b.0 && a.1@ == b.1,
            (Err(a), Err(b)) => a@ == b,
            _ => false,
        },
{
    let ctx = match unread_count(auth, store_ready) {
        Ok(ctx) => ctx,
        Err(refused) => return Err(refused),
    };
    match received {
        Received::Unreadable => Err(refuse(413, "bad_request")),
        Received::Malformed => Err(refuse(400, "bad_request")),
        Received::Parsed(b) => if b.all {
            Ok((ctx.user_id, ToRead::All))
        } else {
            Ok((ctx.user_id, ToRead::These(b.ids)))
        },
    }
}

/// Answers a request to mark rows as read that went to the store.
pub fn marked(stored: bool) -> (r: Result<u16, Refusal>)
    ensures
        crate::http::answers(r, crate::http::written_answer(stored)),
{
    if stored {
        Ok(204)
    } else {
        Err(internal())
    }
}

/// The badge says "and more" exactly where there are at least as many unread
/// rows as are counted, and else shows how many there are.
pub proof fn law_badge_shows_the_unread(
    rows: Seq<crate::notifications::NotificationRowView>,
    user: Uuid,
    counted: i64,
)
    requires
        counted == if crate::notifications::unread_total(rows, user) < UNREAD_CAP {
            crate::notifications::unread_total(rows, user) as int
        } else {
            UNREAD_CAP as int
        },
    ensures
        (counted >= UNREAD_CAP) <==> crate::notifications::unread_total(rows, user) >= UNREAD_CAP,
        counted < UNREAD_CAP ==> counted == crate::notifications::unread_total(rows, user),
{
}

/// A page asks the store for one row at least and a hundred at most.
pub proof fn law_page_limit_is_kept_in_bounds(asked: Option<i64>)
    ensures
        1 <= page_limit(asked) <= MAX_LIMIT,
        asked is Some && 1 <= asked->0 <= MAX_LIMIT ==> page_limit(asked) == asked->0,
{
}

/// What is left out of a page is left out silently: the items are those of the
/// rows that are shown, and where the next page starts does not depend on the
/// checks.
pub proof fn law_items_come_from_shown_rows(
    rows: Seq<crate::notifications::NotificationView>,
    checks: Seq<RoleLookup>,
    k: int,
)
    requires
        0 <= k < shown_items(rows, checks).len(),
    ensures
        exists|i: int|
            0 <= i < rows.len() && is_shown(#[trigger] rows[i], checks[i]) && shown_items(
                rows,
                checks,
            )[k] == item_of(rows[i]),
    decreases rows.len(),
{
    let rest = shown_items(rows.drop_last(), checks);
    if k < rest.len() {
        law_items_come_from_shown_rows(rows.drop_last(), checks, k);
        let i = choose|i: int|
            0 <= i < rows.drop_last().len() && is_shown(#[trigger] rows.drop_last()[i], checks[i])
                && rest[k] == item_of(rows.drop_last()[i]);
        assert(rows[i] == rows.drop_last()[i]);
    } else {
        assert(is_shown(rows[rows.len() - 1], checks[rows.len() - 1]));
    }
}

/// The number of rows that the store is asked for: fifty where the request says
/// nothing, one where it asks for fewer, a hundred where it asks for more, and else
/// what it asks for. The badge counts to a hundred.
pub proof fn law_how_many_rows_are_asked_for(asked: Option<i64>)
    ensures
        asked is None ==> page_limit(asked) == 50,
        asked is Some && asked->0 < 1 ==> page_limit(asked) == 1,
        asked is Some && asked->0 > 100 ==> page_limit(asked) == 100,
        asked is Some && 1 <= asked->0 <= 100 ==> page_limit(asked) == asked->0,
        UNREAD_CAP == 100,
{
}

/// A page goes to the store exactly where there is a session and the stores are
/// there, and then for the session's own user: the unread rows alone where the
/// filter is `unread`, below the cursor of the request.
pub proof fn law_a_page_is_asked_for_as_requested(
    auth: Option<AuthContext>,
    stores_ready: bool,
    q: ListQuery,
)
    ensures
        ({
            let answer = page_request(auth, stores_ready, q);
            &&& answer is Ok <==> auth is Some && stores_ready
            &&& answer matches Ok(p) ==> {
                &&& auth == Some(p.ctx)
                &&& p.unread_only <==> q.filter is Some && q.filter->0@ == "unread"@
                &&& p.limit == page_limit(q.limit)
                &&& p.cursor == q.cursor
            }
            &&& auth is None ==> answer->Err_0.status == 401 && answer->Err_0.code
                == "auth.session_required"@
            &&& auth is Some && !stores_ready ==> answer->Err_0.status == 500
        }),
{
}

/// A row is answered as it was read: all that the reader sees of it, its
/// document's identifier and its time as text, and whether it was read.
pub proof fn law_an_item_shows_its_row(n: crate::notifications::NotificationView)
    ensures
        ({
            let item = item_of(n);
            &&& item.id == n.id
            &&& item.kind == n.kind
            &&& n.doc_id is None ==> item.doc_id is None
            &&& n.doc_id is Some ==> item.doc_id == Some(crate::ids::uuid_text(n.doc_id->0))
            &&& item.doc_title == n.doc_title
            &&& item.target_kind == n.target_kind
            &&& item.target_id == n.target_id
            &&& item.actor_display_name == n.actor_display_name
            &&& item.data == n.data
            &&& item.created_at == crate::time::rfc3339_text(n.created_at)
            &&& item.read <==> n.read_at is Some
        }),
{
}

/// Where the items of a page come from: each from a row of its own, later items
/// from later rows, and every row without a document or with one on which the
/// reader has a role gives one. No other row does.
pub proof fn law_a_page_shows_what_may_be_read(
    rows: Seq<crate::notifications::NotificationView>,
    checks: Seq<RoleLookup>,
) -> (at: Seq<int>)
    requires
        rows.len() == checks.len(),
    ensures
        at.len() == shown_items(rows, checks).len(),
        forall|k: int|
            0 <= k < at.len() ==> 0 <= #[trigger] at[k] < rows.len() && shown_items(rows, checks)[k]
                == item_of(rows[at[k]]) && (rows[at[k]].doc_id is None || checks[at[k]] is Role),
        forall|k: int, l: int| 0 <= k < l < at.len() ==> #[trigger] at[k] < #[trigger] at[l],
        forall|i: int|
            0 <= i < rows.len() && ((#[trigger] rows[i]).doc_id is None || checks[i] is Role)
                ==> at.contains(i),
    decreases rows.len(),
{
    if rows.len() == 0 {
        Seq::empty()
    } else {
        let n = rows.len() - 1;
        lemma_shown_prefix(rows.drop_last(), checks, checks.drop_last());
        let rest = law_a_page_shows_what_may_be_read(rows.drop_last(), checks.drop_last());
        if rows[n].doc_id is None || checks[n] is Role {
            let at = rest.push(n);
            assert forall|i: int|
                0 <= i < rows.len() && ((#[trigger] rows[i]).doc_id is None
                    || checks[i] is Role) implies at.contains(i) by {
                if i < n {
                    assert(rows.drop_last()[i] == rows[i]);
                    assert(rest.contains(i));
                    let k = choose|k: int| 0 <= k < rest.len() && rest[k] == i;
                    assert(at[k] == i);
                } else {
                    assert(at[rest.len() as int] == i);
                }
            }
            at
        } else {
            assert forall|i: int|
                0 <= i < rows.len() && ((#[trigger] rows[i]).doc_id is None
                    || checks[i] is Role) implies rest.contains(i) by {
                assert(rows.drop_last()[i] == rows[i]);
            }
            rest
        }
    }
}

/// Checks behind the rows play no part.
proof fn lemma_shown_prefix(
    rows: Seq<crate::notifications::NotificationView>,
    a: Seq<RoleLookup>,
    b: Seq<RoleLookup>,
)
    requires
        rows.len() <= a.len(),
        rows.len() <= b.len(),
        forall|i: int| 0 <= i < rows.len() ==> #[trigger] a[i] == b[i],
    ensures
        shown_items(rows, a) == shown_items(rows, b),
    decreases rows.len(),
{
    if rows.len() > 0 {
        lemma_shown_prefix(rows.drop_last(), a, b);
        assert(a[rows.len() - 1] == b[rows.len() - 1]);
    }
}

/// A page is refused exactly where the check of a row with a document could not be
/// made. Else there is a next page exactly where the page is full, and it starts
/// below its last row, shown or not.
pub proof fn law_where_the_next_page_starts(
    rows: Seq<crate::notifications::NotificationView>,
    checks: Seq<RoleLookup>,
    limit: i64,
)
    requires
        rows.len() == checks.len(),
        limit > 0,
    ensures
        ({
            let answer = page_answer(rows, checks, limit);
            &&& answer is Err <==> exists|i: int|
                0 <= i < rows.len() && (#[trigger] rows[i]).doc_id is Some && checks[i] is Failed
            &&& answer is Err ==> answer->Err_0.status == 500
            &&& answer matches Ok(page) ==> {
                &&& rows.len() == limit ==> page.next_cursor == Some(rows.last().id)
                &&& rows.len() < limit ==> page.next_cursor is None
                &&& page.items == shown_items(rows, checks)
            }
        }),
{
    if exists|i: int| 0 <= i < rows.len() && check_failed(#[trigger] rows[i], checks[i]) {
        let i = choose|i: int| 0 <= i < rows.len() && check_failed(#[trigger] rows[i], checks[i]);
        assert(rows[i].doc_id is Some && checks[i] is Failed);
    }
    if exists|i: int|
        0 <= i < rows.len() && (#[trigger] rows[i]).doc_id is Some && checks[i] is Failed {
        let i = choose|i: int|
            0 <= i < rows.len() && (#[trigger] rows[i]).doc_id is Some && checks[i] is Failed;
        assert(check_failed(rows[i], checks[i]));
    }
}

/// What a request to mark as read asks the store for: the session's own rows, all of
/// them where it says so, and else exactly those that it lists. It is refused for
/// want of a session, then of the store, then for its body.
pub proof fn law_what_is_marked_as_read(
    auth: Option<AuthContext>,
    store_ready: bool,
    received: Received<ReadBody>,
)
    ensures
        ({
            let answer = read_request(auth, store_ready, received);
            &&& answer is Ok <==> auth is Some && store_ready && received is Parsed
            &&& answer matches Ok(asked) ==> {
                &&& asked.0 == auth->0.user_id
                &&& received->Parsed_0.all ==> asked.1 is All
                &&& !received->Parsed_0.all ==> asked.1 is These && asked.1->These_0
                    == received->Parsed_0.ids@
            }
            &&& auth is None ==> answer->Err_0.status == 401
            &&& auth is Some && !store_ready ==> answer->Err_0.status == 500
            &&& auth is Some && store_ready && received is Unreadable ==> answer->Err_0.status
                == 413
            &&& auth is Some && store_ready && received is Malformed ==> answer->Err_0.status
                == 400
        }),
{
}

/// What a reader's badge shows once the rows were counted: how many are unread, where
/// there are fewer than a hundred, and else a hundred with a "+".
pub proof fn law_the_badge_counts_to_a_hundred(
    rows: Seq<crate::notifications::NotificationRowView>,
    user: Uuid,
    counted: i64,
)
    requires
        counted == crate::notifications::counted_unread(rows, user, UNREAD_CAP as int),
    ensures
        ({
            let there = rows.filter(crate::notifications::is_unread_of(user)).len();
            let shown = badge(counted);
            &&& there < 100 ==> shown.count == there && !shown.capped
            &&& there >= 100 ==> shown.count == 100 && shown.capped
        }),
{
    crate::notifications::law_counting_stops_at_the_cap(rows, user, UNREAD_CAP as int);
}

} // verus!
