//! The document tree: parents, descendants, and the moves that would turn it
//! into a loop.

use crate::ids::Uuid;
use vstd::prelude::*;

verus! {

/// A document and its parent.
#[derive(Clone, Copy, Debug, PartialEq, Eq, Structural)]
pub struct TreeLink {
    pub id: Uuid,
    pub parent_id: Option<Uuid>,
}

/// Whether a document is in the tree.
pub open spec fn in_tree(links: Seq<TreeLink>, id: Uuid) -> bool {
    exists|i: int| 0 <= i < links.len() && (#[trigger] links[i]).id == id
}

/// The parent of a document, by the first link that names it.
pub open spec fn parent_of(links: Seq<TreeLink>, id: Uuid) -> Option<Uuid>
    decreases links.len(),
{
    if links.len() == 0 {
        None
    } else if links[0].id == id {
        links[0].parent_id
    } else {
        parent_of(links.skip(1), id)
    }
}

/// Where one gets from a document in `n` steps from child to parent.
pub open spec fn climb(links: Seq<TreeLink>, id: Uuid, n: nat) -> Option<Uuid>
    decreases n,
{
    if n == 0 {
        Some(id)
    } else {
        match climb(links, id, (n - 1) as nat) {
            Some(at) => parent_of(links, at),
            None => None,
        }
    }
}

/// Whether one document is another or stands somewhere below it.
pub open spec fn at_or_below(links: Seq<TreeLink>, id: Uuid, top: Uuid) -> bool {
    exists|n: nat| #[trigger] climb(links, id, n) == Some(top)
}

/// Whether a document stands somewhere below another: is one of its children,
/// grandchildren and so on.
pub open spec fn is_below(links: Seq<TreeLink>, id: Uuid, top: Uuid) -> bool {
    exists|n: nat| n > 0 && #[trigger] climb(links, id, n) == Some(top)
}

/// Whether no document stands below itself.
pub open spec fn acyclic(links: Seq<TreeLink>) -> bool {
    forall|id: Uuid| !is_below(links, id, id)
}

/// Whether giving `doc_id` the parent `parent_id` would close a loop: the
/// document is there, and the parent is it or stands below it.
pub open spec fn closes_loop(links: Seq<TreeLink>, doc_id: Uuid, parent_id: Uuid) -> bool {
    in_tree(links, doc_id) && at_or_below(links, parent_id, doc_id)
}

/// Which documents stand below another.
pub open spec fn below(links: Seq<TreeLink>, top: Uuid) -> spec_fn(TreeLink) -> bool {
    |l: TreeLink| match l.parent_id {
        Some(p) => at_or_below(links, p, top),
        None => false,
    }
}

/// The identifiers of a sequence of links.
pub open spec fn link_ids(links: Seq<TreeLink>) -> Seq<Uuid> {
    Seq::new(links.len(), |i: int| links[i].id)
}

fn find_parent(links: &Vec<TreeLink>, id: Uuid) -> (r: Option<Uuid>)
    ensures
        r == parent_of(links@, id),
{
    let mut i: usize = 0;
    assert(links@.skip(0) =~= links@);
    while i < links.len()
        invariant
            i <= links@.len(),
            parent_of(links@.skip(i as int), id) == parent_of(links@, id),
        decreases links@.len() - i,
    {
        assert(links@.skip(i as int).skip(1) =~= links@.skip(i + 1));
        assert(links@.skip(i as int)[0] == links@[i as int]);
        if links[i].id == id {
            return links[i].parent_id;
        }
        i += 1;
    }
    None
}

/// Whether a document is in the tree.
pub fn is_in_tree(links: &Vec<TreeLink>, id: Uuid) -> (r: bool)
    ensures
        r == in_tree(links@, id),
{
    let mut i: usize = 0;
    while i < links.len()
        invariant
            i <= links@.len(),
            forall|k: int| 0 <= k < i ==> (#[trigger] links@[k]).id != id,
        decreases links@.len() - i,
    {
        if links[i].id == id {
            assert(links@[i as int].id == id);
            return true;
        }
        i += 1;
    }
    false
}

/// Whether one document is another or stands somewhere below it.
pub fn is_at_or_below(links: &Vec<TreeLink>, id: Uuid, top: Uuid) -> (r: bool)
    ensures
        r == at_or_below(links@, id, top),
{
    let mut at: Uuid = id;
    let mut n: usize = 0;
    let total: usize = links.len();
    loop
        invariant
            total == links@.len(),
            n <= total,
            climb(links@, id, n as nat) == Some(at),
            forall|k: nat| k < n ==> #[trigger] climb(links@, id, k) != Some(top),
        decreases total - n,
    {
        if at == top {
            return true;
        }
        if n == total {
            proof {
                if at_or_below(links@, id, top) {
                    lemma_short_climb(links@, id, top);
                }
            }
            return false;
        }
        match find_parent(links, at) {
            None => {
                proof {
                    assert(climb(links@, id, (n + 1) as nat) is None);
                    assert forall|k: nat| #[trigger] climb(links@, id, k) != Some(top) by {
                        if k > n {
                            lemma_climb_stays_out(links@, id, (n + 1) as nat, k);
                        }
                    }
                }
                return false;
            },
            Some(up) => {
                at = up;
                n += 1;
            },
        }
    }
}

/// Whether giving `doc_id` the parent `parent_id` would close a loop.
pub fn creates_cycle(links: &Vec<TreeLink>, doc_id: Uuid, parent_id: Uuid) -> (r: bool)
    ensures
        r == closes_loop(links@, doc_id, parent_id),
{
    is_in_tree(links, doc_id) && is_at_or_below(links, parent_id, doc_id)
}

/// The documents below another one, in the order of the links.
pub fn descendant_ids(links: &Vec<TreeLink>, top: Uuid) -> (r: Vec<Uuid>)
    ensures
        r@ == link_ids(links@.filter(below(links@, top))),
{
    let ghost p = below(links@, top);
    let mut out: Vec<Uuid> = Vec::new();
    let mut i: usize = 0;
    proof {
        reveal(Seq::filter);
        assert(links@.take(0) =~= Seq::<TreeLink>::empty());
        assert(out@ =~= link_ids(links@.take(0).filter(p)));
    }
    while i < links.len()
        invariant
            i <= links@.len(),
            p == below(links@, top),
            out@ == link_ids(links@.take(i as int).filter(p)),
        decreases links@.len() - i,
    {
        proof {
            crate::seqs::lemma_filter_step(links@, i as int, p);
        }
        let under = match links[i].parent_id {
            Some(q) => is_at_or_below(links, q, top),
            None => false,
        };
        if under {
            let ghost kept = links@.take(i as int).filter(p);
            out.push(links[i].id);
            assert(link_ids(kept.push(links@[i as int])) =~= link_ids(kept).push(
                links@[i as int].id,
            ));
        }
        i += 1;
    }
    assert(links@.take(i as int) =~= links@);
    out
}

/// Once a climb has left the tree it does not come back.
proof fn lemma_climb_stays_out(links: Seq<TreeLink>, id: Uuid, n: nat, m: nat)
    requires
        n <= m,
        climb(links, id, n) is None,
    ensures
        climb(links, id, m) is None,
    decreases m,
{
    if m > n {
        lemma_climb_stays_out(links, id, n, (m - 1) as nat);
    }
}

/// Climbing on from where one got to.
proof fn lemma_climb_on(links: Seq<TreeLink>, id: Uuid, n: nat, m: nat)
    requires
        climb(links, id, n) is Some,
    ensures
        climb(links, id, n + m) == climb(links, climb(links, id, n)->0, m),
    decreases m,
{
    if m > 0 {
        lemma_climb_on(links, id, n, (m - 1) as nat);
    }
}

/// What has a parent is in the tree.
proof fn lemma_parent_in_tree(links: Seq<TreeLink>, id: Uuid)
    requires
        parent_of(links, id) is Some,
    ensures
        in_tree(links, id),
    decreases links.len(),
{
    if links[0].id != id {
        lemma_parent_in_tree(links.skip(1), id);
        let i = choose|i: int| 0 <= i < links.skip(1).len() && (#[trigger] links.skip(1)[i]).id == id;
        assert(links[i + 1].id == id);
    }
}

/// The stations of a climb.
spec fn stations(links: Seq<TreeLink>, id: Uuid, n: nat) -> Seq<Uuid> {
    Seq::new(n, |i: int| climb(links, id, i as nat)->0)
}

/// A climb that reaches its goal reaches it in no more steps than there are
/// links.
proof fn lemma_short_climb(links: Seq<TreeLink>, id: Uuid, top: Uuid)
    requires
        at_or_below(links, id, top),
    ensures
        exists|n: nat| n <= links.len() && #[trigger] climb(links, id, n) == Some(top),
{
    let n0 = choose|n: nat| #[trigger] climb(links, id, n) == Some(top);
    let n = lemma_first(links, id, top, n0);
    let s = stations(links, id, n);
    assert forall|i: int| 0 <= i < n implies climb(links, id, i as nat) is Some && in_tree(
        links,
        #[trigger] s[i],
    ) by {
        if climb(links, id, i as nat) is None {
            lemma_climb_stays_out(links, id, i as nat, n);
        }
        if climb(links, id, (i + 1) as nat) is None {
            lemma_climb_stays_out(links, id, (i + 1) as nat, n);
        }
        lemma_parent_in_tree(links, s[i]);
    }
    assert(s.no_duplicates()) by {
        assert forall|i: int, j: int| 0 <= i < s.len() && 0 <= j < s.len() && i < j implies s[i]
            != s[j] by {
            if s[i] == s[j] {
                // What lies between the two visits can be left out.
                assert(in_tree(links, s[i]) && in_tree(links, s[j]));
                lemma_climb_on(links, id, j as nat, (n - j) as nat);
                lemma_climb_on(links, id, i as nat, (n - j) as nat);
                let shorter = (i + (n - j)) as nat;
                assert(climb(links, id, shorter) == Some(top));
                assert(shorter < n);
            }
        }
        assert forall|i: int, j: int| 0 <= i < s.len() && 0 <= j < s.len() && i != j implies s[i]
            != s[j] by {
            if j < i {
                assert(s[j] != s[i]);
            }
        }
    }
    s.unique_seq_to_set();
    let ids = link_ids(links);
    assert(s.to_set().subset_of(ids.to_set())) by {
        assert forall|x: Uuid| s.to_set().contains(x) implies ids.to_set().contains(x) by {
            let i = choose|i: int| 0 <= i < s.len() && s[i] == x;
            assert(in_tree(links, s[i]));
            let k = choose|k: int| 0 <= k < links.len() && (#[trigger] links[k]).id == x;
            assert(ids[k] == x);
        }
    }
    vstd::set_lib::lemma_len_subset(s.to_set(), ids.to_set());
    ids.lemma_cardinality_of_set();
}

/// The first step at which a climb reaches its goal.
proof fn lemma_first(links: Seq<TreeLink>, id: Uuid, top: Uuid, n: nat) -> (first: nat)
    requires
        climb(links, id, n) == Some(top),
    ensures
        first <= n,
        climb(links, id, first) == Some(top),
        forall|k: nat| k < first ==> #[trigger] climb(links, id, k) != Some(top),
    decreases n,
{
    if exists|k: nat| k < n && #[trigger] climb(links, id, k) == Some(top) {
        let k = choose|k: nat| k < n && #[trigger] climb(links, id, k) == Some(top);
        lemma_first(links, id, top, k)
    } else {
        n
    }
}

/// The links after a document was given another parent.
pub open spec fn moved(
    links: Seq<TreeLink>,
    at: int,
    parent_id: Option<Uuid>,
) -> Seq<TreeLink> {
    links.update(at, TreeLink { id: links[at].id, parent_id })
}

/// With one link for each document, its parent is the one that the link names.
pub proof fn lemma_parent_of_link(links: Seq<TreeLink>, i: int)
    requires
        0 <= i < links.len(),
        link_ids(links).no_duplicates(),
    ensures
        parent_of(links, links[i].id) == links[i].parent_id,
    decreases links.len(),
{
    if i > 0 {
        let rest = links.skip(1);
        assert(link_ids(links)[0] != link_ids(links)[i]);
        assert(rest[i - 1] == links[i]);
        assert(link_ids(rest).no_duplicates()) by {
            assert forall|a: int, b: int| 0 <= a < rest.len() && 0 <= b < rest.len() && a != b implies link_ids(
                rest,
            )[a] != link_ids(rest)[b] by {
                assert(link_ids(links)[a + 1] != link_ids(links)[b + 1]);
            }
        }
        lemma_parent_of_link(rest, i - 1);
    }
}

proof fn lemma_no_parent(links: Seq<TreeLink>, id: Uuid)
    requires
        !in_tree(links, id),
    ensures
        parent_of(links, id) is None,
    decreases links.len(),
{
    if parent_of(links, id) is Some {
        lemma_parent_in_tree(links, id);
    }
}

/// Only the document that was moved has another parent than before.
proof fn lemma_moved_parents(links: Seq<TreeLink>, at: int, parent_id: Option<Uuid>, id: Uuid)
    requires
        0 <= at < links.len(),
        link_ids(links).no_duplicates(),
    ensures
        parent_of(moved(links, at, parent_id), id) == if id == links[at].id {
            parent_id
        } else {
            parent_of(links, id)
        },
{
    let after = moved(links, at, parent_id);
    assert(link_ids(after) =~= link_ids(links));
    if in_tree(links, id) {
        let i = choose|i: int| 0 <= i < links.len() && (#[trigger] links[i]).id == id;
        lemma_parent_of_link(links, i);
        lemma_parent_of_link(after, i);
        assert(link_ids(links)[i] == id);
        assert(link_ids(links)[at] == links[at].id);
    } else {
        if in_tree(after, id) {
            let i = choose|i: int| 0 <= i < after.len() && (#[trigger] after[i]).id == id;
            assert(links[i].id == id);
        }
        lemma_no_parent(links, id);
        lemma_no_parent(after, id);
        assert(links[at].id != id);
    }
}

/// A climb that does not leave from the moved document goes as before.
proof fn lemma_moved_climb(
    links: Seq<TreeLink>,
    at: int,
    parent_id: Option<Uuid>,
    id: Uuid,
    n: nat,
)
    requires
        0 <= at < links.len(),
        link_ids(links).no_duplicates(),
        forall|k: nat| k < n ==> #[trigger] climb(moved(links, at, parent_id), id, k) != Some(
            links[at].id,
        ),
    ensures
        climb(moved(links, at, parent_id), id, n) == climb(links, id, n),
    decreases n,
{
    if n > 0 {
        lemma_moved_climb(links, at, parent_id, id, (n - 1) as nat);
        let here = climb(links, id, (n - 1) as nat);
        if let Some(y) = here {
            assert(climb(moved(links, at, parent_id), id, (n - 1) as nat) != Some(links[at].id));
            lemma_moved_parents(links, at, parent_id, y);
        }
    }
}

/// A move that closes no loop keeps the tree a tree.
pub proof fn law_moves_keep_the_tree_acyclic(
    links: Seq<TreeLink>,
    at: int,
    parent_id: Option<Uuid>,
)
    requires
        0 <= at < links.len(),
        link_ids(links).no_duplicates(),
        acyclic(links),
        parent_id is Some ==> !closes_loop(links, links[at].id, parent_id->0),
    ensures
        acyclic(moved(links, at, parent_id)),
{
    let after = moved(links, at, parent_id);
    let doc = links[at].id;
    assert forall|id: Uuid| !is_below(after, id, id) by {
        if is_below(after, id, id) {
            let n = choose|n: nat| n > 0 && #[trigger] climb(after, id, n) == Some(id);
            if forall|k: nat| k < n ==> #[trigger] climb(after, id, k) != Some(doc) {
                lemma_moved_climb(links, at, parent_id, id, n);
                assert(is_below(links, id, id));
            } else {
                // The loop leads through the moved document, so one leads from
                // it back to itself, and its first step is to the new parent.
                let i = choose|i: nat| i < n && #[trigger] climb(after, id, i) == Some(doc);
                lemma_climb_on(after, id, i, (n - i) as nat);
                assert(climb(after, doc, (n - i) as nat) == Some(id));
                lemma_climb_on(after, doc, (n - i) as nat, i);
                assert(climb(after, doc, n) == Some(doc));
                lemma_moved_parents(links, at, parent_id, doc);
                assert(climb(after, doc, 0) == Some(doc));
                assert(climb(after, doc, 1) == parent_id);
                match parent_id {
                    None => {
                        lemma_climb_stays_out(after, doc, 1, n);
                    },
                    Some(p) => {
                        lemma_climb_on(after, doc, 1, (n - 1) as nat);
                        assert(climb(after, p, (n - 1) as nat) == Some(doc));
                        let m = lemma_first(after, p, doc, (n - 1) as nat);
                        lemma_moved_climb(links, at, parent_id, p, m);
                        assert(climb(links, p, m) == Some(doc));
                        assert(at_or_below(links, p, doc));
                        assert(in_tree(links, doc));
                    },
                }
            }
        }
    }
}

/// A new document without children keeps the tree a tree.
pub proof fn law_new_documents_keep_the_tree_acyclic(links: Seq<TreeLink>, link: TreeLink)
    requires
        acyclic(links),
        !in_tree(links, link.id),
        link_ids(links).no_duplicates(),
        forall|i: int| 0 <= i < links.len() ==> (#[trigger] links[i]).parent_id != Some(link.id),
        link.parent_id != Some(link.id),
    ensures
        acyclic(links.push(link)),
{
    let after = links.push(link);
    assert forall|id: Uuid| !is_below(after, id, id) by {
        if is_below(after, id, id) {
            let n = choose|n: nat| n > 0 && #[trigger] climb(after, id, n) == Some(id);
            assert forall|k: nat| 0 < k implies #[trigger] climb(after, id, k) != Some(link.id) by {
                if climb(after, id, k) == Some(link.id) {
                    let y = climb(after, id, (k - 1) as nat)->0;
                    lemma_parent_link(after, y);
                    let i = choose|i: int|
                        0 <= i < after.len() && (#[trigger] after[i]).id == y && after[i].parent_id
                            == parent_of(after, y);
                    if i < links.len() {
                        assert(links[i].parent_id == Some(link.id));
                    }
                }
            }
            assert(climb(after, id, n) != Some(link.id));
            assert(id != link.id);
            lemma_pushed_climb(links, link, id, n);
            assert(is_below(links, id, id));
        }
    }
}

proof fn lemma_parent_link(links: Seq<TreeLink>, id: Uuid)
    requires
        parent_of(links, id) is Some,
    ensures
        exists|i: int|
            0 <= i < links.len() && (#[trigger] links[i]).id == id && links[i].parent_id
                == parent_of(links, id),
    decreases links.len(),
{
    if links[0].id != id {
        let rest = links.skip(1);
        lemma_parent_link(rest, id);
        let i = choose|i: int|
            0 <= i < rest.len() && (#[trigger] rest[i]).id == id && rest[i].parent_id == parent_of(
                rest,
                id,
            );
        assert(links[i + 1] == rest[i]);
    } else {
        assert(links[0].id == id);
    }
}

proof fn lemma_pushed_parent(links: Seq<TreeLink>, link: TreeLink, id: Uuid)
    requires
        id != link.id,
    ensures
        parent_of(links.push(link), id) == parent_of(links, id),
    decreases links.len(),
{
    let after = links.push(link);
    if links.len() == 0 {
        reveal_with_fuel(parent_of, 2);
        assert(after.skip(1) =~= Seq::<TreeLink>::empty());
    } else {
        assert(after.skip(1) =~= links.skip(1).push(link));
        assert(after[0] == links[0]);
        lemma_pushed_parent(links.skip(1), link, id);
    }
}

proof fn lemma_pushed_climb(links: Seq<TreeLink>, link: TreeLink, id: Uuid, n: nat)
    requires
        id != link.id,
        forall|k: nat| 0 < k ==> #[trigger] climb(links.push(link), id, k) != Some(link.id),
    ensures
        climb(links.push(link), id, n) == climb(links, id, n),
    decreases n,
{
    if n > 0 {
        lemma_pushed_climb(links, link, id, (n - 1) as nat);
        if let Some(y) = climb(links, id, (n - 1) as nat) {
            assert(climb(links.push(link), id, (n - 1) as nat) == Some(y));
            assert(y != link.id);
            lemma_pushed_parent(links, link, y);
        }
    }
}

/// In a tree no document is among its own descendants, and what stands below a
/// descendant is a descendant.
pub proof fn law_descendants(links: Seq<TreeLink>, top: Uuid, i: int)
    requires
        0 <= i < links.len(),
        link_ids(links).no_duplicates(),
    ensures
        below(links, top)(links[i]) <==> is_below(links, links[i].id, top),
        acyclic(links) && links[i].id == top ==> !below(links, top)(links[i]),
{
    let id = links[i].id;
    lemma_parent_of_link(links, i);
    assert(climb(links, id, 0) == Some(id));
    assert(climb(links, id, 1) == links[i].parent_id);
    if below(links, top)(links[i]) {
        let p = links[i].parent_id->0;
        let n = choose|n: nat| #[trigger] climb(links, p, n) == Some(top);
        lemma_climb_on(links, id, 1, n);
        assert(climb(links, id, 1 + n) == Some(top));
    }
    if is_below(links, id, top) {
        let n = choose|n: nat| n > 0 && #[trigger] climb(links, id, n) == Some(top);
        if links[i].parent_id is None {
            lemma_climb_stays_out(links, id, 1, n);
        }
        let p = links[i].parent_id->0;
        lemma_climb_on(links, id, 1, (n - 1) as nat);
        assert(climb(links, p, (n - 1) as nat) == Some(top));
    }
}

/// What a loop is: giving a document a parent closes one exactly where the document
/// is in the tree and the parent is the document itself or one that stands below it,
/// at any depth. A child stands below its parent, and what stands below the child
/// stands below the parent.
pub proof fn law_what_closes_a_loop(
    links: Seq<TreeLink>,
    doc_id: Uuid,
    parent_id: Uuid,
    i: int,
    low: Uuid,
)
    requires
        link_ids(links).no_duplicates(),
        0 <= i < links.len(),
    ensures
        closes_loop(links, doc_id, parent_id) <==> (exists|k: int|
            0 <= k < links.len() && (#[trigger] links[k]).id == doc_id) && (parent_id == doc_id
            || is_below(links, parent_id, doc_id)),
        links[i].parent_id is Some ==> is_below(links, links[i].id, links[i].parent_id->0),
        links[i].parent_id is Some && is_below(links, low, links[i].id) ==> is_below(
            links,
            low,
            links[i].parent_id->0,
        ),
        links[i].parent_id is None ==> !is_below(links, links[i].id, low),
{
    if at_or_below(links, parent_id, doc_id) {
        let n = choose|n: nat| #[trigger] climb(links, parent_id, n) == Some(doc_id);
        if n > 0 {
            assert(is_below(links, parent_id, doc_id));
        }
    }
    if parent_id == doc_id {
        assert(climb(links, parent_id, 0) == Some(doc_id));
    }
    if is_below(links, parent_id, doc_id) {
        let n = choose|n: nat| n > 0 && #[trigger] climb(links, parent_id, n) == Some(doc_id);
        assert(at_or_below(links, parent_id, doc_id));
    }
    lemma_parent_of_link(links, i);
    let id = links[i].id;
    assert(climb(links, id, 0) == Some(id));
    assert(climb(links, id, 1) == parent_of(links, id)) by {
        reveal_with_fuel(climb, 2);
    }
    if let Some(p) = links[i].parent_id {
        assert(climb(links, id, 1) == Some(p));
        if is_below(links, low, id) {
            let n = choose|n: nat| n > 0 && #[trigger] climb(links, low, n) == Some(id);
            assert(climb(links, low, n + 1) == Some(p));
        }
    } else if is_below(links, id, low) {
        let n = choose|n: nat| n > 0 && #[trigger] climb(links, id, n) == Some(low);
        lemma_climb_stays_out(links, id, 1, n);
    }
}

/// The descendants of a document are exactly the documents that stand below it, each
/// once.
pub proof fn law_descendants_are_all_below(links: Seq<TreeLink>, top: Uuid)
    requires
        link_ids(links).no_duplicates(),
    ensures
        forall|id: Uuid| #[trigger]
            link_ids(links.filter(below(links, top))).contains(id) <==> in_tree(links, id)
                && is_below(links, id, top),
        link_ids(links.filter(below(links, top))).no_duplicates(),
{
    let p = below(links, top);
    let kept = links.filter(p);
    let ids = link_ids(kept);
    let at = crate::seqs::lemma_filter_order(links, p);
    assert forall|id: Uuid| #[trigger] ids.contains(id) implies in_tree(links, id) && is_below(
        links,
        id,
        top,
    ) by {
        let k = choose|k: int| 0 <= k < ids.len() && ids[k] == id;
        links.lemma_filter_pred(p, k);
        assert(links[at[k]] == kept[k]);
        assert(links[at[k]].id == id);
        law_descendants(links, top, at[k]);
    }
    assert forall|id: Uuid| in_tree(links, id) && is_below(
        links,
        id,
        top,
    ) implies #[trigger] ids.contains(id) by {
        let i = choose|i: int| 0 <= i < links.len() && (#[trigger] links[i]).id == id;
        law_descendants(links, top, i);
        assert(links.contains(links[i]));
        crate::seqs::lemma_filter_contains(links, p, links[i]);
        let k = choose|k: int| 0 <= k < kept.len() && kept[k] == links[i];
        assert(ids[k] == id);
    }
    assert forall|k: int, l: int| 0 <= k < l < ids.len() implies ids[k] != ids[l] by {
        assert(at[k] < at[l]);
        assert(links[at[k]] == kept[k] && links[at[l]] == kept[l]);
        assert(link_ids(links)[at[k]] != link_ids(links)[at[l]]);
    }
}

} // verus!
