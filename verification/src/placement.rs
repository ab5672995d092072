//! Where among its siblings a document is put: the gap between two neighbours
//! into which its sort key has to fall.

use crate::docs::Document;
use crate::ids::Uuid;
use vstd::prelude::*;

verus! {

/// A gap between neighbours, given by their sort keys. An open end has none.
#[derive(Debug)]
pub struct Gap {
    pub after: Option<String>,
    pub before: Option<String>,
}

#[verifier::ext_equal]
pub struct GapView {
    pub after: Option<Seq<char>>,
    pub before: Option<Seq<char>>,
}

impl View for Gap {
    type V = GapView;

    open spec fn view(&self) -> GapView {
        GapView {
            after: crate::notifications::opt_text(self.after),
            before: crate::notifications::opt_text(self.before),
        }
    }
}

/// The gap in front of the `slot`-th sibling; behind the last one where `slot`
/// is their number.
pub open spec fn gap_at(siblings: Seq<Document>, slot: int) -> GapView {
    GapView {
        after: if slot > 0 {
            Some(siblings[slot - 1].sort_key@)
        } else {
            None
        },
        before: if slot < siblings.len() {
            Some(siblings[slot].sort_key@)
        } else {
            None
        },
    }
}

/// The first place at which a document stands among the siblings, or their
/// number where it does not.
pub open spec fn index_of(siblings: Seq<Document>, id: Uuid) -> int
    decreases siblings.len(),
{
    if siblings.len() == 0 {
        0
    } else if siblings[0].id == id {
        0
    } else {
        1 + index_of(siblings.skip(1), id)
    }
}

/// The slot behind a sibling; the last one where it is not there.
pub open spec fn slot_after(siblings: Seq<Document>, id: Uuid) -> int {
    let i = index_of(siblings, id);
    if i < siblings.len() {
        i + 1
    } else {
        siblings.len() as int
    }
}

/// The slot of a new document: behind `after_id`, or in front of all.
pub open spec fn create_slot(siblings: Seq<Document>, after_id: Option<Uuid>) -> int {
    match after_id {
        None => 0,
        Some(a) => slot_after(siblings, a),
    }
}

/// The slot of a document that is moved: behind `after_id` where one is named,
/// else in front of `before_id` where one is named, else last.
pub open spec fn move_slot(
    siblings: Seq<Document>,
    after_id: Option<Uuid>,
    before_id: Option<Uuid>,
) -> int {
    match (after_id, before_id) {
        (Some(a), _) => slot_after(siblings, a),
        (None, Some(b)) => index_of(siblings, b),
        (None, None) => siblings.len() as int,
    }
}

/// The siblings without the document that is moved.
pub open spec fn others(siblings: Seq<Document>, doc_id: Uuid) -> Seq<Document> {
    siblings.filter(|d: Document| d.id != doc_id)
}

fn find(siblings: &Vec<Document>, id: Uuid) -> (r: usize)
    ensures
        r == index_of(siblings@, id),
        r <= siblings@.len(),
{
    let mut i: usize = 0;
    assert(siblings@.skip(0) =~= siblings@);
    while i < siblings.len()
        invariant
            i <= siblings@.len(),
            index_of(siblings@, id) == i + index_of(siblings@.skip(i as int), id),
        decreases siblings@.len() - i,
    {
        assert(siblings@.skip(i as int).skip(1) =~= siblings@.skip(i + 1));
        assert(siblings@.skip(i as int)[0] == siblings@[i as int]);
        if siblings[i].id == id {
            return i;
        }
        i += 1;
    }
    i
}

fn gap(siblings: &Vec<Document>, slot: usize) -> (r: Gap)
    requires
        slot <= siblings@.len(),
    ensures
        r@ == gap_at(siblings@, slot as int),
{
    Gap {
        after: if slot > 0 {
            Some(siblings[slot - 1].sort_key.clone())
        } else {
            None
        },
        before: if slot < siblings.len() {
            Some(siblings[slot].sort_key.clone())
        } else {
            None
        },
    }
}

/// The gap for a new document.
pub fn create_gap(siblings: &Vec<Document>, after_id: Option<Uuid>) -> (r: Gap)
    ensures
        r@ == gap_at(siblings@, create_slot(siblings@, after_id)),
        0 <= create_slot(siblings@, after_id) <= siblings@.len(),
{
    match after_id {
        None => gap(siblings, 0),
        Some(a) => {
            let i: usize = find(siblings, a);
            if i < siblings.len() {
                gap(siblings, i + 1)
            } else {
                gap(siblings, siblings.len())
            }
        },
    }
}

/// The gap behind all siblings.
pub fn last_gap(siblings: &Vec<Document>) -> (r: Gap)
    ensures
        r@ == gap_at(siblings@, siblings@.len() as int),
{
    gap(siblings, siblings.len())
}

fn without(siblings: Vec<Document>, doc_id: Uuid) -> (r: Vec<Document>)
    ensures
        r@ == others(siblings@, doc_id),
{
    let ghost p = |d: Document| d.id != doc_id;
    let mut out: Vec<Document> = Vec::new();
    let mut i: usize = 0;
    proof {
        reveal(Seq::filter);
        assert(siblings@.take(0) =~= Seq::<Document>::empty());
    }
    while i < siblings.len()
        invariant
            i <= siblings@.len(),
            p == (|d: Document| d.id != doc_id),
            out@ == siblings@.take(i as int).filter(p),
        decreases siblings@.len() - i,
    {
        proof {
            crate::seqs::lemma_filter_step(siblings@, i as int, p);
        }
        if siblings[i].id != doc_id {
            out.push(siblings[i].clone());
        }
        i += 1;
    }
    assert(siblings@.take(i as int) =~= siblings@);
    out
}

/// The gap for a document that is moved among `siblings`, of which it may be one
/// itself.
pub fn move_gap(
    siblings: Vec<Document>,
    doc_id: Uuid,
    after_id: Option<Uuid>,
    before_id: Option<Uuid>,
) -> (r: Gap)
    ensures
        r@ == gap_at(
            others(siblings@, doc_id),
            move_slot(others(siblings@, doc_id), after_id, before_id),
        ),
        0 <= move_slot(others(siblings@, doc_id), after_id, before_id) <= others(
            siblings@,
            doc_id,
        ).len(),
{
    let rest = without(siblings, doc_id);
    match (after_id, before_id) {
        (Some(a), _) => {
            let i: usize = find(&rest, a);
            if i < rest.len() {
                gap(&rest, i + 1)
            } else {
                gap(&rest, rest.len())
            }
        },
        (None, Some(b)) => {
            let i: usize = find(&rest, b);
            gap(&rest, i)
        },
        (None, None) => gap(&rest, rest.len()),
    }
}

/// A gap lies between neighbours: where the siblings are in the order of their
/// sort keys, every key in front of the slot is at most its lower end and its
/// upper end is at most every key behind.
pub proof fn law_gaps_separate_the_siblings(siblings: Seq<Document>, slot: int, i: int)
    requires
        crate::order::in_order::<Document, crate::docs::BySortKey>(
            &crate::docs::BySortKey,
            crate::docs::docs_view(siblings),
        ),
        0 <= slot <= siblings.len(),
        0 <= i < siblings.len(),
    ensures
        i < slot ==> gap_at(siblings, slot).after is Some && crate::order::text_at_most(
            siblings[i].sort_key@,
            gap_at(siblings, slot).after->0,
        ),
        i >= slot ==> gap_at(siblings, slot).before is Some && crate::order::text_at_most(
            gap_at(siblings, slot).before->0,
            siblings[i].sort_key@,
        ),
{
    let order = crate::docs::BySortKey;
    crate::order::lemma_text_total(siblings[i].sort_key@, siblings[i].sort_key@);
    let v = crate::docs::docs_view(siblings);
    if i < slot - 1 {
        assert(crate::order::Order::<Document>::at_most(&order, v[i], v[slot - 1]));
    } else if i > slot {
        assert(crate::order::Order::<Document>::at_most(&order, v[slot], v[i]));
    }
}

/// Where a document stands is the first place with its identifier; where there is
/// none it is counted as behind all.
pub proof fn law_index_is_the_first_place(siblings: Seq<Document>, id: Uuid)
    ensures
        0 <= index_of(siblings, id) <= siblings.len(),
        index_of(siblings, id) < siblings.len() ==> siblings[index_of(siblings, id)].id == id,
        forall|k: int| 0 <= k < index_of(siblings, id) ==> (#[trigger] siblings[k]).id != id,
    decreases siblings.len(),
{
    if siblings.len() > 0 && siblings[0].id != id {
        let rest = siblings.skip(1);
        law_index_is_the_first_place(rest, id);
        assert forall|k: int| 0 <= k < index_of(siblings, id) implies (#[trigger] siblings[k]).id
            != id by {
            if k > 0 {
                assert(rest[k - 1] == siblings[k]);
            }
        }
    }
}

/// A new document goes in front of all siblings where it is to be behind none; right
/// behind the one that is named, and in front of the one that follows it; and behind
/// all where the one that is named is not among them.
pub proof fn law_where_a_new_document_goes(
    siblings: Seq<Document>,
    after_id: Option<Uuid>,
    i: int,
)
    ensures
        ({
            let gap = gap_at(siblings, create_slot(siblings, after_id));
            &&& after_id is None ==> gap.after is None
            &&& after_id is None && siblings.len() > 0 ==> gap.before == Some(siblings[0].sort_key@)
            &&& siblings.len() == 0 ==> gap.after is None && gap.before is None
            &&& 0 <= i < siblings.len() && after_id == Some(siblings[i].id) && (forall|k: int|
                0 <= k < i ==> (#[trigger] siblings[k]).id != siblings[i].id) ==> gap.after == Some(
                siblings[i].sort_key@,
            ) && (i + 1 < siblings.len() ==> gap.before == Some(siblings[i + 1].sort_key@)) && (i
                + 1 == siblings.len() ==> gap.before is None)
            &&& after_id is Some && siblings.len() > 0 && (forall|k: int|
                0 <= k < siblings.len() ==> (#[trigger] siblings[k]).id != after_id->0)
                ==> gap.after == Some(siblings.last().sort_key@) && gap.before is None
        }),
{
    if let Some(a) = after_id {
        law_index_is_the_first_place(siblings, a);
        if 0 <= i < siblings.len() && after_id == Some(siblings[i].id) && (forall|k: int|
            0 <= k < i ==> (#[trigger] siblings[k]).id != siblings[i].id) {
            let at = index_of(siblings, a);
            if at > i {
                assert(siblings[i].id != a);
            }
            if at < i {
                assert(siblings[at].id != siblings[i].id);
            }
        }
    }
}

/// Where a document that is moved goes, among the siblings without itself: right
/// behind the one that is named, whatever else is; else right in front of the one
/// that is named; and behind all where none is named or the named one is not there.
pub proof fn law_where_a_moved_document_goes(
    siblings: Seq<Document>,
    doc_id: Uuid,
    after_id: Option<Uuid>,
    before_id: Option<Uuid>,
    i: int,
)
    ensures
        ({
            let rest = others(siblings, doc_id);
            let gap = gap_at(rest, move_slot(rest, after_id, before_id));
            let first = 0 <= i < rest.len() && forall|k: int|
                0 <= k < i ==> (#[trigger] rest[k]).id != rest[i].id;
            let named = if after_id is Some {
                after_id
            } else {
                before_id
            };
            &&& forall|d: Document| #[trigger]
                rest.contains(d) <==> siblings.contains(d) && d.id != doc_id
            &&& rest.len() == 0 ==> gap.after is None && gap.before is None
            &&& first && after_id == Some(rest[i].id) ==> gap.after == Some(rest[i].sort_key@) && (i
                + 1 < rest.len() ==> gap.before == Some(rest[i + 1].sort_key@)) && (i + 1
                == rest.len() ==> gap.before is None)
            &&& first && after_id is None && before_id == Some(rest[i].id) ==> gap.before == Some(
                rest[i].sort_key@,
            ) && (i > 0 ==> gap.after == Some(rest[i - 1].sort_key@)) && (i == 0
                ==> gap.after is None)
            &&& rest.len() > 0 && (named is Some ==> forall|k: int|
                0 <= k < rest.len() ==> (#[trigger] rest[k]).id != named->0) ==> gap.after == Some(
                rest.last().sort_key@,
            ) && gap.before is None
        }),
{
    let rest = others(siblings, doc_id);
    assert forall|d: Document| #[trigger] rest.contains(d) <==> siblings.contains(d) && d.id
        != doc_id by {
        crate::seqs::lemma_filter_contains(siblings, |d: Document| d.id != doc_id, d);
    }
    let first = 0 <= i < rest.len() && forall|k: int|
        0 <= k < i ==> (#[trigger] rest[k]).id != rest[i].id;
    if let Some(a) = after_id {
        law_index_is_the_first_place(rest, a);
        if first && a == rest[i].id {
            let at = index_of(rest, a);
            if at > i {
                assert(rest[i].id != a);
            }
            if at < i {
                assert(rest[at].id != rest[i].id);
            }
        }
    } else if let Some(b) = before_id {
        law_index_is_the_first_place(rest, b);
        if first && b == rest[i].id {
            let at = index_of(rest, b);
            if at > i {
                assert(rest[i].id != b);
            }
            if at < i {
                assert(rest[at].id != rest[i].id);
            }
        }
    }
}

} // verus!
