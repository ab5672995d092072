//! The worker that turns reports of changed documents into batched refreshes of
//! the task index.
//!
//! A document that is being edited is reported many times a second. The worker
//! gathers the reports and refreshes each document once per tick.

use crate::ids::Uuid;
use crate::markdown::{refresh_markdown_and_index, Refresh};
use crate::seqs::has_u128;
use vstd::prelude::*;

verus! {

/// Seconds between two ticks.
pub const FLUSH_INTERVAL_SECS: u64 = 2;

/// The documents that changed since the last tick.
#[derive(Debug)]
pub struct Pending {
    ids: Vec<Uuid>,
}

impl View for Pending {
    type V = Set<Uuid>;

    closed spec fn view(&self) -> Set<Uuid> {
        self.ids@.to_set()
    }
}

/// The refresh of a document that was reported. A report does not say who edited,
/// so nobody is named as having assigned a task.
pub fn refresh_reported(
    doc_id: Uuid,
    rooms_ready: bool,
    cache_ready: bool,
    stores_ready: bool,
) -> (r: Refresh)
    ensures
        r == crate::markdown::indexing_refresh(
            doc_id,
            None,
            rooms_ready,
            cache_ready,
            stores_ready,
        ),
{
    refresh_markdown_and_index(doc_id, None, rooms_ready, cache_ready, stores_ready)
}

/// What the worker is told.
#[derive(Clone, Copy, Debug, PartialEq, Eq, Structural)]
pub enum WorkerEvent {
    /// A document changed.
    Dirty(Uuid),
    /// It is time to refresh.
    Tick,
    /// Nothing will be reported any more.
    Closed,
}

/// What the worker does next.
#[derive(Debug)]
pub enum WorkerAction {
    /// Wait for the next event.
    Wait,
    /// Refresh these documents.
    Flush(Vec<Uuid>),
    /// Stop.
    Stop,
}

/// The documents pending after an event.
pub open spec fn pending_after(pending: Set<Uuid>, event: WorkerEvent) -> Set<Uuid> {
    match event {
        WorkerEvent::Dirty(id) => pending.insert(id),
        WorkerEvent::Tick => Set::empty(),
        WorkerEvent::Closed => pending,
    }
}

/// The documents that are refreshed at an event.
pub open spec fn refreshed_by(pending: Set<Uuid>, event: WorkerEvent) -> Set<Uuid> {
    match event {
        WorkerEvent::Tick => pending,
        _ => Set::empty(),
    }
}

impl Pending {
    /// Whether no document is held twice.
    pub closed spec fn wf(&self) -> bool {
        self.ids@.no_duplicates()
    }

    /// No changes yet.
    pub fn new() -> (r: Pending)
        ensures
            r.wf(),
            r@ == Set::<Uuid>::empty(),
    {
        let r = Pending { ids: Vec::new() };
        assert(r@ =~= Set::<Uuid>::empty());
        r
    }

    fn mark(&mut self, id: Uuid)
        requires
            old(self).wf(),
        ensures
            final(self).wf(),
            final(self)@ == old(self)@.insert(id),
    {
        if has_u128(&self.ids, id) {
            assert(self@.insert(id) =~= self@);
            return;
        }
        let ghost before = self.ids@;
        self.ids.push(id);
        proof {
            assert forall|x: Uuid| #[trigger] self.ids@.to_set().contains(x) <==> before.to_set().insert(
                id,
            ).contains(x) by {
                if before.contains(x) {
                    let i = choose|i: int| 0 <= i < before.len() && before[i] == x;
                    assert(self.ids@[i] == x);
                }
                if x == id {
                    assert(self.ids@[before.len() as int] == x);
                }
                if self.ids@.contains(x) {
                    let i = choose|i: int| 0 <= i < self.ids@.len() && self.ids@[i] == x;
                    if i < before.len() {
                        assert(before[i] == x);
                    }
                }
            }
            assert(self@ =~= before.to_set().insert(id));
            assert forall|i: int, j: int|
                0 <= i < self.ids@.len() && 0 <= j < self.ids@.len() && i != j implies self.ids@[i]
                != self.ids@[j] by {
                if i < before.len() && j < before.len() {
                    assert(before[i] != before[j]);
                } else if i < before.len() {
                    assert(before.contains(before[i]));
                } else {
                    assert(before.contains(before[j]));
                }
            }
        }
    }

    /// Takes an event and says what to do. A tick with changed documents
    /// refreshes each of them once and forgets them.
    pub fn step(&mut self, event: WorkerEvent) -> (r: WorkerAction)
        requires
            old(self).wf(),
        ensures
            final(self).wf(),
            match event {
                WorkerEvent::Dirty(id) => r is Wait && final(self)@ == old(self)@.insert(id),
                WorkerEvent::Closed => r is Stop && final(self)@ == old(self)@,
                WorkerEvent::Tick => if old(self)@ == Set::<Uuid>::empty() {
                    r is Wait && final(self)@ == old(self)@
                } else {
                    r is Flush && r->Flush_0@.no_duplicates() && r->Flush_0@.to_set() == old(self)@
                        && final(self)@ == Set::<Uuid>::empty()
                },
            },
            final(self)@ == pending_after(old(self)@, event),
            r is Flush ==> r->Flush_0@.to_set() == refreshed_by(old(self)@, event),
            !(r is Flush) ==> refreshed_by(old(self)@, event) == Set::<Uuid>::empty(),
    {
        match event {
            WorkerEvent::Dirty(id) => {
                self.mark(id);
                WorkerAction::Wait
            },
            WorkerEvent::Closed => WorkerAction::Stop,
            WorkerEvent::Tick => {
                if self.ids.len() == 0 {
                    assert(self@ =~= Set::<Uuid>::empty());
                    return WorkerAction::Wait;
                }
                proof {
                    assert(self.ids@.contains(self.ids@[0]));
                    assert(self@.contains(self.ids@[0]));
                }
                let mut taken: Vec<Uuid> = Vec::new();
                std::mem::swap(&mut taken, &mut self.ids);
                assert(self@ =~= Set::<Uuid>::empty());
                WorkerAction::Flush(taken)
            },
        }
    }
}

/// The documents pending after several reports.
pub open spec fn after_reports(pending: Set<Uuid>, reports: Seq<Uuid>) -> Set<Uuid>
    decreases reports.len(),
{
    if reports.len() == 0 {
        pending
    } else {
        after_reports(pending, reports.drop_last()).insert(reports.last())
    }
}

/// However often and in whatever order documents are reported, those pending are
/// exactly those that were.
pub proof fn law_reports_gather(pending: Set<Uuid>, reports: Seq<Uuid>)
    ensures
        after_reports(pending, reports) == pending.union(reports.to_set()),
    decreases reports.len(),
{
    if reports.len() > 0 {
        let rest = reports.drop_last();
        law_reports_gather(pending, rest);
        assert forall|x: Uuid| #[trigger] reports.to_set().contains(x) <==> rest.to_set().contains(x)
            || x == reports.last() by {
            if rest.contains(x) {
                let i = choose|i: int| 0 <= i < rest.len() && rest[i] == x;
                assert(reports[i] == x);
            }
            if reports.contains(x) {
                let i = choose|i: int| 0 <= i < reports.len() && reports[i] == x;
                if i < rest.len() {
                    assert(rest[i] == x);
                }
            }
            if x == reports.last() {
                assert(reports[reports.len() - 1] == x);
            }
        }
        assert(after_reports(pending, reports) =~= pending.union(reports.to_set()));
    } else {
        assert(pending.union(reports.to_set()) =~= pending);
    }
}

/// Nothing that is reported is lost and nothing else is refreshed: whatever was pending
/// or is reported is pending afterwards or was refreshed, never both, and nothing else
/// is. A report alone makes something pending, a tick alone refreshes, and after a tick
/// nothing is pending.
pub proof fn law_nothing_reported_is_lost(pending: Set<Uuid>, event: WorkerEvent, id: Uuid)
    ensures
        pending_after(pending, event).contains(id) || refreshed_by(pending, event).contains(id)
            <==> pending.contains(id) || event == WorkerEvent::Dirty(id),
        !(pending_after(pending, event).contains(id) && refreshed_by(pending, event).contains(id)),
        event is Tick ==> (refreshed_by(pending, event).contains(id) <==> pending.contains(id)),
        event is Tick ==> !pending_after(pending, event).contains(id),
        !(event is Tick) ==> !refreshed_by(pending, event).contains(id),
{
}

} // verus!
