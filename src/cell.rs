//! The completion cell shared by a waiting computation and the background
//! source that finishes it.
use vstd::prelude::*;

verus! {

/// What one drive of a computation reports.
#[derive(Clone, Copy, Debug, PartialEq, Eq, Structural)]
pub enum Progress {
    Done,
    NotReadyYet,
}

/// Abstract state of a completion cell: the completion flag and the
/// resumption handle parked by the last drive that found it incomplete.
pub ghost struct CellView<W> {
    pub completed: bool,
    pub waker: Option<W>,
}

/// A fresh cell: not completed, nothing parked.
pub open spec fn initial_cell<W>() -> CellView<W> {
    CellView { completed: false, waker: None }
}

/// One drive against the cell with resumption handle `w`: done once the
/// cell is completed (the cell is left as it is), otherwise `w` replaces
/// whatever handle was parked.
pub open spec fn polled<W>(c: CellView<W>, w: W) -> (CellView<W>, Progress) {
    if c.completed {
        (c, Progress::Done)
    } else {
        (CellView { completed: false, waker: Some(w) }, Progress::NotReadyYet)
    }
}

/// The background source finishing: the cell becomes completed and the
/// parked handle, if any, is handed out and cleared.
pub open spec fn fired<W>(c: CellView<W>) -> (CellView<W>, Option<W>) {
    (CellView { completed: true, waker: None }, c.waker)
}

/// A cell whose source finishes before any drive has no handle to hand
/// out, and its first drive afterwards is `Done`: it never suspends.
pub proof fn lemma_fire_before_drive<W>(w: W)
    ensures
        fired(initial_cell::<W>()).1 is None,
        polled(fired(initial_cell::<W>()).0, w).1 == Progress::Done,
{
}

/// A cell driven once before its source finishes reports `NotReadyYet`;
/// the source then hands out exactly the handle of that drive, the next
/// drive is `Done`, and any further drive is `Done` again and leaves the
/// cell as it is.
pub proof fn lemma_drive_then_fire<W>(w1: W, w2: W, w3: W)
    ensures
        polled(initial_cell::<W>(), w1).1 == Progress::NotReadyYet,
        fired(polled(initial_cell::<W>(), w1).0).1 == Some(w1),
        polled(fired(polled(initial_cell::<W>(), w1).0).0, w2) == (
        fired(polled(initial_cell::<W>(), w1).0).0,
        Progress::Done,
        ),
        polled(polled(fired(polled(initial_cell::<W>(), w1).0).0, w2).0, w3) == (
        fired(polled(initial_cell::<W>(), w1).0).0,
        Progress::Done,
        ),
{
}

/// Completion never reverts, a drive of a completed cell is `Done` and
/// changes nothing, and a handle is handed out by the source at most once.
pub proof fn lemma_completion_is_final<W>(c: CellView<W>, w: W)
    ensures
        c.completed ==> polled(c, w) == (c, Progress::Done),
        fired(c).0.completed,
        fired(fired(c).0).1 is None,
        polled(c, w).0.completed == c.completed,
{
}

/// Completion flag and parked resumption handle, mutated only through
/// `poll` and `fire`, so that completion never reverts.
pub struct SharedState<W> {
    completed: bool,
    waker: Option<W>,
}

impl<W> View for SharedState<W> {
    type V = CellView<W>;

    closed spec fn view(&self) -> CellView<W> {
        CellView { completed: self.completed, waker: self.waker }
    }
}

impl<W> SharedState<W> {
    pub fn new() -> (s: Self)
        ensures
            s@ == initial_cell::<W>(),
    {
        SharedState { completed: false, waker: None }
    }

    pub fn is_completed(&self) -> (r: bool)
        ensures
            r == self@.completed,
    {
        self.completed
    }

    /// Drives against the cell: `Done` if completed, otherwise parks `waker`.
    pub fn poll(&mut self, waker: W) -> (r: Progress)
        ensures
            (final(self)@, r) == polled(old(self)@, waker),
    {
        if self.completed {
            Progress::Done
        } else {
            self.waker = Some(waker);
            Progress::NotReadyYet
        }
    }

    /// Marks the cell completed and takes out the parked handle, which the
    /// caller is to invoke.
    pub fn fire(&mut self) -> (r: Option<W>)
        ensures
            (final(self)@, r) == fired(old(self)@),
    {
        self.completed = true;
        self.waker.take()
    }
}

} // verus!
