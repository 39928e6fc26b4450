//! Undo/redo history shared by the grab-pose and animation editors.
//!
//! Each entry holds the editor state before and after one edit. A continuous
//! drag on one field is identified by an [`EditKey`]; while the same drag goes
//! on, its frames fold into the top entry (only `after` moves) instead of
//! flooding the stack and evicting older edits.
use vstd::prelude::*;

verus! {

/// Most entries kept on the undo stack.
pub const UNDO_CAP: usize = 100;

/// Identifies one continuous drag on one field: two indices (e.g. animation
/// and keyframe, or grip point and an unused zero) and a field code.
#[derive(Clone, Copy, PartialEq, Eq, Debug, Structural)]
pub struct EditKey(pub usize, pub usize, pub u8);

/// One undoable edit.
pub struct Edit<S> {
    pub before: S,
    pub after: S,
    /// The drag this entry belongs to, if any.
    pub coalesce: Option<EditKey>,
}

/// Abstract history: the two stacks (last element on top) and the drag
/// currently folding into the top undo entry.
pub struct HistoryView<S> {
    pub undo: Seq<Edit<S>>,
    pub redo: Seq<Edit<S>>,
    pub active: Option<EditKey>,
}

pub struct EditHistory<S> {
    undo: Vec<Edit<S>>,
    redo: Vec<Edit<S>>,
    active: Option<EditKey>,
}

impl<S> View for EditHistory<S> {
    type V = HistoryView<S>;

    closed spec fn view(&self) -> HistoryView<S> {
        HistoryView { undo: self.undo@, redo: self.redo@, active: self.active }
    }
}

/// Whether a changed edit under `token` folds into the top undo entry: the
/// drag is the active one, nothing was undone since, and the top entry
/// belongs to the same drag.
pub open spec fn merges<S>(h: HistoryView<S>, token: Option<EditKey>) -> bool {
    &&& token is Some
    &&& h.active == token
    &&& h.redo.len() == 0
    &&& h.undo.len() > 0
    &&& h.undo.last().coalesce == token
}

/// The history after an edit from `before` to `after` made under `token`;
/// `changed` tells whether the two states differ (an edit that changes
/// nothing leaves the history alone).
pub open spec fn record<S>(
    h: HistoryView<S>,
    before: S,
    after: S,
    token: Option<EditKey>,
    changed: bool,
) -> HistoryView<S> {
    if !changed {
        h
    } else if merges(h, token) {
        let top = h.undo.last();
        HistoryView {
            undo: h.undo.update(
                h.undo.len() - 1,
                Edit { before: top.before, after, coalesce: top.coalesce },
            ),
            active: token,
            ..h
        }
    } else {
        let u = h.undo.push(Edit { before, after, coalesce: token });
        HistoryView {
            undo: if u.len() > UNDO_CAP {
                u.drop_first()
            } else {
                u
            },
            redo: Seq::empty(),
            active: token,
        }
    }
}

/// Undo moves the top undo entry onto the redo stack and ends any drag.
pub open spec fn undo<S>(h: HistoryView<S>) -> HistoryView<S> {
    if h.undo.len() == 0 {
        HistoryView { active: None, ..h }
    } else {
        HistoryView {
            undo: h.undo.drop_last(),
            redo: h.redo.push(h.undo.last()),
            active: None,
        }
    }
}

/// Redo moves the top redo entry back onto the undo stack and ends any drag.
pub open spec fn redo<S>(h: HistoryView<S>) -> HistoryView<S> {
    if h.redo.len() == 0 {
        HistoryView { active: None, ..h }
    } else {
        HistoryView {
            redo: h.redo.drop_last(),
            undo: h.undo.push(h.redo.last()),
            active: None,
        }
    }
}

/// The stacks together never hold more than the cap.
pub open spec fn bounded<S>(h: HistoryView<S>) -> bool {
    h.undo.len() + h.redo.len() <= UNDO_CAP
}

impl<S> EditHistory<S> {
    pub fn new() -> (h: Self)
        ensures
            h@.undo == Seq::<Edit<S>>::empty(),
            h@.redo == Seq::<Edit<S>>::empty(),
            h@.active == None::<EditKey>,
    {
        EditHistory { undo: Vec::new(), redo: Vec::new(), active: None }
    }

    pub fn can_undo(&self) -> (b: bool)
        ensures
            b == (self@.undo.len() > 0),
    {
        self.undo.len() > 0
    }

    pub fn can_redo(&self) -> (b: bool)
        ensures
            b == (self@.redo.len() > 0),
    {
        self.redo.len() > 0
    }

    /// Ends any in-progress drag, so the next edit starts a fresh entry.
    pub fn end_coalesce(&mut self)
        ensures
            final(self)@ == (HistoryView { active: None, ..old(self)@ }),
    {
        self.active = None;
    }

    /// The drag currently folding into the top entry.
    pub fn active(&self) -> (k: Option<EditKey>)
        ensures
            k == self@.active,
    {
        self.active
    }

    /// Records an edit from `before` to `after` made under `token` (see
    /// [`record`]); `changed` is whether the two states differ.
    pub fn record(&mut self, before: S, after: S, token: Option<EditKey>, changed: bool)
        ensures
            final(self)@ == record(old(self)@, before, after, token, changed),
    {
        if !changed {
            return;
        }
        let same_drag = match (token, self.active) {
            (Some(t), Some(a)) => t == a,
            _ => false,
        };
        let top_matches = if self.undo.len() > 0 {
            match (self.undo[self.undo.len() - 1].coalesce, token) {
                (Some(c), Some(t)) => c == t,
                _ => false,
            }
        } else {
            false
        };
        let merge = same_drag && self.redo.len() == 0 && top_matches;
        if merge {
            let ghost h = self@;
            let top = self.undo.pop().unwrap();
            self.undo.push(Edit { before: top.before, after, coalesce: top.coalesce });
            proof {
                assert(self.undo@ =~= h.undo.update(
                    h.undo.len() - 1,
                    Edit { before: h.undo.last().before, after, coalesce: h.undo.last().coalesce },
                ));
            }
        } else {
            self.undo.push(Edit { before, after, coalesce: token });
            if self.undo.len() > UNDO_CAP {
                self.undo.remove(0);
            }
            self.redo = Vec::new();
        }
        self.active = token;
    }

    /// Moves the top undo entry to the redo stack; the caller restores that
    /// entry's `before` state (see [`EditHistory::redo_top`]). Returns whether
    /// there was an entry.
    pub fn undo(&mut self) -> (moved: bool)
        ensures
            final(self)@ == undo(old(self)@),
            moved == (old(self)@.undo.len() > 0),
    {
        self.active = None;
        match self.undo.pop() {
            Some(e) => {
                self.redo.push(e);
                true
            },
            None => false,
        }
    }

    /// Moves the top redo entry back to the undo stack; the caller restores
    /// that entry's `after` state (see [`EditHistory::undo_top`]). Returns
    /// whether there was an entry.
    pub fn redo(&mut self) -> (moved: bool)
        ensures
            final(self)@ == redo(old(self)@),
            moved == (old(self)@.redo.len() > 0),
    {
        self.active = None;
        match self.redo.pop() {
            Some(e) => {
                self.undo.push(e);
                true
            },
            None => false,
        }
    }

    /// The top undo entry.
    pub fn undo_top(&self) -> (e: Option<&Edit<S>>)
        ensures
            self@.undo.len() == 0 ==> e is None,
            self@.undo.len() > 0 ==> e == Some(&self@.undo.last()),
    {
        if self.undo.len() > 0 {
            Some(&self.undo[self.undo.len() - 1])
        } else {
            None
        }
    }

    /// The top redo entry.
    pub fn redo_top(&self) -> (e: Option<&Edit<S>>)
        ensures
            self@.redo.len() == 0 ==> e is None,
            self@.redo.len() > 0 ==> e == Some(&self@.redo.last()),
    {
        if self.redo.len() > 0 {
            Some(&self.redo[self.redo.len() - 1])
        } else {
            None
        }
    }
}

/// Law: undoing and then redoing gives back the same stacks (only the active
/// drag is ended).
pub proof fn lemma_undo_then_redo<S>(h: HistoryView<S>)
    requires
        h.undo.len() > 0,
    ensures
        redo(undo(h)) == (HistoryView { active: None, ..h }),
{
    assert(undo(h).redo.drop_last() =~= h.redo);
    assert(undo(h).undo.push(h.undo.last()) =~= h.undo);
}

/// Law: redoing and then undoing gives back the same stacks.
pub proof fn lemma_redo_then_undo<S>(h: HistoryView<S>)
    requires
        h.redo.len() > 0,
    ensures
        undo(redo(h)) == (HistoryView { active: None, ..h }),
{
    assert(redo(h).undo.drop_last() =~= h.undo);
    assert(redo(h).redo.push(h.redo.last()) =~= h.redo);
}

/// Law: every operation keeps the two stacks together within the cap.
pub proof fn lemma_bounded_preserved<S>(
    h: HistoryView<S>,
    before: S,
    after: S,
    token: Option<EditKey>,
    changed: bool,
)
    requires
        bounded(h),
    ensures
        bounded(record(h, before, after, token, changed)),
        bounded(undo(h)),
        bounded(redo(h)),
{
}

/// Law: a drag folds into one entry. Two changed edits under the same drag
/// token, the second while that drag is still active, leave a single new top
/// entry that goes from the first edit's `before` to the second's `after`.
pub proof fn lemma_drag_coalesces<S>(
    h: HistoryView<S>,
    b1: S,
    a1: S,
    b2: S,
    a2: S,
    token: Option<EditKey>,
)
    requires
        token is Some,
        !merges(h, token),
    ensures
        ({
            let h1 = record(h, b1, a1, token, true);
            let h2 = record(h1, b2, a2, token, true);
            &&& h2.undo.len() == h1.undo.len()
            &&& h2.undo.last() == (Edit { before: b1, after: a2, coalesce: token })
            &&& h2.undo.drop_last() == h1.undo.drop_last()
            &&& h2.redo.len() == 0
        }),
{
    let h1 = record(h, b1, a1, token, true);
    assert(merges(h1, token));
    let h2 = record(h1, b2, a2, token, true);
    assert(h2.undo.drop_last() =~= h1.undo.drop_last());
}

/// Law: an edit recorded from `before` is what a following undo hands back.
pub proof fn lemma_undo_after_record<S>(
    h: HistoryView<S>,
    before: S,
    after: S,
    token: Option<EditKey>,
)
    requires
        !merges(h, token),
    ensures
        ({
            let h1 = undo(record(h, before, after, token, true));
            &&& h1.redo.last() == (Edit { before, after, coalesce: token })
            &&& h1.redo.len() == 1
        }),
{
}

} // verus!
