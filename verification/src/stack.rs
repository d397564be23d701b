//! The history engine itself.

use vstd::prelude::*;
use crate::model::{
    drain_group, future_after_push, past_after_push, reported_entry, traverse, Slot,
};
use crate::undoable::Undoable;

verus! {

/// The two-stack undo/redo engine: a past stack of applied changes, a future
/// stack of undone ones, a single-slot transient buffer, and a flag tracking
/// whether a group is currently open on the past stack.
pub struct UndoStack<T: Undoable> {
    past_stack: Vec<Slot<T>>,
    future_stack: Vec<Slot<T>>,
    undo_buffer: Option<T>,
    open_group: bool,
    /// Whether diagnostic messages are wanted.  Advisory only: it never
    /// affects returned values or stack contents.
    pub verbose: bool,
}

impl<T: Undoable> UndoStack<T> {
    /// The past stack: things that happened, most recent last.
    pub closed spec fn past(self) -> Seq<Slot<T>> {
        self.past_stack@
    }

    /// The future stack: things that were undone, most recently undone last.
    pub closed spec fn future(self) -> Seq<Slot<T>> {
        self.future_stack@
    }

    /// The transient buffer slot.
    pub closed spec fn buffered(self) -> Option<T> {
        self.undo_buffer
    }

    /// Whether a group start marker is on the past stack without a matching
    /// end marker yet.
    pub closed spec fn group_open(self) -> bool {
        self.open_group
    }

    /// The diagnostic verbosity this engine was configured with.
    pub closed spec fn verbosity(self) -> bool {
        self.verbose
    }

    /// Creates a new, empty engine.
    pub fn new(verbose: bool) -> (s: Self)
        ensures
            s.past() == Seq::<Slot<T>>::empty(),
            s.future() == Seq::<Slot<T>>::empty(),
            s.buffered() == None::<T>,
            !s.group_open(),
            s.verbosity() == verbose,
    {
        UndoStack {
            past_stack: Vec::new(),
            future_stack: Vec::new(),
            undo_buffer: None,
            open_group: false,
            verbose,
        }
    }

    /// Pushes a discrete entry onto the past stack and clears all redo
    /// state.  Does nothing when the entry equals the one on top of the past
    /// stack.
    pub fn push(&mut self, entry: T)
        ensures
            final(self).past() == past_after_push(old(self).past(), entry),
            final(self).future() == future_after_push(
                old(self).past(),
                old(self).future(),
                entry,
            ),
            final(self).buffered() == old(self).buffered(),
            final(self).group_open() == old(self).group_open(),
            final(self).verbosity() == old(self).verbosity(),
    {
        let n = self.past_stack.len();
        if n > 0 {
            match &self.past_stack[n - 1] {
                Slot::Single(top) => {
                    if top.eq_entry(&entry) {
                        return;
                    }
                },
                Slot::Marker => {},
            }
        }
        self.past_stack.push(Slot::Single(entry));
        self.future_stack.clear();
    }

    /// Opens a group: appends a marker to the past stack and raises the
    /// open-group flag.  Rejected without mutation while a group is already
    /// open; at most one group may be open at a time.
    pub fn start_group(&mut self)
        ensures
            final(self).past() == if old(self).group_open() {
                old(self).past()
            } else {
                old(self).past().push(Slot::Marker)
            },
            final(self).group_open(),
            final(self).future() == old(self).future(),
            final(self).buffered() == old(self).buffered(),
            final(self).verbosity() == old(self).verbosity(),
    {
        if !self.open_group {
            self.past_stack.push(Slot::Marker);
            self.open_group = true;
        }
    }

    /// Closes the open group: appends the closing marker to the past stack
    /// and lowers the open-group flag.  Rejected without mutation when no
    /// group is open.
    pub fn finish_group(&mut self)
        ensures
            final(self).past() == if old(self).group_open() {
                old(self).past().push(Slot::Marker)
            } else {
                old(self).past()
            },
            !final(self).group_open(),
            final(self).future() == old(self).future(),
            final(self).buffered() == old(self).buffered(),
            final(self).verbosity() == old(self).verbosity(),
    {
        if self.open_group {
            self.past_stack.push(Slot::Marker);
            self.open_group = false;
        }
    }

    /// Retroactively re-opens a previously closed group: when the top of the
    /// past stack is a marker and no group is currently open, the marker is
    /// popped and the open-group flag raised, so further entries can be
    /// appended before the group is closed again.  In every other case the
    /// call is rejected with the state unchanged: a popped non-marker slot
    /// is pushed back, a marker found while a group is already open is
    /// pushed back, and an empty past stack leaves everything as it was.
    pub fn reopen_group(&mut self)
        ensures
            ({
                let past = old(self).past();
                if past.len() > 0 && past.last() == Slot::<T>::Marker && !old(self).group_open() {
                    final(self).past() == past.drop_last() && final(self).group_open()
                } else {
                    final(self).past() == past && final(self).group_open() == old(self).group_open()
                }
            }),
            final(self).future() == old(self).future(),
            final(self).buffered() == old(self).buffered(),
            final(self).verbosity() == old(self).verbosity(),
    {
        match self.past_stack.pop() {
            Some(Slot::Marker) => {
                if self.open_group {
                    self.past_stack.push(Slot::Marker);
                    proof {
                        assert(self.past_stack@ =~= old(self).past_stack@);
                    }
                } else {
                    self.open_group = true;
                }
            },
            Some(Slot::Single(value)) => {
                self.past_stack.push(Slot::Single(value));
                proof {
                    assert(self.past_stack@ =~= old(self).past_stack@);
                }
            },
            None => {},
        }
    }

    /// The shared traversal behind `undo` and `redo`: moves the top slot of
    /// `from` onto `to`, restoring entries against the project as they
    /// cross, and drags a whole marker-delimited group across as one step.
    /// An unterminated group stops the walk without rolling back the work
    /// already done.  Reports a copy of the entry left on top of `to`, or
    /// nothing when no movement occurred or a marker ends up on top.
    fn traverse_stacks(
        from: &mut Vec<Slot<T>>,
        to: &mut Vec<Slot<T>>,
        project: &mut T::ProjectType,
    ) -> (r: Option<T>)
        ensures
            ({
                let t = traverse::<T>(old(from)@, old(to)@, *old(project));
                final(from)@ == t.0 && final(to)@ == t.1 && *final(project) == t.2
            }),
            r == reported_entry(old(from)@, final(to)@),
    {
        match from.pop() {
            Some(Slot::Single(v)) => {
                proof {
                    assert(from@ =~= old(from)@.drop_last());
                }
                let prev = v.restore(project);
                to.push(Slot::Single(prev));
            },
            Some(Slot::Marker) => {
                proof {
                    assert(from@ =~= old(from)@.drop_last());
                }
                to.push(Slot::Marker);
                let ghost from0 = from@;
                let ghost to0 = to@;
                let ghost p0 = *project;
                let mut running = true;
                while running
                    invariant
                        running ==> drain_group::<T>(from@, to@, *project) == drain_group::<T>(
                            from0,
                            to0,
                            p0,
                        ),
                        !running ==> from@ == drain_group::<T>(from0, to0, p0).0 && to@
                            == drain_group::<T>(from0, to0, p0).1 && *project == drain_group::<T>(
                            from0,
                            to0,
                            p0,
                        ).2,
                    decreases from@.len() + (if running {
                        1int
                    } else {
                        0int
                    }),
                {
                    let ghost from_pre = from@;
                    match from.pop() {
                        Some(Slot::Marker) => {
                            proof {
                                assert(from@ =~= from_pre.drop_last());
                            }
                            to.push(Slot::Marker);
                            running = false;
                        },
                        Some(Slot::Single(v)) => {
                            proof {
                                assert(from@ =~= from_pre.drop_last());
                            }
                            let prev = v.restore(project);
                            to.push(Slot::Single(prev));
                        },
                        None => {
                            running = false;
                        },
                    }
                }
            },
            None => {
                // nothing to move: an expected idle state, not a failure
                return None;
            },
        }
        let n = to.len();
        if n == 0 {
            None
        } else {
            match &to[n - 1] {
                Slot::Marker => None,
                Slot::Single(v) => Some(v.clone_entry()),
            }
        }
    }

    /// Undoes one step: moves the top slot of the past stack (or the whole
    /// top group) onto the future stack, restoring each crossing entry
    /// against the project.  With an empty past stack nothing happens and
    /// nothing is returned.  Otherwise returns a copy of the entry now on
    /// top of the future stack, or nothing when a marker sits there.
    pub fn undo(&mut self, project: &mut T::ProjectType) -> (r: Option<T>)
        ensures
            ({
                let t = traverse::<T>(old(self).past(), old(self).future(), *old(project));
                final(self).past() == t.0 && final(self).future() == t.1 && *final(project) == t.2
            }),
            r == reported_entry(old(self).past(), final(self).future()),
            final(self).buffered() == old(self).buffered(),
            final(self).group_open() == old(self).group_open(),
            final(self).verbosity() == old(self).verbosity(),
    {
        Self::traverse_stacks(&mut self.past_stack, &mut self.future_stack, project)
    }

    /// Redoes one step: the mirror image of `undo`, draining the future
    /// stack back onto the past stack.  With an empty future stack nothing
    /// happens and nothing is returned.
    pub fn redo(&mut self, project: &mut T::ProjectType) -> (r: Option<T>)
        ensures
            ({
                let t = traverse::<T>(old(self).future(), old(self).past(), *old(project));
                final(self).future() == t.0 && final(self).past() == t.1 && *final(project) == t.2
            }),
            r == reported_entry(old(self).future(), final(self).past()),
            final(self).buffered() == old(self).buffered(),
            final(self).group_open() == old(self).group_open(),
            final(self).verbosity() == old(self).verbosity(),
    {
        Self::traverse_stacks(&mut self.future_stack, &mut self.past_stack, project)
    }

    /// Empties both stacks and the transient buffer and forgets any open
    /// group.
    pub fn clear(&mut self)
        ensures
            final(self).past() == Seq::<Slot<T>>::empty(),
            final(self).future() == Seq::<Slot<T>>::empty(),
            final(self).buffered() == None::<T>,
            !final(self).group_open(),
            final(self).verbosity() == old(self).verbosity(),
    {
        self.undo_buffer = None;
        self.past_stack.clear();
        self.future_stack.clear();
        self.open_group = false;
    }

    /// True iff both the past and the future stack are empty; the buffer is
    /// not consulted.
    pub fn is_empty(&self) -> (r: bool)
        ensures
            r == (self.past().len() == 0 && self.future().len() == 0),
    {
        self.past_stack.len() == 0 && self.future_stack.len() == 0
    }

    /// True iff no transient buffer is active.
    pub fn buffer_is_empty(&self) -> (r: bool)
        ensures
            r == (self.buffered() is None),
    {
        self.undo_buffer.is_none()
    }

    /// Stages the "before" snapshot of a continuous interaction.  A buffer
    /// that is already active is committed first through the ordinary push
    /// path rather than silently discarded.
    pub fn start_buffer(&mut self, value: T)
        ensures
            final(self).buffered() == Some(value),
            ({
                match old(self).buffered() {
                    None => final(self).past() == old(self).past() && final(self).future() == old(self).future(),
                    Some(prev) => final(self).past() == past_after_push(old(self).past(), prev)
                        && final(self).future() == future_after_push(
                        old(self).past(),
                        old(self).future(),
                        prev,
                    ),
                }
            }),
            final(self).group_open() == old(self).group_open(),
            final(self).verbosity() == old(self).verbosity(),
    {
        match &self.undo_buffer {
            Some(v) => {
                let prev = v.clone_entry();
                self.push(prev);
            },
            None => {},
        }
        self.undo_buffer = Some(value);
    }

    /// Ends a continuous interaction.  When the staged snapshot differs from
    /// `end_value` it is committed through the ordinary push path; when the
    /// interaction changed nothing the snapshot is discarded.  Either way
    /// the buffer slot is cleared.  Rejected without mutation when no buffer
    /// is active.
    pub fn finish_buffer(&mut self, end_value: T)
        ensures
            final(self).buffered() == None::<T>,
            ({
                match old(self).buffered() {
                    None => final(self).past() == old(self).past() && final(self).future() == old(self).future(),
                    Some(prev) => if prev == end_value {
                        final(self).past() == old(self).past() && final(self).future() == old(self).future()
                    } else {
                        final(self).past() == past_after_push(old(self).past(), prev) && final(self).future() == future_after_push(
                            old(self).past(),
                            old(self).future(),
                            prev,
                        )
                    },
                }
            }),
            final(self).group_open() == old(self).group_open(),
            final(self).verbosity() == old(self).verbosity(),
    {
        match self.undo_buffer.take() {
            Some(v) => {
                if !v.eq_entry(&end_value) {
                    self.push(v);
                }
            },
            None => {},
        }
    }

    /// A copy of the staged snapshot, if one is active.
    pub fn buffer(&self) -> (r: Option<T>)
        ensures
            r == self.buffered(),
    {
        match &self.undo_buffer {
            Some(v) => Some(v.clone_entry()),
            None => None,
        }
    }
}

impl<T: Undoable> Default for UndoStack<T> {
    /// A quiet, empty engine.
    fn default() -> (s: Self)
        ensures
            s.past() == Seq::<Slot<T>>::empty(),
            s.future() == Seq::<Slot<T>>::empty(),
            s.buffered() == None::<T>,
            !s.group_open(),
            !s.verbosity(),
    {
        Self::new(false)
    }
}

} // verus!
