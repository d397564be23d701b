//! The contract an entry type must satisfy to be stored in the history.

use vstd::prelude::*;

verus! {

/// A caller-defined recorded change, carrying enough data to apply or invert
/// it against the caller's project value.
///
/// `restore` is the single operation of the protocol: it writes the entry's
/// payload into the project and returns a new entry holding the state that
/// was just overwritten.  The same operation serves both undo and redo; only
/// the engine decides which stack an entry is taken from.
///
/// The two spec functions describe `restore` mathematically: `applied_to`
/// gives the project state after the payload is written, and `captured_from`
/// gives the inverse entry read out of the current project state.  An
/// implementation must also prove `lemma_restore_round_trip`, which pins the
/// returned entry down as a genuine inverse: applying it brings the project
/// back, and capturing during that second application yields the original
/// entry again.
pub trait Undoable: Sized {
    type ProjectType;

    /// The project state that results from writing this entry's payload into
    /// `project`.
    spec fn applied_to(self, project: Self::ProjectType) -> Self::ProjectType;

    /// The inverse entry that `restore` reads out of `project` before
    /// overwriting it.
    spec fn captured_from(self, project: Self::ProjectType) -> Self;

    /// The captured inverse really inverts the application: restoring it
    /// returns the project to its prior state, and the entry it captures in
    /// turn is the original entry.
    proof fn lemma_restore_round_trip(self, project: Self::ProjectType)
        ensures
            self.captured_from(project).applied_to(self.applied_to(project)) == project,
            self.captured_from(project).captured_from(self.applied_to(project)) == self,
    ;

    /// Writes this entry's payload into the project and returns the entry
    /// representing the state that was overwritten.
    fn restore(self, project: &mut Self::ProjectType) -> (prev: Self)
        ensures
            *final(project) == self.applied_to(*old(project)),
            prev == self.captured_from(*old(project)),
    ;

    /// Value equality of two entries.
    fn eq_entry(&self, other: &Self) -> (r: bool)
        ensures
            r == (*self == *other),
    ;

    /// An exact duplicate of this entry.
    fn clone_entry(&self) -> (c: Self)
        ensures
            c == *self,
    ;
}

} // verus!
