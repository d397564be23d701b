//! The mathematical model of the engine: history slots and the spec-level
//! transitions that the executable operations are proved to follow.

use vstd::prelude::*;
use crate::undoable::Undoable;

verus! {

/// One slot of a history sequence: either a recorded entry or a group
/// marker.  The same marker value opens and closes a group; which boundary a
/// marker represents is determined by its position alone.
pub enum Slot<T> {
    Marker,
    Single(T),
}

/// True when pushing `e` is absorbed by an identical entry on top of `past`:
/// immediately repeated pushes of one value never grow the history.
pub open spec fn push_dedups<T>(past: Seq<Slot<T>>, e: T) -> bool {
    past.len() > 0 && past.last() == Slot::Single(e)
}

/// The past stack after a push of `e`.
pub open spec fn past_after_push<T>(past: Seq<Slot<T>>, e: T) -> Seq<Slot<T>> {
    if push_dedups(past, e) {
        past
    } else {
        past.push(Slot::Single(e))
    }
}

/// The future stack after a push of `e`: any push that actually appends
/// invalidates all pending redo state.
pub open spec fn future_after_push<T>(past: Seq<Slot<T>>, future: Seq<Slot<T>>, e: T) -> Seq<
    Slot<T>,
> {
    if push_dedups(past, e) {
        future
    } else {
        Seq::empty()
    }
}

/// The inner group walk: entries are popped off `source` and their inverses
/// pushed onto `dest` until a closing marker crosses over or the source runs
/// out (a malformed, unterminated group; the partial work is kept).
pub open spec fn drain_group<T: Undoable>(
    source: Seq<Slot<T>>,
    dest: Seq<Slot<T>>,
    project: T::ProjectType,
) -> (Seq<Slot<T>>, Seq<Slot<T>>, T::ProjectType)
    decreases source.len(),
{
    if source.len() == 0 {
        (source, dest, project)
    } else {
        match source.last() {
            Slot::Marker => (source.drop_last(), dest.push(Slot::Marker), project),
            Slot::Single(v) => drain_group(
                source.drop_last(),
                dest.push(Slot::Single(v.captured_from(project))),
                v.applied_to(project),
            ),
        }
    }
}

/// One whole undo or redo step: the resulting (source, destination, project)
/// triple.  A single entry crosses alone; a marker drags the whole group
/// across through `drain_group`; an empty source moves nothing.
pub open spec fn traverse<T: Undoable>(
    source: Seq<Slot<T>>,
    dest: Seq<Slot<T>>,
    project: T::ProjectType,
) -> (Seq<Slot<T>>, Seq<Slot<T>>, T::ProjectType) {
    if source.len() == 0 {
        (source, dest, project)
    } else {
        match source.last() {
            Slot::Single(v) => (
                source.drop_last(),
                dest.push(Slot::Single(v.captured_from(project))),
                v.applied_to(project),
            ),
            Slot::Marker => drain_group(source.drop_last(), dest.push(Slot::Marker), project),
        }
    }
}

/// `n` consecutive undo (or redo) steps: `traverse` iterated `n` times.
pub open spec fn traverse_n<T: Undoable>(
    source: Seq<Slot<T>>,
    dest: Seq<Slot<T>>,
    project: T::ProjectType,
    n: nat,
) -> (Seq<Slot<T>>, Seq<Slot<T>>, T::ProjectType)
    decreases n,
{
    if n == 0 {
        (source, dest, project)
    } else {
        let t = traverse::<T>(source, dest, project);
        traverse_n::<T>(t.0, t.1, t.2, (n - 1) as nat)
    }
}

/// The entry on top of a stack, or nothing when the stack is empty or a
/// marker sits on top.
pub open spec fn top_single<T>(stack: Seq<Slot<T>>) -> Option<T> {
    if stack.len() == 0 {
        None
    } else {
        match stack.last() {
            Slot::Marker => None,
            Slot::Single(v) => Some(v),
        }
    }
}

/// The entry a traversal reports: nothing when no movement occurred (the
/// source stack was empty), otherwise the top of the destination stack
/// after the step — and nothing there either when a marker sits on top.
pub open spec fn reported_entry<T>(source: Seq<Slot<T>>, dest_after: Seq<Slot<T>>) -> Option<T> {
    if source.len() == 0 {
        None
    } else {
        top_single(dest_after)
    }
}

} // verus!
