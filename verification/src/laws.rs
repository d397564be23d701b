//! Laws of the history engine, proved over the spec-level transitions that
//! the executable operations are shown to follow.

use vstd::prelude::*;
use crate::model::{
    drain_group, future_after_push, past_after_push, push_dedups, reported_entry, traverse,
    traverse_n, Slot,
};
use crate::undoable::Undoable;

verus! {

/// Pushing the same entry twice in a row leaves the past stack with exactly
/// one additional slot, not two: the second push is absorbed.
pub proof fn lemma_push_dedup<T>(past: Seq<Slot<T>>, e: T)
    ensures
        past_after_push(past_after_push(past, e), e) == past_after_push(past, e),
        !push_dedups(past, e) ==> past_after_push(past, e).len() == past.len() + 1,
{
}

/// A marker never equals a single entry, so deduplication never matches
/// across a group boundary: a push right after a marker always appends.
pub proof fn lemma_push_after_marker_appends<T>(past: Seq<Slot<T>>, e: T)
    requires
        past.len() > 0,
        past.last() == Slot::<T>::Marker,
    ensures
        past_after_push(past, e) == past.push(Slot::Single(e)),
{
}

/// A push that actually appends empties the future stack entirely, so a
/// subsequent redo finds nothing to move: it leaves both stacks and the
/// project exactly as they were and reports nothing.
pub proof fn lemma_push_clears_redo<T: Undoable>(
    past: Seq<Slot<T>>,
    future: Seq<Slot<T>>,
    e: T,
    project: T::ProjectType,
)
    requires
        !push_dedups(past, e),
    ensures
        future_after_push(past, future, e) == Seq::<Slot<T>>::empty(),
        traverse::<T>(future_after_push(past, future, e), past_after_push(past, e), project) == (
            Seq::<Slot<T>>::empty(),
            past_after_push(past, e),
            project,
        ),
        reported_entry(future_after_push(past, future, e), past_after_push(past, e))
            == None::<T>,
{
}

/// Undo and redo on an empty source stack move nothing: the destination
/// stack and the project are untouched and nothing is reported, so the call
/// is safely repeatable.
pub proof fn lemma_empty_traversal_noop<T: Undoable>(dest: Seq<Slot<T>>, project: T::ProjectType)
    ensures
        traverse::<T>(Seq::empty(), dest, project) == (Seq::<Slot<T>>::empty(), dest, project),
        reported_entry(Seq::<Slot<T>>::empty(), dest) == None::<T>,
{
}

/// Group atomicity: opening a group, pushing two distinct entries while the
/// project moves from `s0` through `s1` to `s2`, and closing the group
/// yields a past stack whose top group undoes in a single call — the
/// project returns to `s0` at once — and redoes in a single call, rebuilding
/// the identical group and returning the project to `s2`.
///
/// The hypotheses say that each pushed entry was captured coherently:
/// applying it to the state its change produced restores the state the
/// change started from.
pub proof fn lemma_group_atomicity<T: Undoable>(
    past0: Seq<Slot<T>>,
    a: T,
    b: T,
    s0: T::ProjectType,
    s1: T::ProjectType,
    s2: T::ProjectType,
)
    requires
        a != b,
        a.applied_to(s1) == s0,
        b.applied_to(s2) == s1,
    ensures
        ({
            let p1 = past0.push(Slot::<T>::Marker);
            let p2 = past_after_push(p1, a);
            let p3 = past_after_push(p2, b);
            let grouped = p3.push(Slot::<T>::Marker);
            let undone = traverse::<T>(grouped, Seq::empty(), s2);
            let redone = traverse::<T>(undone.1, undone.0, undone.2);
            &&& undone.0 == past0
            &&& undone.2 == s0
            &&& redone.0 == Seq::<Slot<T>>::empty()
            &&& redone.1 == grouped
            &&& redone.2 == s2
        }),
{
    let p1 = past0.push(Slot::<T>::Marker);
    let p2 = past_after_push(p1, a);
    let p3 = past_after_push(p2, b);
    let grouped = p3.push(Slot::<T>::Marker);

    // The two pushes append: a marker never equals a single entry, and the
    // entries are distinct.
    assert(!push_dedups(p1, a));
    assert(p2 == p1.push(Slot::<T>::Single(a)));
    assert(!push_dedups(p2, b));
    assert(p3 == p2.push(Slot::<T>::Single(b)));

    let fa = a.captured_from(s1);
    let fb = b.captured_from(s2);

    // Undo: the closing marker drags the whole group across.
    assert(grouped.drop_last() =~= p3);
    let d0 = Seq::<Slot<T>>::empty().push(Slot::<T>::Marker);
    assert(traverse::<T>(grouped, Seq::empty(), s2) == drain_group::<T>(p3, d0, s2));
    assert(p3.drop_last() =~= p2);
    let d1 = d0.push(Slot::<T>::Single(fb));
    assert(drain_group::<T>(p3, d0, s2) == drain_group::<T>(p2, d1, s1));
    assert(p2.drop_last() =~= p1);
    let d2 = d1.push(Slot::<T>::Single(fa));
    assert(drain_group::<T>(p2, d1, s1) == drain_group::<T>(p1, d2, s0));
    assert(p1.drop_last() =~= past0);
    let d3 = d2.push(Slot::<T>::Marker);
    assert(drain_group::<T>(p1, d2, s0) == (past0, d3, s0));
    let undone = traverse::<T>(grouped, Seq::empty(), s2);
    assert(undone == (past0, d3, s0));

    // The captured entries really invert the recorded changes.
    a.lemma_restore_round_trip(s1);
    b.lemma_restore_round_trip(s2);
    assert(fa.applied_to(s0) == s1);
    assert(fa.captured_from(s0) == a);
    assert(fb.applied_to(s1) == s2);
    assert(fb.captured_from(s1) == b);

    // Redo: the mirrored group drags back in one step, rebuilding the
    // original entries as it crosses.
    assert(d3.drop_last() =~= d2);
    let e0 = past0.push(Slot::<T>::Marker);
    assert(traverse::<T>(d3, past0, s0) == drain_group::<T>(d2, e0, s0));
    assert(d2.drop_last() =~= d1);
    let e1 = e0.push(Slot::<T>::Single(a));
    assert(drain_group::<T>(d2, e0, s0) == drain_group::<T>(d1, e1, s1));
    assert(d1.drop_last() =~= d0);
    let e2 = e1.push(Slot::<T>::Single(b));
    assert(drain_group::<T>(d1, e1, s1) == drain_group::<T>(d0, e2, s2));
    assert(d0.drop_last() =~= Seq::<Slot<T>>::empty());
    let e3 = e2.push(Slot::<T>::Marker);
    assert(drain_group::<T>(d0, e2, s2) == (Seq::<Slot<T>>::empty(), e3, s2));
    assert(e3 =~= grouped);
}

/// Buffer commit: when a staged snapshot `v0` differs from the value the
/// interaction ended on, committing it appends exactly one slot, equal to
/// `v0`, and a single undo then returns the project to `p0`, the state that
/// held when `v0` was captured.  (The discarding half of the protocol — a
/// buffer finished on an unchanged value leaves the past stack unmodified —
/// is stated directly by the `ensures` of `finish_buffer`.)
///
/// `v0.applied_to(p) == p0` says the snapshot was captured coherently: the
/// project has moved from `p0` to `p` only in what `v0` covers.
pub proof fn lemma_buffer_commit<T: Undoable>(
    past: Seq<Slot<T>>,
    future: Seq<Slot<T>>,
    v0: T,
    v1: T,
    p: T::ProjectType,
    p0: T::ProjectType,
)
    requires
        v0 != v1,
        !push_dedups(past, v0),
        v0.applied_to(p) == p0,
    ensures
        past_after_push(past, v0) == past.push(Slot::<T>::Single(v0)),
        past_after_push(past, v0).len() == past.len() + 1,
        traverse::<T>(past_after_push(past, v0), future_after_push(past, future, v0), p) == (
            past,
            Seq::<Slot<T>>::empty().push(Slot::<T>::Single(v0.captured_from(p))),
            p0,
        ),
{
    assert(past.push(Slot::<T>::Single(v0)).drop_last() =~= past);
}

/// The past stack produced by pushing each entry of `es` in order, none of
/// them absorbed by deduplication.
pub open spec fn singles<T>(es: Seq<T>) -> Seq<Slot<T>> {
    es.map(|i: int, e: T| Slot::Single(e))
}

/// The future stack after every entry of `es` has been undone: the inverse
/// of each entry, captured from the state its change produced, most
/// recently undone last.  `ss` lists the project states, `ss[i]` holding
/// before change `i` was applied and `ss[es.len()]` after the last one.
pub open spec fn inverses<T: Undoable>(es: Seq<T>, ss: Seq<T::ProjectType>) -> Seq<Slot<T>>
    decreases es.len(),
{
    if es.len() == 0 {
        Seq::empty()
    } else {
        seq![Slot::Single(es.last().captured_from(ss.last()))] + inverses::<T>(
            es.drop_last(),
            ss.drop_last(),
        )
    }
}

/// Peeling `inverses` from the front of `es` instead of the back: the
/// inverse of the first entry sits on top of the stack.
proof fn lemma_inverses_front<T: Undoable>(es: Seq<T>, ss: Seq<T::ProjectType>)
    requires
        ss.len() == es.len() + 1,
        es.len() > 0,
    ensures
        inverses::<T>(es, ss) == inverses::<T>(
            es.subrange(1, es.len() as int),
            ss.subrange(1, ss.len() as int),
        ).push(Slot::Single(es[0].captured_from(ss[1]))),
    decreases es.len(),
{
    let n = es.len() as int;
    let tes = es.subrange(1, n);
    let tss = ss.subrange(1, n + 1);
    let first = Slot::Single(es[0].captured_from(ss[1]));
    if n == 1 {
        assert(inverses::<T>(es, ss) == seq![first] + inverses::<T>(
            es.drop_last(),
            ss.drop_last(),
        ));
        assert(tes.len() == 0);
        assert(inverses::<T>(es, ss) =~= inverses::<T>(tes, tss).push(first));
    } else {
        let des = es.drop_last();
        let dss = ss.drop_last();
        lemma_inverses_front::<T>(des, dss);
        assert(des.subrange(1, n - 1) =~= tes.drop_last());
        assert(dss.subrange(1, n) =~= tss.drop_last());
        assert(des[0] == es[0] && dss[1] == ss[1]);
        // both sides decompose into the last inverse, the middle, and the
        // first inverse
        let last = Slot::Single(es.last().captured_from(ss.last()));
        let mid = inverses::<T>(tes.drop_last(), tss.drop_last());
        assert(inverses::<T>(es, ss) == seq![last] + mid.push(first));
        assert(tes.last() == es.last() && tss.last() == ss.last());
        assert(inverses::<T>(tes, tss) == seq![last] + mid);
        assert(seq![last] + mid.push(first) =~= (seq![last] + mid).push(first));
    }
}

/// Undoing every entry of a coherently recorded history drains the past
/// stack completely, stacks the captured inverses on the future stack, and
/// returns the project to its initial state.
pub proof fn lemma_undo_all<T: Undoable>(es: Seq<T>, ss: Seq<T::ProjectType>, dest: Seq<Slot<T>>)
    requires
        ss.len() == es.len() + 1,
        forall|i: int| 0 <= i < es.len() ==> #[trigger] es[i].applied_to(ss[i + 1]) == ss[i],
    ensures
        traverse_n::<T>(singles(es), dest, ss.last(), es.len()) == (
            Seq::<Slot<T>>::empty(),
            dest + inverses::<T>(es, ss),
            ss[0],
        ),
    decreases es.len(),
{
    let n = es.len() as int;
    if n == 0 {
        assert(singles(es) =~= Seq::<Slot<T>>::empty());
        assert(dest + inverses::<T>(es, ss) =~= dest);
    } else {
        let des = es.drop_last();
        let dss = ss.drop_last();
        let f = Slot::Single(es.last().captured_from(ss.last()));
        assert(singles(es).len() == n);
        assert(singles(es).last() == Slot::<T>::Single(es.last()));
        let j = n - 1;
        assert(es[j].applied_to(ss[j + 1]) == ss[j]);
        assert(es.last() == es[j] && ss.last() == ss[j + 1]);
        assert(es.last().applied_to(ss.last()) == ss[n - 1]);
        assert(traverse::<T>(singles(es), dest, ss.last()) == (
            singles(es).drop_last(),
            dest.push(f),
            ss[n - 1],
        ));
        assert(singles(es).drop_last() =~= singles(des));
        assert(dss.last() == ss[n - 1]);
        assert forall|i: int| 0 <= i < des.len() implies #[trigger] des[i].applied_to(dss[i + 1])
            == dss[i] by {
            assert(des[i] == es[i] && dss[i + 1] == ss[i + 1] && dss[i] == ss[i]);
        }
        lemma_undo_all::<T>(des, dss, dest.push(f));
        assert(traverse_n::<T>(singles(es), dest, ss.last(), es.len()) == traverse_n::<T>(
            singles(des),
            dest.push(f),
            dss.last(),
            des.len(),
        ));
        assert(inverses::<T>(es, ss) == seq![f] + inverses::<T>(des, dss));
        assert(dest.push(f) + inverses::<T>(des, dss) =~= dest + inverses::<T>(es, ss));
        assert(dss[0] == ss[0]);
    }
}

/// Redoing every undone entry drains the future stack completely, rebuilds
/// the original entries on the past stack in their original order, and
/// returns the project to its final state.
pub proof fn lemma_redo_all<T: Undoable>(es: Seq<T>, ss: Seq<T::ProjectType>, dest: Seq<Slot<T>>)
    requires
        ss.len() == es.len() + 1,
        forall|i: int| 0 <= i < es.len() ==> #[trigger] es[i].applied_to(ss[i + 1]) == ss[i],
    ensures
        traverse_n::<T>(inverses::<T>(es, ss), dest, ss[0], es.len()) == (
            Seq::<Slot<T>>::empty(),
            dest + singles(es),
            ss.last(),
        ),
    decreases es.len(),
{
    let n = es.len() as int;
    if n == 0 {
        assert(dest + singles(es) =~= dest);
    } else {
        let tes = es.subrange(1, n);
        let tss = ss.subrange(1, n + 1);
        let f1 = es[0].captured_from(ss[1]);
        lemma_inverses_front::<T>(es, ss);
        let inv = inverses::<T>(es, ss);
        assert(inv.len() == inverses::<T>(tes, tss).len() + 1);
        assert(inv.last() == Slot::<T>::Single(f1));
        assert(inv.drop_last() =~= inverses::<T>(tes, tss));
        // the captured inverse really inverts the first change
        assert(es[0].applied_to(ss[1]) == ss[0]);
        es[0].lemma_restore_round_trip(ss[1]);
        assert(f1.applied_to(ss[0]) == ss[1]);
        assert(f1.captured_from(ss[0]) == es[0]);
        let g = Slot::<T>::Single(es[0]);
        assert(traverse::<T>(inv, dest, ss[0]) == (
            inverses::<T>(tes, tss),
            dest.push(g),
            ss[1],
        ));
        assert forall|i: int| 0 <= i < tes.len() implies #[trigger] tes[i].applied_to(tss[i + 1])
            == tss[i] by {
            assert(tes[i] == es[i + 1] && tss[i + 1] == ss[i + 2] && tss[i] == ss[i + 1]);
        }
        lemma_redo_all::<T>(tes, tss, dest.push(g));
        assert(tss[0] == ss[1]);
        assert(traverse_n::<T>(inv, dest, ss[0], es.len()) == traverse_n::<T>(
            inverses::<T>(tes, tss),
            dest.push(g),
            tss[0],
            tes.len(),
        ));
        assert(dest.push(g) + singles(tes) =~= dest + singles(es));
        assert(tss.last() == ss.last());
    }
}

/// The undo/redo inverse law: for entries `es` recorded coherently along the
/// project states `ss` — `ss[0]` initial, `ss[i]` before change `i + 1`,
/// `ss[es.len()]` final — undoing `es.len()` times returns the project to
/// `ss[0]`, and redoing `es.len()` times returns it to the final state,
/// with the past stack rebuilt exactly as it stood before the first undo.
pub proof fn lemma_undo_redo_inverse<T: Undoable>(es: Seq<T>, ss: Seq<T::ProjectType>)
    requires
        ss.len() == es.len() + 1,
        forall|i: int| 0 <= i < es.len() ==> #[trigger] es[i].applied_to(ss[i + 1]) == ss[i],
    ensures
        ({
            let undone = traverse_n::<T>(singles(es), Seq::empty(), ss.last(), es.len());
            let redone = traverse_n::<T>(undone.1, undone.0, undone.2, es.len());
            &&& undone.0 == Seq::<Slot<T>>::empty()
            &&& undone.2 == ss[0]
            &&& redone.0 == Seq::<Slot<T>>::empty()
            &&& redone.1 == singles(es)
            &&& redone.2 == ss.last()
        }),
{
    lemma_undo_all::<T>(es, ss, Seq::empty());
    assert(Seq::<Slot<T>>::empty() + inverses::<T>(es, ss) =~= inverses::<T>(es, ss));
    lemma_redo_all::<T>(es, ss, Seq::empty());
    assert(Seq::<Slot<T>>::empty() + singles(es) =~= singles(es));
}

} // verus!
