//! Behavioral tests of the history engine, driven through a small project
//! type with two fields and an entry enum covering each of them.

use undo_stack::{UndoStack, Undoable};

#[derive(Debug, Clone, PartialEq)]
struct Project {
    a: i32,
    b: f32,
}

#[derive(Clone, PartialEq, Debug)]
enum UndoValue {
    ValueA(i32),
    ValueB(f32),
    AllValues { a: i32, b: f32 },
}

impl Undoable for UndoValue {
    type ProjectType = Project;

    // The ghost members of the trait (the spec-level model of `restore` and
    // its round-trip obligation) are erased during verification builds but
    // remain required items of the compiled trait.  They are never called
    // at run time; the bodies below simply mirror what `restore` does.
    fn applied_to(self, proj: Project) -> Project {
        match self {
            UndoValue::ValueA(value) => Project { a: value, b: proj.b },
            UndoValue::ValueB(value) => Project { a: proj.a, b: value },
            UndoValue::AllValues { a, b } => Project { a, b },
        }
    }

    fn captured_from(self, proj: Project) -> Self {
        match self {
            UndoValue::ValueA(_) => UndoValue::ValueA(proj.a),
            UndoValue::ValueB(_) => UndoValue::ValueB(proj.b),
            UndoValue::AllValues { .. } => UndoValue::AllValues { a: proj.a, b: proj.b },
        }
    }

    fn lemma_restore_round_trip(self, _proj: Project) {}

    fn restore(self, proj: &mut Project) -> Self {
        match self {
            UndoValue::ValueA(value) => {
                let replaced = proj.a;
                proj.a = value;
                UndoValue::ValueA(replaced)
            }
            UndoValue::ValueB(value) => {
                let replaced = proj.b;
                proj.b = value;
                UndoValue::ValueB(replaced)
            }
            UndoValue::AllValues { a, b } => {
                let replaced = proj.clone();
                proj.a = a;
                proj.b = b;
                UndoValue::AllValues {
                    a: replaced.a,
                    b: replaced.b,
                }
            }
        }
    }

    fn eq_entry(&self, other: &Self) -> bool {
        self == other
    }

    fn clone_entry(&self) -> Self {
        self.clone()
    }
}

#[test]
fn push_dedup() {
    let mut stack = UndoStack::<UndoValue>::new(false);
    let mut proj = Project { a: 1, b: 0.0 };
    stack.push(UndoValue::ValueA(1));
    stack.push(UndoValue::ValueA(1));
    proj.a = 2;
    // exactly one slot was recorded: one undo restores, a second moves
    // nothing
    assert_eq!(stack.undo(&mut proj), Some(UndoValue::ValueA(2)));
    assert_eq!(proj, Project { a: 1, b: 0.0 });
    stack.undo(&mut proj);
    assert_eq!(proj, Project { a: 1, b: 0.0 });
    assert!(!stack.is_empty());
    stack.redo(&mut proj);
    assert_eq!(proj, Project { a: 2, b: 0.0 });
    assert!(!stack.is_empty());
}

#[test]
fn push_clears_redo() {
    let mut stack = UndoStack::<UndoValue>::new(false);
    let mut proj = Project { a: 1, b: 0.0 };
    stack.push(UndoValue::ValueA(1));
    proj.a = 2;
    stack.undo(&mut proj);
    assert_eq!(proj.a, 1);
    // a fresh push invalidates the pending redo entirely
    stack.push(UndoValue::ValueA(1));
    proj.a = 7;
    stack.push(UndoValue::ValueA(7));
    proj.a = 9;
    stack.undo(&mut proj);
    stack.undo(&mut proj);
    assert_eq!(proj.a, 1);
    stack.push(UndoValue::ValueA(1));
    proj.a = 4;
    // the diverging future was invalidated by the push: the redo moves
    // nothing, reports nothing and leaves the project untouched
    let redone = stack.redo(&mut proj);
    assert_eq!(redone, None);
    assert_eq!(proj.a, 4);
}

#[test]
fn undo_redo_inverse() {
    let mut stack = UndoStack::<UndoValue>::new(false);
    let mut proj = Project { a: 5, b: 1.0 };
    let s0 = proj.clone();
    stack.push(UndoValue::ValueA(proj.a));
    proj.a = 50;
    stack.push(UndoValue::ValueB(proj.b));
    proj.b = 10.0;
    stack.push(UndoValue::AllValues { a: proj.a, b: proj.b });
    proj.a = 555;
    proj.b = 222.0;
    let sn = proj.clone();
    stack.undo(&mut proj);
    stack.undo(&mut proj);
    stack.undo(&mut proj);
    assert_eq!(proj, s0);
    stack.redo(&mut proj);
    stack.redo(&mut proj);
    stack.redo(&mut proj);
    assert_eq!(proj, sn);
}

#[test]
fn group_atomicity() {
    let mut stack = UndoStack::<UndoValue>::new(false);
    let mut proj = Project { a: 5, b: 1.0 };
    let before = proj.clone();
    stack.start_group();
    stack.push(UndoValue::ValueA(proj.a));
    proj.a = 50;
    stack.push(UndoValue::ValueB(proj.b));
    proj.b = 10.0;
    stack.finish_group();
    let after = proj.clone();
    // one call undoes the whole group
    stack.undo(&mut proj);
    assert_eq!(proj, before);
    // one call redoes the whole group
    stack.redo(&mut proj);
    assert_eq!(proj, after);
}

#[test]
fn idempotent_empty_traversal() {
    let mut stack = UndoStack::<UndoValue>::new(false);
    let mut proj = Project { a: 3, b: 4.0 };
    for _ in 0..3 {
        assert_eq!(stack.undo(&mut proj), None);
        assert_eq!(proj, Project { a: 3, b: 4.0 });
        assert_eq!(stack.redo(&mut proj), None);
        assert_eq!(proj, Project { a: 3, b: 4.0 });
        assert!(stack.is_empty());
    }
}

#[test]
fn buffer_discard_on_unchanged_value() {
    let mut stack = UndoStack::<UndoValue>::new(false);
    let mut proj = Project { a: 3, b: 4.0 };
    stack.start_buffer(UndoValue::ValueB(proj.b));
    assert!(!stack.buffer_is_empty());
    stack.finish_buffer(UndoValue::ValueB(4.0));
    assert!(stack.buffer_is_empty());
    // nothing was committed: the history is still empty
    assert!(stack.is_empty());
    assert_eq!(stack.undo(&mut proj), None);
    assert_eq!(proj, Project { a: 3, b: 4.0 });
}

#[test]
fn buffer_commit_on_changed_value() {
    let mut stack = UndoStack::<UndoValue>::new(false);
    let mut proj = Project { a: 3, b: 4.0 };
    stack.start_buffer(UndoValue::ValueB(proj.b));
    proj.b = 8.5;
    stack.finish_buffer(UndoValue::ValueB(proj.b));
    assert!(stack.buffer_is_empty());
    // exactly one entry, equal to the captured snapshot, was committed
    assert!(!stack.is_empty());
    assert_eq!(stack.undo(&mut proj), Some(UndoValue::ValueB(8.5)));
    assert_eq!(proj, Project { a: 3, b: 4.0 });
    stack.undo(&mut proj);
    assert_eq!(proj, Project { a: 3, b: 4.0 });
}

#[test]
fn buffer_restart_commits_previous() {
    let mut stack = UndoStack::<UndoValue>::new(false);
    let mut proj = Project { a: 3, b: 4.0 };
    stack.start_buffer(UndoValue::ValueB(proj.b));
    proj.b = 6.0;
    // starting a new buffer auto-commits the abandoned one
    stack.start_buffer(UndoValue::ValueB(proj.b));
    proj.b = 9.0;
    stack.finish_buffer(UndoValue::ValueB(proj.b));
    assert_eq!(stack.undo(&mut proj), Some(UndoValue::ValueB(9.0)));
    assert_eq!(proj.b, 6.0);
    assert_eq!(stack.undo(&mut proj), Some(UndoValue::ValueB(6.0)));
    assert_eq!(proj.b, 4.0);
}

#[test]
fn buffer_query_returns_copy() {
    let mut stack = UndoStack::<UndoValue>::new(false);
    assert_eq!(stack.buffer(), None);
    stack.start_buffer(UndoValue::ValueA(11));
    assert_eq!(stack.buffer(), Some(UndoValue::ValueA(11)));
    stack.finish_buffer(UndoValue::ValueA(11));
    assert_eq!(stack.buffer(), None);
}

#[test]
fn finish_buffer_without_active_buffer_is_rejected() {
    let mut stack = UndoStack::<UndoValue>::new(false);
    let mut proj = Project { a: 3, b: 4.0 };
    stack.finish_buffer(UndoValue::ValueA(3));
    assert!(stack.is_empty());
    assert_eq!(stack.undo(&mut proj), None);
    assert_eq!(proj, Project { a: 3, b: 4.0 });
}

#[test]
fn concrete_scenario() {
    let mut stack = UndoStack::<UndoValue>::new(false);
    let mut proj = Project { a: 5, b: 1.0 };
    stack.push(UndoValue::AllValues { a: proj.a, b: proj.b });
    proj.a = 50;
    proj.b = 10.0;
    stack.push(UndoValue::ValueA(proj.a));
    proj.a = 2000000;
    stack.undo(&mut proj);
    assert_eq!(proj, Project { a: 50, b: 10.0 });
    stack.undo(&mut proj);
    assert_eq!(proj, Project { a: 5, b: 1.0 });
    stack.redo(&mut proj);
    stack.redo(&mut proj);
    assert_eq!(proj, Project { a: 2000000, b: 10.0 });
}

#[test]
fn nested_group_start_is_rejected() {
    let mut stack = UndoStack::<UndoValue>::new(false);
    let mut proj = Project { a: 1, b: 0.0 };
    stack.start_group();
    stack.start_group();
    stack.push(UndoValue::ValueA(proj.a));
    proj.a = 2;
    stack.finish_group();
    // the nested start added no second marker, so the single group undoes
    // in one step and the engine is back at the start of history
    stack.undo(&mut proj);
    assert_eq!(proj.a, 1);
    assert_eq!(stack.undo(&mut proj), None);
    assert_eq!(proj.a, 1);
}

#[test]
fn mismatched_finish_group_is_rejected() {
    let mut stack = UndoStack::<UndoValue>::new(false);
    let mut proj = Project { a: 1, b: 0.0 };
    stack.finish_group();
    assert!(stack.is_empty());
    stack.push(UndoValue::ValueA(proj.a));
    proj.a = 2;
    stack.finish_group();
    stack.undo(&mut proj);
    assert_eq!(proj.a, 1);
    assert!(stack.redo(&mut proj).is_some());
    assert_eq!(proj.a, 2);
}

#[test]
fn reopen_group_widens_finished_group() {
    let mut stack = UndoStack::<UndoValue>::new(false);
    let mut proj = Project { a: 1, b: 0.0 };
    stack.start_group();
    stack.push(UndoValue::ValueA(proj.a));
    proj.a = 2;
    stack.finish_group();
    stack.reopen_group();
    stack.push(UndoValue::ValueB(proj.b));
    proj.b = 5.0;
    stack.finish_group();
    // the widened group undoes as one unit
    stack.undo(&mut proj);
    assert_eq!(proj, Project { a: 1, b: 0.0 });
}

#[test]
fn reopen_group_while_open_is_rejected() {
    let mut stack = UndoStack::<UndoValue>::new(false);
    let mut proj = Project { a: 1, b: 0.0 };
    stack.start_group();
    // a group is already open: the call is rejected and the open marker
    // stays in place, so the group still closes into a balanced pair
    stack.reopen_group();
    stack.push(UndoValue::ValueA(proj.a));
    proj.a = 2;
    stack.finish_group();
    stack.undo(&mut proj);
    assert_eq!(proj.a, 1);
    assert_eq!(stack.undo(&mut proj), None);
    assert_eq!(proj.a, 1);
    stack.redo(&mut proj);
    assert_eq!(proj.a, 2);
    assert!(!stack.is_empty());
}

#[test]
fn reopen_group_on_single_entry_is_rejected() {
    let mut stack = UndoStack::<UndoValue>::new(false);
    let mut proj = Project { a: 1, b: 0.0 };
    stack.push(UndoValue::ValueA(proj.a));
    proj.a = 2;
    stack.reopen_group();
    // the entry was pushed back untouched and no group opened
    stack.finish_group();
    stack.undo(&mut proj);
    assert_eq!(proj.a, 1);
    assert!(stack.redo(&mut proj).is_some());
    assert_eq!(proj.a, 2);
}

#[test]
fn unterminated_group_stops_without_rollback() {
    let mut stack = UndoStack::<UndoValue>::new(false);
    let mut proj = Project { a: 1, b: 0.0 };
    stack.start_group();
    stack.push(UndoValue::ValueA(proj.a));
    proj.a = 2;
    // the group is never finished; the first undo moves the plain entry
    stack.undo(&mut proj);
    assert_eq!(proj.a, 1);
    // the second pops the lone marker and stops at the exhausted stack
    assert_eq!(stack.undo(&mut proj), None);
    assert_eq!(proj.a, 1);
    // redo walks the mirrored, equally unterminated group back
    stack.redo(&mut proj);
    assert_eq!(proj.a, 2);
}

#[test]
fn clear_empties_everything() {
    let mut stack = UndoStack::<UndoValue>::new(true);
    let mut proj = Project { a: 1, b: 0.0 };
    stack.push(UndoValue::ValueA(proj.a));
    proj.a = 2;
    stack.start_buffer(UndoValue::ValueA(proj.a));
    stack.clear();
    assert!(stack.is_empty());
    assert!(stack.buffer_is_empty());
    assert_eq!(stack.undo(&mut proj), None);
    assert_eq!(proj.a, 2);
}

#[test]
fn default_engine_is_quiet_and_empty() {
    let stack = UndoStack::<UndoValue>::default();
    assert!(stack.is_empty());
    assert!(stack.buffer_is_empty());
    assert!(!stack.verbose);
}

#[test]
fn verbose_flag_is_kept() {
    let stack = UndoStack::<UndoValue>::new(true);
    assert!(stack.verbose);
    let quiet = UndoStack::<UndoValue>::new(false);
    assert!(!quiet.verbose);
}
