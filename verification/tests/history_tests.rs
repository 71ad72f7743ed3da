use mips_assembler::history::History;

#[test]
fn history_append_undo_redo() {
    let mut h: History<u32> = History::new(3);
    assert_eq!(*h.get_curr(), 0);
    assert!(!h.can_undo());
    assert!(!h.can_redo());

    h.append(1);
    h.append(2);
    h.append(3);
    assert_eq!(*h.get_curr(), 3);
    assert!(h.can_undo());

    h.undo();
    assert_eq!(*h.get_curr(), 2);
    assert!(h.can_redo());

    h.redo();
    assert_eq!(*h.get_curr(), 3);
    assert!(!h.can_redo());

    h.undo();
    h.undo();
    h.undo();
    assert_eq!(*h.get_curr(), 0);
    assert!(!h.can_undo());
}

#[test]
fn history_append_clears_redo() {
    let mut h: History<u32> = History::new(4);
    h.append(1);
    h.append(2);
    h.undo();
    assert!(h.can_redo());
    h.append(9);
    assert!(!h.can_redo());
    assert_eq!(*h.get_curr(), 9);
    h.undo();
    assert_eq!(*h.get_curr(), 1);
}

#[test]
fn history_bound_drops_oldest() {
    let mut h: History<u32> = History::new(2);
    h.append(1);
    h.append(2);
    h.append(3);
    h.undo();
    assert_eq!(*h.get_curr(), 2);
    h.undo();
    assert_eq!(*h.get_curr(), 1);
    assert!(!h.can_undo());
}

#[test]
fn history_reset_and_resize() {
    let mut h: History<u32> = History::new(3);
    h.append(1);
    h.append(2);
    h.reset(7);
    assert_eq!(*h.get_curr(), 7);
    assert!(!h.can_undo());
    assert!(!h.can_redo());

    h.append(8);
    h.append(9);
    h.resize(5);
    assert!(h.can_undo());
    h.resize(1);
    assert!(!h.can_undo());
}
