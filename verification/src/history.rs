//! A bounded undo/redo history around a current value: `append` records the
//! value being replaced, `undo` and `redo` walk the recorded values, and a
//! new `append` clears the redo branch.

use vstd::prelude::*;

verus! {

/// The history's mathematical state: the current value, the undo stack
/// (oldest first), the redo stack, and the bound on the undo stack.
pub ghost struct HistoryModel<T> {
    pub curr: T,
    pub undo: Seq<T>,
    pub redo: Seq<T>,
    pub size: nat,
}

/// What shrinking the bound keeps of the undo stack: the oldest entries
/// that no longer fit under the new bound are dropped from the front, and
/// the stack is then trimmed to leave one slot free for the next append.
pub open spec fn shrunk_undo<T>(undo: Seq<T>, old_size: nat, size: nat) -> Seq<T>
    recommends
        size < old_size,
{
    let dropped: int = if old_size - size <= undo.len() {
        old_size - size
    } else {
        undo.len() as int
    };
    let mid = undo.subrange(dropped, undo.len() as int);
    let keep = if size > 0 {
        (size - 1) as nat
    } else {
        0nat
    };
    if mid.len() <= keep {
        mid
    } else {
        mid.subrange(0, keep as int)
    }
}

/// A bounded undo/redo buffer; the undo stack never outgrows its bound.
pub struct History<T> {
    curr: T,
    undo: Vec<T>,
    redo: Vec<T>,
    size: usize,
}

impl<T> View for History<T> {
    type V = HistoryModel<T>;

    closed spec fn view(&self) -> HistoryModel<T> {
        HistoryModel { curr: self.curr, undo: self.undo@, redo: self.redo@, size: self.size as nat }
    }
}

impl<T: Clone + Default> History<T> {
    /// An empty history around the type's default value.
    pub fn new(size: usize) -> (h: History<T>)
        ensures
            h@.undo == Seq::<T>::empty(),
            h@.redo == Seq::<T>::empty(),
            h@.size == size,
    {
        let h = History { curr: Default::default(), undo: Vec::new(), redo: Vec::new(), size };
        proof {
            assert(h@.undo =~= Seq::<T>::empty());
            assert(h@.redo =~= Seq::<T>::empty());
        }
        h
    }

    /// The current value, for reading or editing in place.
    pub fn get_curr(&mut self) -> (r: &mut T)
        ensures
            *r == old(self)@.curr,
            final (self)@ == (HistoryModel { curr: *final (r), ..old(self)@ }),
    {
        &mut self.curr
    }

    /// Makes a value current; the replaced value joins the undo stack,
    /// dropping the oldest entry when the stack is full, and the redo
    /// branch is discarded.
    pub fn append(&mut self, elem: T)
        ensures
            final (self)@.curr == elem,
            final (self)@.redo == Seq::<T>::empty(),
            final (self)@.size == old(self)@.size,
            final (self)@.undo == if old(self)@.undo.len() >= old(self)@.size && old(
                self,
            )@.undo.len() > 0 {
                old(self)@.undo.subrange(1, old(self)@.undo.len() as int).push(old(self)@.curr)
            } else {
                old(self)@.undo.push(old(self)@.curr)
            },
    {
        self.redo.clear();
        let mut replaced = elem;
        core::mem::swap(&mut replaced, &mut self.curr);
        if self.undo.len() >= self.size && self.undo.len() > 0 {
            self.undo.remove(0);
            self.undo.push(replaced);
        } else {
            self.undo.push(replaced);
        }
        proof {
            assert(self@.redo =~= Seq::<T>::empty());
        }
    }

    /// Makes a value current and forgets all history around it.
    pub fn reset(&mut self, elem: T)
        ensures
            final (self)@.curr == elem,
            final (self)@.undo == Seq::<T>::empty(),
            final (self)@.redo == Seq::<T>::empty(),
            final (self)@.size == old(self)@.size,
    {
        self.curr = elem;
        self.undo.clear();
        self.redo.clear();
        proof {
            assert(self@.undo =~= Seq::<T>::empty());
            assert(self@.redo =~= Seq::<T>::empty());
        }
    }

    /// Changes the bound; shrinking keeps the newest entries that still
    /// fit under the new bound, less one slot for the next append, and
    /// discards the redo branch.
    pub fn resize(&mut self, size: usize)
        ensures
            final (self)@.curr == old(self)@.curr,
            final (self)@.redo == Seq::<T>::empty(),
            final (self)@.size == size,
            size >= old(self)@.size ==> final (self)@.undo == old(self)@.undo,
            size < old(self)@.size ==> final (self)@.undo == shrunk_undo(
                old(self)@.undo,
                old(self)@.size,
                size as nat,
            ),
    {
        self.redo.clear();
        if size < self.size {
            let ghost undo0 = self@.undo;
            let ghost old_len = undo0.len();
            let drop_front = self.size - size;
            let mut k: usize = 0;
            proof {
                assert(self@.undo =~= undo0.subrange(0, old_len as int));
            }
            while k < drop_front && self.undo.len() > 0
                invariant
                    self@.curr == old(self)@.curr,
                    self@.redo == Seq::<T>::empty(),
                    self@.size == old(self)@.size,
                    k <= drop_front,
                    k <= old_len,
                    old_len == undo0.len(),
                    self@.undo == undo0.subrange(k as int, old_len as int),
                decreases drop_front - k,
            {
                self.undo.remove(0);
                k = k + 1;
                proof {
                    assert(self@.undo =~= undo0.subrange(k as int, old_len as int));
                }
            }
            proof {
                let dropped: int = if old(self)@.size - size <= old_len {
                    old(self)@.size - size
                } else {
                    old_len as int
                };
                assert(k == dropped);
                assert(self@.undo == undo0.subrange(dropped, old_len as int));
            }
            let ghost mid = self@.undo;
            let keep = if size > 0 {
                size - 1
            } else {
                0
            };
            proof {
                assert(self@.undo =~= mid.subrange(0, self@.undo.len() as int));
            }
            while self.undo.len() > keep
                invariant
                    self@.curr == old(self)@.curr,
                    self@.redo == Seq::<T>::empty(),
                    self@.size == old(self)@.size,
                    self@.undo.len() <= mid.len(),
                    self@.undo.len() == mid.len() || self@.undo.len() >= keep,
                    self@.undo == mid.subrange(0, self@.undo.len() as int),
                decreases self.undo.len(),
            {
                let ghost pre = self@.undo;
                self.undo.pop();
                proof {
                    let l = self@.undo.len() as int;
                    assert(self@.undo == pre.subrange(0, l));
                    assert forall|i: int| 0 <= i < l implies self@.undo[i] == mid[i] by {
                        assert(self@.undo[i] == pre[i]);
                        assert(pre[i] == mid.subrange(0, pre.len() as int)[i]);
                    }
                    assert(self@.undo =~= mid.subrange(0, l));
                }
            }
            proof {
                if self@.undo.len() == mid.len() {
                    assert(self@.undo =~= mid);
                }
            }
        }
        self.size = size;
        proof {
            assert(self@.redo =~= Seq::<T>::empty());
        }
    }

    /// Steps back: the newest undo entry becomes current and the replaced
    /// value joins the redo stack. Without history, nothing changes.
    pub fn undo(&mut self)
        ensures
            old(self)@.undo.len() == 0 ==> final (self)@ == old(self)@,
            old(self)@.undo.len() > 0 ==> {
                &&& final (self)@.curr == old(self)@.undo.last()
                &&& final (self)@.undo == old(self)@.undo.drop_last()
                &&& final (self)@.redo == old(self)@.redo.push(old(self)@.curr)
                &&& final (self)@.size == old(self)@.size
            },
    {
        match self.undo.pop() {
            Some(elem) => {
                let mut replaced = elem;
                core::mem::swap(&mut replaced, &mut self.curr);
                self.redo.push(replaced);
            },
            None => {},
        }
    }

    /// Steps forward again: the newest redo entry becomes current and the
    /// replaced value returns to the undo stack.
    pub fn redo(&mut self)
        ensures
            old(self)@.redo.len() == 0 ==> final (self)@ == old(self)@,
            old(self)@.redo.len() > 0 ==> {
                &&& final (self)@.curr == old(self)@.redo.last()
                &&& final (self)@.redo == old(self)@.redo.drop_last()
                &&& final (self)@.undo == old(self)@.undo.push(old(self)@.curr)
                &&& final (self)@.size == old(self)@.size
            },
    {
        match self.redo.pop() {
            Some(elem) => {
                let mut replaced = elem;
                core::mem::swap(&mut replaced, &mut self.curr);
                self.undo.push(replaced);
            },
            None => {},
        }
    }

    /// Whether a step back is possible.
    pub fn can_undo(&self) -> (r: bool)
        ensures
            r == (self@.undo.len() > 0),
    {
        self.undo.len() > 0
    }

    /// Whether a step forward is possible.
    pub fn can_redo(&self) -> (r: bool)
        ensures
            r == (self@.redo.len() > 0),
    {
        self.redo.len() > 0
    }
}

} // verus!
