//! Managing undo state

use std::collections::VecDeque;
use vstd::prelude::*;

verus! {

/// The number of states kept, unless another size is asked for.
pub const DEFAULT_UNDO_STACK_SIZE: usize = 128;

/// A stack of states that can be undone and redone.
#[derive(Debug)]
pub struct UndoState<T> {
    max_undo_count: usize,
    stack: VecDeque<T>,
    /// The index in `stack` of the current document.
    live_index: usize,
}

impl<T> UndoState<T> {
    /// The states kept, oldest first.
    pub closed spec fn states(self) -> Seq<T> {
        self.stack@
    }

    /// The index in `states()` of the current state.
    pub closed spec fn live(self) -> int {
        self.live_index as int
    }

    /// The most states this stack keeps (but it always keeps one).
    pub closed spec fn capacity(self) -> int {
        self.max_undo_count as int
    }

    /// The current state.
    pub open spec fn current(self) -> T {
        self.states()[self.live()]
    }

    /// There is always a current state, and never more states than allowed.
    pub open spec fn wf(self) -> bool {
        &&& 0 <= self.live() < self.states().len()
        &&& self.states().len() <= if self.capacity() < 1 {
            1
        } else {
            self.capacity()
        }
    }

    /// The states after adding `item` as a new undo group: the states after
    /// the current one are dropped, `item` is appended and becomes current,
    /// and the oldest state is dropped if there are too many.
    pub open spec fn states_after_add(self, item: T) -> Seq<T> {
        let grown = self.states().take(self.live() + 1).push(item);
        if grown.len() > self.capacity() {
            grown.drop_first()
        } else {
            grown
        }
    }

    /// The stack after stepping back one state.
    pub closed spec fn after_undo(self) -> Self {
        UndoState { live_index: (self.live_index - 1) as usize, ..self }
    }

    /// The stack after stepping forward one state.
    pub closed spec fn after_redo(self) -> Self {
        UndoState { live_index: (self.live_index + 1) as usize, ..self }
    }

    pub fn new(init_state: T) -> (s: Self)
        ensures
            s.wf(),
            s.states() == seq![init_state],
            s.live() == 0,
            s.capacity() == DEFAULT_UNDO_STACK_SIZE,
    {
        Self::new_sized(DEFAULT_UNDO_STACK_SIZE, init_state)
    }

    pub fn new_sized(max_undo_count: usize, init_state: T) -> (s: Self)
        ensures
            s.wf(),
            s.states() == seq![init_state],
            s.live() == 0,
            s.capacity() == max_undo_count,
    {
        let mut stack = VecDeque::new();
        stack.push_back(init_state);
        UndoState { max_undo_count, stack, live_index: 0 }
    }

    /// Step back to the previous state, if there is one, and return it.
    pub fn undo(&mut self) -> (r: Option<&T>)
        requires
            old(self).wf(),
        ensures
            final(self).wf(),
            final(self).states() == old(self).states(),
            final(self).capacity() == old(self).capacity(),
            old(self).live() == 0 ==> r is None && final(self).live() == 0,
            old(self).live() == 0 ==> *final(self) == *old(self),
            old(self).live() > 0 ==> *final(self) == old(self).after_undo(),
            old(self).live() > 0 ==> final(self).live() == old(self).live() - 1 && r == Some(
                &final(self).current(),
            ),
    {
        if self.live_index == 0 {
            return None;
        }
        self.live_index -= 1;
        Some(&self.stack[self.live_index])
    }

    /// Step forward to the next state, if there is one, and return it.
    pub fn redo(&mut self) -> (r: Option<&T>)
        requires
            old(self).wf(),
        ensures
            final(self).wf(),
            final(self).states() == old(self).states(),
            final(self).capacity() == old(self).capacity(),
            old(self).live() == old(self).states().len() - 1 ==> r is None && final(self).live()
                == old(self).live(),
            old(self).live() < old(self).states().len() - 1 ==> final(self).live() == old(self).live()
                + 1 && r == Some(&final(self).current()),
            old(self).live() == old(self).states().len() - 1 ==> *final(self) == *old(self),
            old(self).live() < old(self).states().len() - 1 ==> *final(self) == old(self).after_redo(),
    {
        if self.live_index == self.stack.len() - 1 {
            return None;
        }
        self.live_index += 1;
        Some(&self.stack[self.live_index])
    }

    /// Make `item` the current state, discarding any states that could have
    /// been redone.
    pub fn add_undo_group(&mut self, item: T)
        requires
            old(self).wf(),
        ensures
            final(self).wf(),
            final(self).capacity() == old(self).capacity(),
            final(self).states() == old(self).states_after_add(item),
            final(self).live() == final(self).states().len() - 1,
            final(self).current() == item,
    {
        if self.live_index < self.stack.len() - 1 {
            self.stack.truncate(self.live_index + 1);
        }
        assert(self.stack@ =~= old(self).stack@.take(old(self).live_index + 1));

        self.live_index += 1;
        self.stack.push_back(item);

        if self.stack.len() > self.max_undo_count {
            let _ = self.stack.pop_front();
            self.live_index -= 1;
        }
    }

    /// Modify the state for the currently active undo group.
    /// This might be done if an edit occurs that combines with the previous undo,
    /// or if we want to save selection state.
    pub fn update_current_undo<F: FnOnce(T) -> T>(&mut self, f: F)
        requires
            old(self).wf(),
            call_requires(f, (old(self).current(),)),
        ensures
            final(self).wf(),
            final(self).capacity() == old(self).capacity(),
            final(self).live() == old(self).live(),
            final(self).states().len() == old(self).states().len(),
            call_ensures(f, (old(self).current(),), final(self).current()),
            forall|i: int|
                0 <= i < old(self).states().len() && i != old(self).live() ==> final(self).states()[i]
                    == old(self).states()[i],
    {
        let current = self.stack.remove(self.live_index).unwrap();
        let updated = f(current);
        self.stack.insert(self.live_index, updated);
    }
}

/// Redoing right after a successful undo gives back the stack as it was.
pub proof fn lemma_undo_then_redo<T>(s: UndoState<T>)
    requires
        s.wf(),
        s.live() > 0,
    ensures
        s.after_undo().wf(),
        s.after_undo().live() < s.after_undo().states().len() - 1,
        s.after_undo().after_redo() == s,
{
}

/// Undoing right after a successful redo gives back the stack as it was.
pub proof fn lemma_redo_then_undo<T>(s: UndoState<T>)
    requires
        s.wf(),
        s.live() < s.states().len() - 1,
    ensures
        s.after_redo().wf(),
        s.after_redo().live() > 0,
        s.after_redo().after_undo() == s,
{
}

/// After a new undo group is added, undo steps back to the state that was
/// current before, as long as the stack may hold two states.
pub proof fn lemma_add_then_undo<T>(s: UndoState<T>, item: T, t: UndoState<T>)
    requires
        s.wf(),
        s.capacity() >= 2,
        t.states() == s.states_after_add(item),
        t.live() == t.states().len() - 1,
    ensures
        t.live() > 0,
        t.states()[t.live() - 1] == s.current(),
        t.current() == item,
{
    let grown = s.states().take(s.live() + 1).push(item);
    assert(grown[s.live()] == s.current());
    if grown.len() > s.capacity() {
        assert(grown.drop_first()[s.live() - 1] == grown[s.live()]);
    }
}

} // verus!
