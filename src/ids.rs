use vstd::prelude::*;

verus! {

/// A monotonic counter that hands out identifiers `0, 1, 2, ...`.
///
/// Running out of identifiers is a fatal condition: `allocate` demands that
/// the counter is not yet exhausted, which a caller checks with `can_allocate`.
#[derive(Debug, Clone, Copy, PartialEq, Eq, Structural)]
pub struct IdCounter {
    pub next: usize,
}

impl IdCounter {
    pub fn new() -> (r: IdCounter)
        ensures
            r.next == 0,
    {
        IdCounter { next: 0 }
    }

    /// Whether another identifier can still be handed out.
    pub fn can_allocate(&self) -> (r: bool)
        ensures
            r == (self.next < usize::MAX),
    {
        self.next < usize::MAX
    }

    /// Hands out the next identifier.
    pub fn allocate(&mut self) -> (r: usize)
        requires
            old(self).next < usize::MAX,
        ensures
            r == old(self).next,
            final(self).next == old(self).next + 1,
    {
        let r = self.next;
        self.next = self.next + 1;
        r
    }
}

/// Identifies a timer uniquely within one run of the program.
#[derive(Debug, Clone, Copy, PartialEq, Eq, Structural, PartialOrd, Ord, Hash)]
pub struct TimerId {
    pub id: usize,
}

impl TimerId {
    /// Generates a new, unique `TimerId` from the timer counter.
    pub fn new(counter: &mut IdCounter) -> (r: TimerId)
        requires
            old(counter).next < usize::MAX,
        ensures
            r.id == old(counter).next,
            final(counter).next == old(counter).next + 1,
    {
        TimerId { id: counter.allocate() }
    }
}

} // verus!
