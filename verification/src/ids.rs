use vstd::prelude::*;

verus! {

/// A source of sequential numeric ids: each call to `next_id` hands out the
/// current value and advances the counter by one, wrapping at `u32::MAX`.
pub struct IdCounter {
    next: u32,
}

impl View for IdCounter {
    type V = u32;

    open spec fn view(&self) -> u32 {
        self.next_value()
    }
}

impl IdCounter {
    /// The id that the next call to `next_id` hands out.
    pub closed spec fn next_value(&self) -> u32 {
        self.next
    }

    /// A counter whose first id is 0.
    pub fn new() -> (c: Self)
        ensures
            c@ == 0,
    {
        IdCounter { next: 0 }
    }

    /// Hand out the current id and advance the counter (wrapping on overflow).
    pub fn next_id(&mut self) -> (id: u32)
        ensures
            id == old(self)@,
            final(self)@ == (if old(self)@ == u32::MAX { 0 } else { (old(self)@ + 1) as u32 }),
    {
        let id = self.next;
        self.next = self.next.wrapping_add(1);
        id
    }
}

} // verus!
