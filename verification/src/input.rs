//! Bounded queue of buffered directional intents.

use vstd::prelude::*;

verus! {

use crate::INPUT_BUFFER_CAP;
use crate::geometry::SnakeDirection;

/// FIFO backlog of at most `INPUT_BUFFER_CAP` pending directions, oldest
/// first. A direction pressed while the backlog is full is dropped.
pub struct InputBuffer {
    pub queue: Vec<SnakeDirection>,
}

impl InputBuffer {
    pub open spec fn wf(self) -> bool {
        self.queue@.len() <= INPUT_BUFFER_CAP
    }

    pub fn new() -> (b: InputBuffer)
        ensures
            b.wf(),
            b.queue@ == Seq::<SnakeDirection>::empty(),
    {
        InputBuffer { queue: Vec::new() }
    }

    pub fn len(&self) -> (n: usize)
        ensures
            n == self.queue@.len(),
    {
        self.queue.len()
    }

    /// Append this frame's detected direction unless the backlog is full;
    /// a full backlog silently drops it.
    pub fn push(&mut self, dir: SnakeDirection)
        requires
            old(self).wf(),
        ensures
            final(self).wf(),
            old(self).queue@.len() < INPUT_BUFFER_CAP ==> final(self).queue@ == old(
                self,
            ).queue@.push(dir),
            old(self).queue@.len() >= INPUT_BUFFER_CAP ==> final(self).queue@ == old(
                self,
            ).queue@,
    {
        if self.queue.len() < INPUT_BUFFER_CAP {
            self.queue.push(dir);
        }
    }

    /// Pop the oldest buffered direction, if any.
    pub fn pop(&mut self) -> (r: Option<SnakeDirection>)
        requires
            old(self).wf(),
        ensures
            final(self).wf(),
            old(self).queue@.len() == 0 ==> r is None && final(self).queue@ == old(self).queue@,
            old(self).queue@.len() > 0 ==> r == Some(old(self).queue@[0]) && final(self).queue@
                == old(self).queue@.subrange(1, old(self).queue@.len() as int),
    {
        if self.queue.len() == 0 {
            None
        } else {
            Some(self.queue.remove(0))
        }
    }
}

} // verus!
