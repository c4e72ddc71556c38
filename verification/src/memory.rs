//! A limit on the memory that is allocated.
use vstd::prelude::*;

verus! {

/// The most memory that may be allocated at one time, in bytes.
pub const TOTAL_MEM_LIMIT_BYTES: usize = 128 * 1024 * 1024;

/// The count after a piece of memory was asked for: with it, if it may be allocated.
pub open spec fn counted(before: int, len: usize) -> int {
    if before + len <= TOTAL_MEM_LIMIT_BYTES {
        before + len
    } else {
        before
    }
}

/// The count after the system was asked for a piece of memory that was counted: without it, unless
/// the system gave it.
pub open spec fn settled(count: int, len: usize, given: bool) -> int {
    if given {
        count
    } else {
        count - len
    }
}

/// Only memory that is really allocated is counted: a piece that the system does not give leaves the
/// count as it was, and so does one that is not even asked for because it would go over the limit.
pub proof fn law_only_given_memory_is_counted(before: int, len: usize, given: bool)
    ensures
        if before + len <= TOTAL_MEM_LIMIT_BYTES {
            settled(counted(before, len), len, given) == if given { before + len } else { before }
        } else {
            counted(before, len) == before
        },
{
}

/// Keeps count of the memory that is allocated, and refuses what would go over the limit.
pub struct MemoryLimitingAllocator {
    /// How many bytes are allocated.
    pub allocd: usize,
}

impl MemoryLimitingAllocator {
    /// The count is within the limit.
    pub open spec fn wf(&self) -> bool {
        self.allocd <= TOTAL_MEM_LIMIT_BYTES
    }

    /// Nothing is allocated.
    pub fn new() -> (allocator: Self)
        ensures
            allocator.wf(),
            allocator.allocd == 0,
    {
        MemoryLimitingAllocator { allocd: 0 }
    }

    /// Tells whether a piece of memory is small enough to be worth counting at all.
    pub fn may_fit(len: usize) -> (fits: bool)
        ensures
            fits == (len <= TOTAL_MEM_LIMIT_BYTES),
    {
        len <= TOTAL_MEM_LIMIT_BYTES
    }

    /// Tells whether a piece of memory may be allocated, given the count before it was added.
    ///
    /// Where several threads share a count, each adds its piece first, asks this of what the count
    /// was before, and takes the piece off again if the answer is no, or if the system then does not
    /// give it.
    pub fn admits(before: usize, len: usize) -> (admitted: bool)
        ensures
            admitted == (before + len <= TOTAL_MEM_LIMIT_BYTES),
    {
        len <= TOTAL_MEM_LIMIT_BYTES && before <= TOTAL_MEM_LIMIT_BYTES - len
    }

    /// Counts a piece of memory, if it may be allocated. `settle` is told what came of it.
    pub fn allocate(&mut self, len: usize) -> (granted: bool)
        requires
            old(self).wf(),
        ensures
            final(self).wf(),
            granted == (old(self).allocd + len <= TOTAL_MEM_LIMIT_BYTES),
            final(self).allocd == counted(old(self).allocd as int, len),
    {
        if !MemoryLimitingAllocator::may_fit(len) {
            return false;
        }
        if !MemoryLimitingAllocator::admits(self.allocd, len) {
            return false;
        }
        self.allocd = self.allocd + len;
        true
    }

    /// Takes a piece of memory that was counted off again, unless the system gave it.
    pub fn settle(&mut self, len: usize, given: bool)
        requires
            old(self).wf(),
            len <= old(self).allocd,
        ensures
            final(self).wf(),
            final(self).allocd == settled(old(self).allocd as int, len, given),
    {
        if !given {
            self.deallocate(len);
        }
    }

    /// Takes a piece of memory off the count, once it is given back.
    pub fn deallocate(&mut self, len: usize)
        requires
            old(self).wf(),
            len <= old(self).allocd,
        ensures
            final(self).wf(),
            final(self).allocd == old(self).allocd - len,
    {
        self.allocd = self.allocd - len;
    }
}

/// A count that several threads share, split into what it is made of. It is taken to be large enough
/// for all the pieces that the threads add at one time.
pub struct SharedCount {
    /// What the threads read.
    pub counter: int,
    /// The pieces that are allocated.
    pub granted: int,
    /// The pieces that were refused, and are still to be taken off.
    pub refused: int,
}

/// What a thread does to the count at one moment.
pub enum CountOp {
    /// Adds a piece that may fit, and decides by what the count was before.
    Add { len: usize },
    /// Takes off a piece that was refused.
    TakeOff { len: usize },
    /// Takes off a piece that is given back, or that the system did not give.
    GiveBack { len: usize },
}

/// Whether a thread can do this: it adds no piece that is too large by itself, and takes off only what
/// was added.
pub open spec fn count_op_ok(count: SharedCount, op: CountOp) -> bool {
    match op {
        CountOp::Add { len } => len <= TOTAL_MEM_LIMIT_BYTES,
        CountOp::TakeOff { len } => len <= count.refused,
        CountOp::GiveBack { len } => len <= count.granted,
    }
}

/// The count after it.
pub open spec fn count_op(count: SharedCount, op: CountOp) -> SharedCount {
    match op {
        CountOp::Add { len } => if count.counter + len <= TOTAL_MEM_LIMIT_BYTES {
            SharedCount { counter: count.counter + len, granted: count.granted + len, ..count }
        } else {
            SharedCount { counter: count.counter + len, refused: count.refused + len, ..count }
        },
        CountOp::TakeOff { len } => SharedCount {
            counter: count.counter - len,
            refused: count.refused - len,
            ..count
        },
        CountOp::GiveBack { len } => SharedCount {
            counter: count.counter - len,
            granted: count.granted - len,
            ..count
        },
    }
}

/// The count after several threads have done these things, in any order; `None` if one of them cannot
/// be done.
pub open spec fn count_run(ops: Seq<CountOp>) -> Option<SharedCount>
    decreases ops.len(),
{
    if ops.len() == 0 {
        Some(SharedCount { counter: 0, granted: 0, refused: 0 })
    } else {
        match count_run(ops.drop_last()) {
            Some(count) => if count_op_ok(count, ops.last()) {
                Some(count_op(count, ops.last()))
            } else {
                None
            },
            None => None,
        }
    }
}

/// However several threads interleave, what is allocated stays within the limit, and the count is what
/// is allocated together with what is still to be taken off.
pub proof fn law_limit_holds(ops: Seq<CountOp>)
    ensures
        count_run(ops) matches Some(count) ==> {
            &&& 0 <= count.granted <= TOTAL_MEM_LIMIT_BYTES
            &&& 0 <= count.refused
            &&& count.counter == count.granted + count.refused
        },
    decreases ops.len(),
{
    if ops.len() > 0 {
        law_limit_holds(ops.drop_last());
    }
}

} // verus!
