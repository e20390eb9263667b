//! A chunk of zeroed memory that is handed out front to back, eight bytes
//! at a time.
use vstd::prelude::*;

verus! {

pub struct MemoryChunk {
    /// The words handed out so far.
    memory: Vec<u64>,
    /// Bytes that may be handed out in all.
    capacity: usize,
}

impl MemoryChunk {
    /// The invariant of the chunk: no more is handed out than there is.
    pub closed spec fn wf(&self) -> bool {
        8 * self.memory@.len() <= self.capacity
    }

    /// The words handed out so far, in address order.
    pub closed spec fn words(&self) -> Seq<u64> {
        self.memory@
    }

    /// The number of bytes that may be handed out in all.
    pub closed spec fn limit(&self) -> int {
        self.capacity as int
    }

    /// The chunk never holds more words than `usize` can count in bytes.
    pub proof fn lemma_bounds(&self)
        requires
            self.wf(),
        ensures
            8 * self.words().len() <= self.limit() <= usize::MAX,
    {
    }

    pub fn new(capacity: usize) -> (r: MemoryChunk)
        ensures
            r.wf(),
            r.words().len() == 0,
            r.limit() == capacity,
    {
        MemoryChunk { memory: Vec::new(), capacity }
    }

    /// The number of bytes handed out so far.
    pub fn used(&self) -> (r: usize)
        requires
            self.wf(),
        ensures
            r == 8 * self.words().len(),
            r <= self.limit(),
    {
        self.memory.len() * 8
    }

    /// Hands out the next `required_size` bytes, zeroed, and returns their
    /// offset and their size; `None`, and nothing changes, where they do
    /// not fit.
    pub fn allocate(&mut self, required_size: usize) -> (r: Option<(usize, usize)>)
        requires
            old(self).wf(),
            required_size % 8 == 0,
        ensures
            final(self).wf(),
            final(self).limit() == old(self).limit(),
            8 * old(self).words().len() + required_size <= old(self).limit() ==> (r matches Some(
                (offset, size),
            ) && offset == 8 * old(self).words().len() && size == required_size) && final(self).words() == old(self).words() + Seq::new((required_size / 8) as nat, |i: int| 0u64),
            8 * old(self).words().len() + required_size > old(self).limit() ==> r is None
                && final(self).words() == old(self).words(),
    {
        let offset = self.used();
        if required_size > self.capacity - offset {
            return None;
        }
        let count: usize = required_size / 8;
        let mut i: usize = 0;
        while i < count
            invariant
                i <= count,
                count == required_size / 8,
                required_size % 8 == 0,
                offset == 8 * old(self).words().len(),
                offset + required_size <= self.capacity,
                self.capacity == old(self).capacity,
                self.memory@ == old(self).memory@ + Seq::new(i as nat, |k: int| 0u64),
            decreases count - i,
        {
            self.memory.push(0);
            assert(self.memory@ =~= old(self).memory@ + Seq::new((i + 1) as nat, |k: int| 0u64));
            i += 1;
        }
        Some((offset, required_size))
    }

    /// The word at position `index`, counted in words from the start.
    pub fn read(&self, index: usize) -> (r: Option<u64>)
        ensures
            index < self.words().len() ==> r == Some(self.words()[index as int]),
            index >= self.words().len() ==> r is None,
    {
        if index < self.memory.len() {
            Some(self.memory[index])
        } else {
            None
        }
    }

    /// Stores `word` at position `index`; returns whether there is such a
    /// position.
    pub fn write(&mut self, index: usize, word: u64) -> (r: bool)
        requires
            old(self).wf(),
        ensures
            final(self).wf(),
            final(self).limit() == old(self).limit(),
            r == (index < old(self).words().len()),
            r ==> final(self).words() == old(self).words().update(index as int, word),
            !r ==> final(self).words() == old(self).words(),
    {
        if index < self.memory.len() {
            self.memory.set(index, word);
            true
        } else {
            false
        }
    }

    /// Takes everything back: nothing is handed out any more.
    pub fn reset(&mut self)
        ensures
            final(self).wf(),
            final(self).words().len() == 0,
            final(self).limit() == old(self).limit(),
    {
        self.memory.clear();
    }
}

} // verus!
