//! A word-addressed view of stack memory.
//!
//! All reads of stack words made by the walker go through
//! [`StackMemory::read`], which answers `None` for an address outside the
//! stored range or not on a word boundary.
use vstd::prelude::*;

verus! {

/// Size in bytes of one stack word.
pub const WORD_SIZE: usize = 8;

/// Consecutive stack words, the first of them at address `base`.
pub struct StackMemory {
    pub base: usize,
    pub words: Vec<usize>,
}

impl StackMemory {
    /// The word stored at byte address `addr`, if that address is readable.
    pub open spec fn word_at(&self, addr: int) -> Option<usize> {
        let d = addr - self.base;
        if 0 <= d && addr <= usize::MAX && d % 8 == 0 && d / 8 < self.words@.len() {
            Some(self.words@[d / 8])
        } else {
            None
        }
    }

    /// The word at `addr + offset`.
    pub open spec fn word_at_offset(&self, addr: usize, offset: usize) -> Option<usize> {
        self.word_at(addr + offset)
    }

    pub fn new(base: usize, words: Vec<usize>) -> (r: StackMemory)
        ensures
            r.base == base,
            r.words@ == words@,
    {
        StackMemory { base, words }
    }

    /// Reads the word at byte address `addr + offset`.
    pub fn read(&self, addr: usize, offset: usize) -> (r: Option<usize>)
        ensures
            r == self.word_at_offset(addr, offset),
    {
        if offset > usize::MAX - addr {
            return None;
        }
        let a = addr + offset;
        if a < self.base {
            return None;
        }
        let d = a - self.base;
        if d % WORD_SIZE != 0 {
            return None;
        }
        let i = d / WORD_SIZE;
        if i < self.words.len() {
            Some(self.words[i])
        } else {
            None
        }
    }
}

} // verus!
