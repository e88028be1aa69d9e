//! Per-architecture stack-walking primitives.
//!
//! Every supported target keeps its saved previous frame pointer in the word
//! that the frame pointer addresses; they differ in where the return address
//! lives, in how the end of a contiguous Wasm region is recognised, and in
//! the alignment that the ABI guarantees.
use vstd::prelude::*;

verus! {

/// Offset, in bytes, from a frame pointer to the saved previous frame pointer.
pub const NEXT_OLDER_FP_FROM_FP_OFFSET: usize = 0;

/// A target architecture whose Wasm frames can be walked.
#[derive(Clone, Copy, Debug, PartialEq, Eq, Structural)]
pub enum Arch {
    X86_64,
    Aarch64,
    S390x,
    Riscv64,
}

impl Arch {
    /// Byte offset from a frame pointer to the return address of that frame.
    pub open spec fn spec_pc_offset(self) -> usize {
        match self {
            // %r14 is saved in slot 14 of the register save area.
            Arch::S390x => 112,
            _ => 8,
        }
    }

    /// Whether `fp` has left the Wasm region that was entered at `entry_sp`.
    pub open spec fn spec_reached_entry_sp(self, fp: usize, entry_sp: usize) -> bool {
        match self {
            // Stack arguments may sit between the trampoline and the first
            // Wasm frame, so only a frame pointer strictly above counts.
            Arch::S390x => fp > entry_sp,
            _ => fp >= entry_sp,
        }
    }

    pub open spec fn spec_entry_sp_aligned(self, sp: usize) -> bool {
        match self {
            Arch::S390x => sp % 8 == 0,
            _ => sp % 16 == 0,
        }
    }

    pub open spec fn spec_fp_aligned(self, fp: usize) -> bool {
        match self {
            Arch::X86_64 | Arch::Riscv64 => fp % 16 == 0,
            Arch::S390x => fp % 8 == 0,
            // AAPCS64 leaves the frame record's place in the frame open.
            Arch::Aarch64 => true,
        }
    }

    /// Byte offset from a frame pointer to the return address of that frame.
    pub fn next_older_pc_offset(self) -> (r: usize)
        ensures
            r == self.spec_pc_offset(),
    {
        match self {
            Arch::S390x => 112,
            _ => 8,
        }
    }

    /// Whether the walk has reached the trampoline frame of the region.
    pub fn reached_entry_sp(self, fp: usize, entry_sp: usize) -> (r: bool)
        ensures
            r == self.spec_reached_entry_sp(fp, entry_sp),
    {
        match self {
            Arch::S390x => fp > entry_sp,
            _ => fp >= entry_sp,
        }
    }

    pub fn entry_sp_is_aligned(self, sp: usize) -> (r: bool)
        ensures
            r == self.spec_entry_sp_aligned(sp),
    {
        match self {
            Arch::S390x => sp % 8 == 0,
            _ => sp % 16 == 0,
        }
    }

    pub fn fp_is_aligned(self, fp: usize) -> (r: bool)
        ensures
            r == self.spec_fp_aligned(fp),
    {
        match self {
            Arch::X86_64 | Arch::Riscv64 => fp % 16 == 0,
            Arch::S390x => fp % 8 == 0,
            Arch::Aarch64 => true,
        }
    }
}

} // verus!
