//! What a capture returns on well-formed stacks, and how it fails on
//! malformed boundary state.
use vstd::prelude::*;

use crate::arch::Arch;
use crate::backtrace::{feed, Frame, FrameLimit, FrameVisitor};
use crate::memory::StackMemory;
use crate::state::{CallRegionRecord, CallThreadState};
use crate::walk::{
    capture_outcome, innermost_exit, outcome_err, outcome_ok, region_loop, region_walk, regions_walk,
    TraceError,
};

verus! {

/// `frames`, innermost first, are linked in `mem` as one contiguous Wasm
/// region entered at `entry_sp`: each frame's linkage words give the pc and
/// fp of the next older frame, frame pointers are aligned, strictly
/// increasing and at or below `entry_sp`, and the saved frame pointer of the
/// last frame reaches the trampoline.
pub open spec fn is_linked_region(
    mem: StackMemory,
    arch: Arch,
    frames: Seq<Frame>,
    entry_sp: usize,
) -> bool {
    let off = arch.spec_pc_offset();
    let n = frames.len();
    &&& n > 0
    &&& forall|k: int|
        0 <= k < n ==> {
            &&& #[trigger] frames[k].fp <= entry_sp
            &&& arch.spec_fp_aligned(frames[k].fp)
            &&& mem.word_at_offset(frames[k].fp, off) is Some
        }
    &&& forall|k: int|
        0 <= k < n - 1 ==> {
            &&& mem.word_at_offset(#[trigger] frames[k].fp, off) == Some(frames[k + 1].pc)
            &&& mem.word_at_offset(frames[k].fp, 0) == Some(frames[k + 1].fp)
            &&& frames[k].fp < frames[k + 1].fp
            &&& !arch.spec_reached_entry_sp(frames[k + 1].fp, entry_sp)
        }
    &&& mem.word_at_offset(frames[n - 1].fp, 0) matches Some(next_fp)
        && arch.spec_reached_entry_sp(next_fp, entry_sp)
}

/// A linked region whose entry point and bound are valid region bounds.
pub open spec fn is_region(mem: StackMemory, arch: Arch, frames: Seq<Frame>, entry_sp: usize) -> bool {
    &&& is_linked_region(mem, arch, frames, entry_sp)
    &&& frames[0].pc != 0
    &&& frames[0].fp != 0
    &&& entry_sp != 0
    &&& arch.spec_entry_sp_aligned(entry_sp)
}

/// `rec` describes the region `frames`: a vacuous, all-zero record when
/// `frames` is empty.
pub open spec fn region_recorded(
    mem: StackMemory,
    arch: Arch,
    rec: CallRegionRecord,
    frames: Seq<Frame>,
) -> bool {
    if frames.len() == 0 {
        rec.is_zero()
    } else {
        &&& rec.old_exit_pc == frames[0].pc
        &&& rec.old_exit_fp == frames[0].fp
        &&& is_region(mem, arch, frames, rec.old_entry_sp)
    }
}

/// The call-region records describe `regions` in order and end with the
/// sentinel.
pub open spec fn records_describe(
    mem: StackMemory,
    arch: Arch,
    records: Seq<CallRegionRecord>,
    regions: Seq<Seq<Frame>>,
) -> bool {
    &&& records.len() == regions.len() + 1
    &&& records.last().is_zero()
    &&& forall|i: int|
        0 <= i < regions.len() ==> #[trigger] region_recorded(mem, arch, records[i], regions[i])
}

/// The thread's stack holds the innermost region `inner`, whose exit point
/// the live boundary record holds, and the older `regions` that its
/// call-region records describe.
pub open spec fn is_stack(
    state: CallThreadState,
    mem: StackMemory,
    arch: Arch,
    inner: Seq<Frame>,
    regions: Seq<Seq<Frame>>,
) -> bool {
    &&& is_region(mem, arch, inner, state.limits.last_wasm_entry_sp)
    &&& state.limits.last_wasm_exit_pc == inner[0].pc
    &&& state.limits.last_wasm_exit_fp == inner[0].fp
    &&& records_describe(mem, arch, state.records@, regions)
}

/// Walking a linked region yields exactly its frames, in order, and stops
/// at the first saved frame pointer that reaches the entry stack pointer.
pub proof fn lemma_region_loop_exact(mem: StackMemory, arch: Arch, frames: Seq<Frame>, entry_sp: usize)
    requires
        is_linked_region(mem, arch, frames, entry_sp),
    ensures
        region_loop(mem, arch, frames[0].pc, frames[0].fp, entry_sp) == outcome_ok(frames),
    decreases frames.len(),
{
    let f0 = frames[0];
    if frames.len() == 1 {
        assert(frames =~= seq![f0]);
    } else {
        let rest = frames.drop_first();
        assert forall|k: int| 0 <= k < rest.len() implies {
            &&& #[trigger] rest[k].fp <= entry_sp
            &&& arch.spec_fp_aligned(rest[k].fp)
            &&& mem.word_at_offset(rest[k].fp, arch.spec_pc_offset()) is Some
        } by {
            assert(rest[k] == frames[k + 1]);
        }
        assert forall|k: int| 0 <= k < rest.len() - 1 implies {
            &&& mem.word_at_offset(#[trigger] rest[k].fp, arch.spec_pc_offset()) == Some(rest[k + 1].pc)
            &&& mem.word_at_offset(rest[k].fp, 0) == Some(rest[k + 1].fp)
            &&& rest[k].fp < rest[k + 1].fp
            &&& !arch.spec_reached_entry_sp(rest[k + 1].fp, entry_sp)
        } by {
            assert(rest[k] == frames[k + 1]);
            assert(rest[k + 1] == frames[k + 2]);
        }
        assert(rest[rest.len() - 1] == frames[frames.len() - 1]);
        lemma_region_loop_exact(mem, arch, rest, entry_sp);
        assert(frames =~= seq![f0] + rest);
    }
}

/// Walking a well-formed region, entry checks included, yields exactly its
/// frames.
pub proof fn lemma_region_walk_exact(mem: StackMemory, arch: Arch, frames: Seq<Frame>, entry_sp: usize)
    requires
        is_region(mem, arch, frames, entry_sp),
    ensures
        region_walk(mem, arch, frames[0].pc, frames[0].fp, entry_sp) == outcome_ok(frames),
{
    lemma_region_loop_exact(mem, arch, frames, entry_sp);
}

/// The saved regions from index `i` on are walked exactly, in order.
pub proof fn lemma_regions_walk_exact(
    mem: StackMemory,
    arch: Arch,
    records: Seq<CallRegionRecord>,
    regions: Seq<Seq<Frame>>,
    i: nat,
)
    requires
        records_describe(mem, arch, records, regions),
        i <= regions.len(),
    ensures
        regions_walk(mem, arch, records, i) == outcome_ok(
            regions.subrange(i as int, regions.len() as int).flatten(),
        ),
    decreases regions.len() - i,
{
    let n = regions.len() as int;
    let tail = regions.subrange(i as int, n);
    if i == regions.len() {
        assert(tail =~= Seq::<Seq<Frame>>::empty());
    } else {
        let frames = regions[i as int];
        assert(region_recorded(mem, arch, records[i as int], frames));
        lemma_regions_walk_exact(mem, arch, records, regions, i + 1);
        assert(tail.first() == frames);
        assert(tail.drop_first() =~= regions.subrange(i as int + 1, n));
        if frames.len() == 0 {
            assert(frames + regions.subrange(i as int + 1, n).flatten() =~= regions.subrange(
                i as int + 1,
                n,
            ).flatten());
        } else {
            lemma_region_walk_exact(mem, arch, frames, records[i as int].old_entry_sp);
        }
    }
}

/// On a well-formed stack a capture returns every frame of the innermost
/// region followed by every frame of each older region, most recent first,
/// with nothing repeated, reordered or left out; so its length is the total
/// number of frames.
pub proof fn lemma_capture_exact(
    state: CallThreadState,
    mem: StackMemory,
    arch: Arch,
    inner: Seq<Frame>,
    regions: Seq<Seq<Frame>>,
)
    requires
        is_stack(state, mem, arch, inner, regions),
    ensures
        capture_outcome(state, mem, arch, None) == outcome_ok(inner + regions.flatten()),
        capture_outcome(state, mem, arch, None).frames.len() == inner.len()
            + regions.flatten().len(),
{
    lemma_region_walk_exact(mem, arch, inner, state.limits.last_wasm_entry_sp);
    lemma_regions_walk_exact(mem, arch, state.records@, regions, 0);
    assert(regions.subrange(0, regions.len() as int) =~= regions);
}

/// With no Wasm on the stack, a capture returns no frames.
pub proof fn lemma_no_wasm_is_empty(state: CallThreadState, mem: StackMemory, arch: Arch)
    requires
        state.limits.last_wasm_exit_pc == 0,
        state.limits.last_wasm_exit_fp == 0,
    ensures
        capture_outcome(state, mem, arch, None) == outcome_ok(Seq::empty()),
{
}

/// An exit frame pointer without an exit pc breaks the boundary record's
/// invariant, and the capture fails on it before reading any memory.
pub proof fn lemma_exit_fp_without_pc(
    state: CallThreadState,
    mem: StackMemory,
    arch: Arch,
    trap_pc_and_fp: Option<(usize, usize)>,
    fp: usize,
)
    requires
        fp != 0,
        innermost_exit(state, trap_pc_and_fp) == (0usize, fp),
    ensures
        capture_outcome(state, mem, arch, trap_pc_and_fp) == outcome_err(
            TraceError::ExitFpWithoutPc { fp },
        ),
{
}

/// A vacuous record contributes no frames, and the walk goes on to the
/// older records.
pub proof fn lemma_vacuous_record_skipped(
    mem: StackMemory,
    arch: Arch,
    records: Seq<CallRegionRecord>,
    i: nat,
)
    requires
        i + 1 < records.len(),
        records[i as int].is_zero(),
    ensures
        regions_walk(mem, arch, records, i) == regions_walk(mem, arch, records, i + 1),
{
}

/// A visitor that stops at the first frame it is shown sees that frame only,
/// however many frames the capture holds, and the walk ends without error.
pub proof fn lemma_stop_at_first<T: FrameVisitor>(model: T::V, frames: Seq<Frame>)
    requires
        frames.len() > 0,
        T::stops_at(model, frames[0]),
    ensures
        feed::<T>(model, frames) == (T::after(model, frames[0]), true),
{
}

/// A visitor limited to one frame keeps exactly the innermost frame of any
/// non-empty capture and stops the walk there.
pub proof fn lemma_limit_one_keeps_innermost(frames: Seq<Frame>)
    requires
        frames.len() > 0,
    ensures
        feed::<FrameLimit>((1nat, Seq::empty()), frames) == ((1nat, seq![frames[0]]), true),
{
    lemma_stop_at_first::<FrameLimit>((1nat, Seq::empty()), frames);
    assert(Seq::<Frame>::empty().push(frames[0]) =~= seq![frames[0]]);
}

} // verus!
