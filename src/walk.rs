//! The frame-pointer walk, stated as spec functions, and a walker that
//! produces its frames one at a time.
//!
//! A capture first walks the innermost contiguous Wasm region, which begins
//! at the live boundary record's exit point (or at the state a trap handler
//! passes in) and is bounded by its entry stack pointer. It then walks, most
//! recent first, the region that each saved call-region record describes,
//! skipping vacuous records, until it reaches the sentinel.
use vstd::prelude::*;

use crate::arch::{Arch, NEXT_OLDER_FP_FROM_FP_OFFSET};
use crate::backtrace::Frame;
use crate::memory::StackMemory;
use crate::state::{CallRegionRecord, CallThreadState};

verus! {

/// A broken invariant of the stack or of the boundary state. A capture that
/// meets one stops: continuing would follow pointers that cannot be trusted.
#[derive(Clone, Copy, Debug, PartialEq, Eq, Structural)]
pub enum TraceError {
    /// The exit pc is zero while the exit fp is not.
    ExitFpWithoutPc { fp: usize },
    /// A region was to be walked from a zero pc, fp or entry stack pointer.
    NullRegionStart { pc: usize, fp: usize, entry_sp: usize },
    /// A region's entry stack pointer is not aligned as the ABI requires.
    MisalignedEntrySp { entry_sp: usize },
    /// A frame pointer is not aligned as the ABI requires.
    MisalignedFp { fp: usize },
    /// A frame pointer lies above its region's entry stack pointer.
    FpAboveEntrySp { fp: usize, entry_sp: usize },
    /// The saved previous frame pointer is not above the current one.
    FpNotIncreasing { fp: usize, next_fp: usize },
    /// The word at `addr + offset` could not be read.
    UnreadableWord { addr: usize, offset: usize },
    /// A vacuous call-region record carries a non-zero exit pc or fp.
    MalformedVacuousRecord { index: usize },
    /// The oldest call-region record is not all zeros.
    NonVacuousSentinel,
    /// The call-region records end without a sentinel.
    MissingSentinel,
}

/// What a walk produces: the frames it emits, innermost first, and the
/// broken invariant that stopped it, if one did.
pub struct WalkOutcome {
    pub frames: Seq<Frame>,
    pub error: Option<TraceError>,
}

pub open spec fn outcome_ok(frames: Seq<Frame>) -> WalkOutcome {
    WalkOutcome { frames, error: None }
}

pub open spec fn outcome_err(e: TraceError) -> WalkOutcome {
    WalkOutcome { frames: Seq::empty(), error: Some(e) }
}

pub open spec fn prepend(frame: Frame, o: WalkOutcome) -> WalkOutcome {
    WalkOutcome { frames: seq![frame] + o.frames, error: o.error }
}

/// `a` followed by `b`, unless `a` stopped on an error.
pub open spec fn then(a: WalkOutcome, b: WalkOutcome) -> WalkOutcome {
    if a.error is Some {
        a
    } else {
        WalkOutcome { frames: a.frames + b.frames, error: b.error }
    }
}

/// The frames of a region from the frame `(pc, fp)` outward, up to the
/// trampoline frame that entered the region at `entry_sp`.
pub open spec fn region_loop(
    mem: StackMemory,
    arch: Arch,
    pc: usize,
    fp: usize,
    entry_sp: usize,
) -> WalkOutcome
    decreases entry_sp - fp,
{
    if fp > entry_sp {
        outcome_err(TraceError::FpAboveEntrySp { fp, entry_sp })
    } else if !arch.spec_fp_aligned(fp) {
        outcome_err(TraceError::MisalignedFp { fp })
    } else {
        let frame = Frame { pc, fp };
        let off = arch.spec_pc_offset();
        match mem.word_at_offset(fp, off) {
            None => prepend(frame, outcome_err(TraceError::UnreadableWord { addr: fp, offset: off })),
            Some(next_pc) => match mem.word_at_offset(fp, NEXT_OLDER_FP_FROM_FP_OFFSET) {
                None => prepend(
                    frame,
                    outcome_err(
                        TraceError::UnreadableWord { addr: fp, offset: NEXT_OLDER_FP_FROM_FP_OFFSET },
                    ),
                ),
                Some(next_fp) => if arch.spec_reached_entry_sp(next_fp, entry_sp) {
                    outcome_ok(seq![frame])
                } else if next_fp <= fp {
                    prepend(frame, outcome_err(TraceError::FpNotIncreasing { fp, next_fp }))
                } else {
                    prepend(frame, region_loop(mem, arch, next_pc, next_fp, entry_sp))
                },
            },
        }
    }
}

/// The error that forbids walking a region from `(pc, fp)` bounded by
/// `entry_sp`, if there is one.
pub open spec fn region_start_error(arch: Arch, pc: usize, fp: usize, entry_sp: usize) -> Option<
    TraceError,
> {
    if pc == 0 || fp == 0 || entry_sp == 0 {
        Some(TraceError::NullRegionStart { pc, fp, entry_sp })
    } else if !arch.spec_entry_sp_aligned(entry_sp) {
        Some(TraceError::MisalignedEntrySp { entry_sp })
    } else {
        None
    }
}

/// The walk of one contiguous Wasm region.
pub open spec fn region_walk(
    mem: StackMemory,
    arch: Arch,
    pc: usize,
    fp: usize,
    entry_sp: usize,
) -> WalkOutcome {
    match region_start_error(arch, pc, fp, entry_sp) {
        Some(e) => outcome_err(e),
        None => region_loop(mem, arch, pc, fp, entry_sp),
    }
}

/// The walk of the regions saved in `records`, from index `i` on.
pub open spec fn regions_walk(
    mem: StackMemory,
    arch: Arch,
    records: Seq<CallRegionRecord>,
    i: nat,
) -> WalkOutcome
    decreases records.len() - i,
{
    if i >= records.len() {
        outcome_err(TraceError::MissingSentinel)
    } else {
        let r = records[i as int];
        if i + 1 == records.len() {
            if r.is_zero() {
                outcome_ok(Seq::empty())
            } else {
                outcome_err(TraceError::NonVacuousSentinel)
            }
        } else if r.is_vacuous() {
            if r.old_exit_pc == 0 && r.old_exit_fp == 0 {
                regions_walk(mem, arch, records, i + 1)
            } else {
                outcome_err(TraceError::MalformedVacuousRecord { index: i as usize })
            }
        } else {
            then(
                region_walk(mem, arch, r.old_exit_pc, r.old_exit_fp, r.old_entry_sp),
                regions_walk(mem, arch, records, i + 1),
            )
        }
    }
}

/// The exit pc and fp where the innermost region begins.
pub open spec fn innermost_exit(state: CallThreadState, trap_pc_and_fp: Option<(usize, usize)>) -> (
    usize,
    usize,
) {
    match trap_pc_and_fp {
        Some(p) => p,
        None => (state.limits.last_wasm_exit_pc, state.limits.last_wasm_exit_fp),
    }
}

/// The whole capture: every Wasm frame on the stack, innermost first.
pub open spec fn capture_outcome(
    state: CallThreadState,
    mem: StackMemory,
    arch: Arch,
    trap_pc_and_fp: Option<(usize, usize)>,
) -> WalkOutcome {
    let (pc, fp) = innermost_exit(state, trap_pc_and_fp);
    if pc == 0 {
        if fp == 0 {
            outcome_ok(Seq::empty())
        } else {
            outcome_err(TraceError::ExitFpWithoutPc { fp })
        }
    } else {
        then(
            region_walk(mem, arch, pc, fp, state.limits.last_wasm_entry_sp),
            regions_walk(mem, arch, state.records@, 0),
        )
    }
}

/// How one call of [`StackWalk::next_frame`] relates what was left of the
/// walk before it to what is left after it.
pub open spec fn advanced(
    before: WalkOutcome,
    after: WalkOutcome,
    r: Result<Option<Frame>, TraceError>,
) -> bool {
    match r {
        Ok(Some(f)) => {
            &&& before.frames.len() > 0
            &&& before.frames[0] == f
            &&& after.frames == before.frames.drop_first()
            &&& after.error == before.error
        },
        Ok(None) => before == outcome_ok(Seq::empty()) && after == outcome_ok(Seq::empty()),
        Err(e) => before == outcome_err(e) && after == outcome_ok(Seq::empty()),
    }
}

/// Checks that a region may be walked from `(pc, fp)` up to `entry_sp`.
fn check_region_start(arch: Arch, pc: usize, fp: usize, entry_sp: usize) -> (r: Result<
    (),
    TraceError,
>)
    ensures
        r is Ok <==> region_start_error(arch, pc, fp, entry_sp) is None,
        r matches Err(e) ==> region_start_error(arch, pc, fp, entry_sp) == Some(e),
{
    if pc == 0 || fp == 0 || entry_sp == 0 {
        Err(TraceError::NullRegionStart { pc, fp, entry_sp })
    } else if !arch.entry_sp_is_aligned(entry_sp) {
        Err(TraceError::MisalignedEntrySp { entry_sp })
    } else {
        Ok(())
    }
}

/// A walk in progress, which hands out the captured frames one at a time,
/// innermost first. The caller may stop asking at any frame.
pub struct StackWalk {
    next_record: usize,
    in_region: bool,
    pc: usize,
    fp: usize,
    entry_sp: usize,
    pending: Option<TraceError>,
    done: bool,
}

impl StackWalk {
    /// What is left of the walk over `state` and `mem`.
    pub closed spec fn remaining(
        &self,
        state: CallThreadState,
        mem: StackMemory,
        arch: Arch,
    ) -> WalkOutcome {
        if self.done {
            outcome_ok(Seq::empty())
        } else if let Some(e) = self.pending {
            outcome_err(e)
        } else if self.in_region {
            then(
                region_loop(mem, arch, self.pc, self.fp, self.entry_sp),
                regions_walk(mem, arch, state.records@, self.next_record as nat),
            )
        } else {
            regions_walk(mem, arch, state.records@, self.next_record as nat)
        }
    }

    /// Starts a capture. With `trap_pc_and_fp`, the innermost frame is the
    /// one a trap interrupted; otherwise it is the live boundary record's
    /// exit point.
    pub fn new(
        state: &CallThreadState,
        mem: &StackMemory,
        arch: Arch,
        trap_pc_and_fp: Option<(usize, usize)>,
    ) -> (r: Result<StackWalk, TraceError>)
        ensures
            match r {
                Ok(w) => w.remaining(*state, *mem, arch) == capture_outcome(
                    *state,
                    *mem,
                    arch,
                    trap_pc_and_fp,
                ),
                Err(e) => capture_outcome(*state, *mem, arch, trap_pc_and_fp) == outcome_err(e),
            },
    {
        let (pc, fp) = match trap_pc_and_fp {
            Some(p) => p,
            None => (state.limits.last_wasm_exit_pc, state.limits.last_wasm_exit_fp),
        };
        let mut w = StackWalk {
            next_record: 0,
            in_region: false,
            pc,
            fp,
            entry_sp: state.limits.last_wasm_entry_sp,
            pending: None,
            done: false,
        };
        if pc == 0 {
            if fp != 0 {
                return Err(TraceError::ExitFpWithoutPc { fp });
            }
            w.done = true;
            return Ok(w);
        }
        match check_region_start(arch, pc, fp, w.entry_sp) {
            Err(e) => Err(e),
            Ok(()) => {
                w.in_region = true;
                Ok(w)
            },
        }
    }

    /// The next frame of the walk; `Ok(None)` once the walk is complete.
    pub fn next_frame(&mut self, state: &CallThreadState, mem: &StackMemory, arch: Arch) -> (r:
        Result<Option<Frame>, TraceError>)
        ensures
            advanced(
                old(self).remaining(*state, *mem, arch),
                final(self).remaining(*state, *mem, arch),
                r,
            ),
    {
        if self.done {
            return Ok(None);
        }
        if let Some(e) = self.pending {
            self.done = true;
            return Err(e);
        }
        let ghost before = self.remaining(*state, *mem, arch);
        loop
            invariant
                !self.done,
                self.pending is None,
                self.remaining(*state, *mem, arch) == before,
                before == old(self).remaining(*state, *mem, arch),
            decreases state.records@.len() - self.next_record,
        {
            if self.in_region {
                return self.step_region(state, mem, arch);
            }
            let i = self.next_record;
            if i >= state.records.len() {
                self.done = true;
                return Err(TraceError::MissingSentinel);
            }
            let rec = state.records[i];
            if i + 1 == state.records.len() {
                self.done = true;
                if rec.old_exit_pc == 0 && rec.old_exit_fp == 0 && rec.old_entry_sp == 0 {
                    return Ok(None);
                }
                return Err(TraceError::NonVacuousSentinel);
            }
            if rec.old_entry_sp == 0 {
                if rec.old_exit_pc != 0 || rec.old_exit_fp != 0 {
                    self.done = true;
                    return Err(TraceError::MalformedVacuousRecord { index: i });
                }
                self.next_record = i + 1;
            } else {
                match check_region_start(arch, rec.old_exit_pc, rec.old_exit_fp, rec.old_entry_sp) {
                    Err(e) => {
                        self.done = true;
                        return Err(e);
                    },
                    Ok(()) => {
                        self.next_record = i + 1;
                        self.pc = rec.old_exit_pc;
                        self.fp = rec.old_exit_fp;
                        self.entry_sp = rec.old_entry_sp;
                        self.in_region = true;
                    },
                }
            }
        }
    }

    /// Emits the current frame of a region and moves to the next older one.
    fn step_region(&mut self, state: &CallThreadState, mem: &StackMemory, arch: Arch) -> (r: Result<
        Option<Frame>,
        TraceError,
    >)
        requires
            !old(self).done,
            old(self).pending is None,
            old(self).in_region,
        ensures
            advanced(
                old(self).remaining(*state, *mem, arch),
                final(self).remaining(*state, *mem, arch),
                r,
            ),
    {
        let ghost rest = regions_walk(*mem, arch, state.records@, self.next_record as nat);
        let ghost before = self.remaining(*state, *mem, arch);
        let pc = self.pc;
        let fp = self.fp;
        let entry_sp = self.entry_sp;
        if fp > entry_sp {
            self.done = true;
            return Err(TraceError::FpAboveEntrySp { fp, entry_sp });
        }
        if !arch.fp_is_aligned(fp) {
            self.done = true;
            return Err(TraceError::MisalignedFp { fp });
        }
        let frame = Frame { pc, fp };
        let off = arch.next_older_pc_offset();
        match mem.read(fp, off) {
            None => {
                self.pending = Some(TraceError::UnreadableWord { addr: fp, offset: off });
            },
            Some(next_pc) => match mem.read(fp, NEXT_OLDER_FP_FROM_FP_OFFSET) {
                None => {
                    self.pending = Some(
                        TraceError::UnreadableWord { addr: fp, offset: NEXT_OLDER_FP_FROM_FP_OFFSET },
                    );
                },
                Some(next_fp) => {
                    if arch.reached_entry_sp(next_fp, entry_sp) {
                        self.in_region = false;
                    } else if next_fp <= fp {
                        self.pending = Some(TraceError::FpNotIncreasing { fp, next_fp });
                    } else {
                        self.pc = next_pc;
                        self.fp = next_fp;
                    }
                },
            },
        }
        proof {
            let after = self.remaining(*state, *mem, arch);
            assert(before.frames =~= seq![frame] + after.frames);
            assert(after.frames =~= before.frames.drop_first());
        }
        Ok(Some(frame))
    }
}

} // verus!
