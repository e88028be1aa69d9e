use wasm_backtrace::{
    Arch, Backtrace, BoundaryRecord, CallRegionRecord, CallThreadState, Frame, FrameLimit,
    StackMemory, StackWalk, TraceError,
};

const BASE: usize = 0x1000;

/// A stack of `n` zeroed words starting at `BASE`, with `words` written in.
fn memory(n: usize, words: &[(usize, usize)]) -> StackMemory {
    let mut v = vec![0usize; n];
    for &(addr, value) in words {
        v[(addr - BASE) / 8] = value;
    }
    StackMemory::new(BASE, v)
}

/// Writes the linkage words of a region whose frames are `frames`
/// (innermost first) and whose last frame links to `trampoline_fp`.
fn link(words: &mut Vec<(usize, usize)>, frames: &[(usize, usize)], trampoline_fp: usize, host_pc: usize) {
    for i in 0..frames.len() {
        let fp = frames[i].1;
        if i + 1 < frames.len() {
            words.push((fp, frames[i + 1].1));
            words.push((fp + 8, frames[i + 1].0));
        } else {
            words.push((fp, trampoline_fp));
            words.push((fp + 8, host_pc));
        }
    }
}

fn zero_record() -> CallRegionRecord {
    CallRegionRecord { old_exit_pc: 0, old_exit_fp: 0, old_entry_sp: 0 }
}

fn state(limits: (usize, usize, usize), records: Vec<CallRegionRecord>) -> CallThreadState {
    CallThreadState {
        limits: BoundaryRecord {
            last_wasm_exit_pc: limits.0,
            last_wasm_exit_fp: limits.1,
            last_wasm_entry_sp: limits.2,
        },
        records,
    }
}

fn pairs(b: &Backtrace) -> Vec<(usize, usize)> {
    b.frames().iter().map(|f| (f.pc(), f.fp())).collect()
}

const REGION1: [(usize, usize); 3] = [(0xa0, 0x1000), (0xa1, 0x1020), (0xa2, 0x1040)];
const REGION2: [(usize, usize); 2] = [(0xb0, 0x1100), (0xb1, 0x1130)];

/// Region 1 bounded by 0x1060, region 2 by 0x1160.
fn two_region_memory() -> StackMemory {
    let mut words = Vec::new();
    link(&mut words, &REGION1, 0x1070, 0x5000);
    link(&mut words, &REGION2, 0x1170, 0x5001);
    memory(0x40, &words)
}

fn region2_record() -> CallRegionRecord {
    CallRegionRecord { old_exit_pc: 0xb0, old_exit_fp: 0x1100, old_entry_sp: 0x1160 }
}

#[test]
fn empty_context_yields_no_frames() {
    let mem = memory(4, &[]);
    let b = Backtrace::new(None, &mem, Arch::X86_64).unwrap();
    assert_eq!(b.frames().len(), 0);
    let s = CallThreadState::new(BoundaryRecord {
        last_wasm_exit_pc: 0,
        last_wasm_exit_fp: 0,
        last_wasm_entry_sp: 0,
    });
    let b = Backtrace::new(Some(&s), &mem, Arch::X86_64).unwrap();
    assert_eq!(b.frames().len(), 0);
    assert_eq!(Backtrace::empty().frames().len(), 0);
}

#[test]
fn single_region_in_order() {
    let mut words = Vec::new();
    link(&mut words, &REGION1, 0x1070, 0x5000);
    let mem = memory(0x20, &words);
    let s = state((0xa0, 0x1000, 0x1060), vec![zero_record()]);
    let b = Backtrace::new(Some(&s), &mem, Arch::X86_64).unwrap();
    assert_eq!(pairs(&b), REGION1.to_vec());
}

#[test]
fn single_region_stops_at_first_boundary_candidate() {
    // The last Wasm frame links to a frame pointer equal to the entry sp;
    // the words above it hold what would be a further, bogus frame.
    let mut words = Vec::new();
    link(&mut words, &REGION1, 0x1060, 0x5000);
    words.push((0x1060, 0x1080));
    words.push((0x1068, 0x9999));
    let mem = memory(0x20, &words);
    let s = state((0xa0, 0x1000, 0x1060), vec![zero_record()]);
    let b = Backtrace::new(Some(&s), &mem, Arch::X86_64).unwrap();
    assert_eq!(pairs(&b), REGION1.to_vec());
}

#[test]
fn s390x_boundary_is_strict() {
    // On s390x a saved frame pointer equal to the entry sp is still a Wasm
    // frame; the return address sits 112 bytes above the frame pointer.
    let words = vec![
        (0x1000, 0x1080),
        (0x1000 + 112, 0xc1),
        (0x1080, 0x1100),
        (0x1080 + 112, 0x5000),
    ];
    let mem = memory(0x40, &words);
    let s = state((0xc0, 0x1000, 0x1080), vec![zero_record()]);
    let b = Backtrace::new(Some(&s), &mem, Arch::S390x).unwrap();
    assert_eq!(pairs(&b), vec![(0xc0, 0x1000), (0xc1, 0x1080)]);
    let b = Backtrace::new(Some(&s), &mem, Arch::X86_64).unwrap();
    assert_eq!(pairs(&b), vec![(0xc0, 0x1000)]);
}

#[test]
fn two_regions_stitched() {
    let mem = two_region_memory();
    let s = state((0xa0, 0x1000, 0x1060), vec![region2_record(), zero_record()]);
    let b = Backtrace::new(Some(&s), &mem, Arch::X86_64).unwrap();
    let mut expected = REGION1.to_vec();
    expected.extend_from_slice(&REGION2);
    assert_eq!(pairs(&b), expected);
}

#[test]
fn vacuous_record_contributes_nothing() {
    let mem = two_region_memory();
    let s = state(
        (0xa0, 0x1000, 0x1060),
        vec![zero_record(), region2_record(), zero_record(), zero_record()],
    );
    let b = Backtrace::new(Some(&s), &mem, Arch::X86_64).unwrap();
    let mut expected = REGION1.to_vec();
    expected.extend_from_slice(&REGION2);
    assert_eq!(pairs(&b), expected);
}

#[test]
fn visitor_stopping_after_first_frame_sees_one() {
    let mem = two_region_memory();
    let s = state((0xa0, 0x1000, 0x1060), vec![region2_record(), zero_record()]);
    let mut v = FrameLimit::new(1);
    assert_eq!(Backtrace::trace(Some(&s), &mem, Arch::X86_64, &mut v), Ok(()));
    assert_eq!(v.frames().len(), 1);
    assert_eq!((v.frames()[0].pc(), v.frames()[0].fp()), (0xa0, 0x1000));

    // What lies beyond the stop is never looked at, even if it is broken.
    let broken = state((0xa0, 0x1000, 0x1060), vec![region2_record()]);
    let mut v = FrameLimit::new(1);
    assert_eq!(Backtrace::trace(Some(&broken), &mem, Arch::X86_64, &mut v), Ok(()));
    assert_eq!(v.frames().len(), 1);
}

#[test]
fn frame_limit_collects_up_to_limit() {
    let mem = two_region_memory();
    let s = state((0xa0, 0x1000, 0x1060), vec![region2_record(), zero_record()]);
    let mut v = FrameLimit::new(4);
    assert_eq!(Backtrace::trace(Some(&s), &mem, Arch::X86_64, &mut v), Ok(()));
    let got: Vec<(usize, usize)> = v.frames().iter().map(|f| (f.pc(), f.fp())).collect();
    assert_eq!(got, vec![(0xa0, 0x1000), (0xa1, 0x1020), (0xa2, 0x1040), (0xb0, 0x1100)]);

    let mut v = FrameLimit::new(100);
    assert_eq!(Backtrace::trace(Some(&s), &mem, Arch::X86_64, &mut v), Ok(()));
    assert_eq!(v.frames().len(), 5);
}

#[test]
fn visitor_sees_error_only_when_reached() {
    let mem = two_region_memory();
    let broken = state((0xa0, 0x1000, 0x1060), vec![region2_record()]);
    let mut v = FrameLimit::new(100);
    assert_eq!(
        Backtrace::trace(Some(&broken), &mem, Arch::X86_64, &mut v),
        Err(TraceError::NonVacuousSentinel)
    );
    assert_eq!(v.frames().len(), 3);
}

#[test]
fn length_is_total_frame_count() {
    let mem = two_region_memory();
    let s = state(
        (0xa0, 0x1000, 0x1060),
        vec![zero_record(), region2_record(), zero_record()],
    );
    let b = Backtrace::new(Some(&s), &mem, Arch::X86_64).unwrap();
    assert_eq!(b.frames().len(), REGION1.len() + REGION2.len());
}

#[test]
fn frames_are_repeatable() {
    let mem = two_region_memory();
    let s = state((0xa0, 0x1000, 0x1060), vec![region2_record(), zero_record()]);
    let b = Backtrace::new(Some(&s), &mem, Arch::X86_64).unwrap();
    let first: Vec<Frame> = b.frames().iter().copied().collect();
    let second: Vec<Frame> = b.frames().iter().copied().collect();
    assert_eq!(first, second);
}

#[test]
fn exit_fp_without_pc_is_fatal() {
    let mem = two_region_memory();
    let s = state((0, 0x1000, 0x1060), vec![zero_record()]);
    assert_eq!(
        Backtrace::new(Some(&s), &mem, Arch::X86_64).unwrap_err(),
        TraceError::ExitFpWithoutPc { fp: 0x1000 }
    );
}

#[test]
fn trap_state_overrides_live_record() {
    let mem = two_region_memory();
    // The live record says no Wasm is running; the trap handler knows better.
    let s = state((0, 0, 0x1060), vec![zero_record()]);
    let b = Backtrace::new_with_trap_state(&s, &mem, Arch::X86_64, Some((0xa1, 0x1020))).unwrap();
    assert_eq!(pairs(&b), vec![(0xa1, 0x1020), (0xa2, 0x1040)]);
}

#[test]
fn stack_walk_hands_out_frames_one_at_a_time() {
    let mem = two_region_memory();
    let s = state((0xa0, 0x1000, 0x1060), vec![region2_record(), zero_record()]);
    let mut w = StackWalk::new(&s, &mem, Arch::X86_64, None).unwrap();
    let mut got = Vec::new();
    while let Some(f) = w.next_frame(&s, &mem, Arch::X86_64).unwrap() {
        got.push((f.pc(), f.fp()));
    }
    let mut expected = REGION1.to_vec();
    expected.extend_from_slice(&REGION2);
    assert_eq!(got, expected);
    assert_eq!(w.next_frame(&s, &mem, Arch::X86_64), Ok(None));
}

#[test]
fn misaligned_fp_is_fatal() {
    let mem = two_region_memory();
    let s = state((0xa0, 0x1008, 0x1060), vec![zero_record()]);
    assert_eq!(
        Backtrace::new(Some(&s), &mem, Arch::X86_64).unwrap_err(),
        TraceError::MisalignedFp { fp: 0x1008 }
    );
}

#[test]
fn aarch64_accepts_any_fp_alignment() {
    let mem = memory(8, &[(0x1008, 0x1040), (0x1010, 0x5000)]);
    let s = state((0xa0, 0x1008, 0x1020), vec![zero_record()]);
    let b = Backtrace::new(Some(&s), &mem, Arch::Aarch64).unwrap();
    assert_eq!(pairs(&b), vec![(0xa0, 0x1008)]);
}

#[test]
fn misaligned_entry_sp_is_fatal() {
    let mem = two_region_memory();
    let s = state((0xa0, 0x1000, 0x1068), vec![zero_record()]);
    assert_eq!(
        Backtrace::new(Some(&s), &mem, Arch::X86_64).unwrap_err(),
        TraceError::MisalignedEntrySp { entry_sp: 0x1068 }
    );
}

#[test]
fn null_region_start_is_fatal() {
    let mem = two_region_memory();
    let s = state((0xa0, 0x1000, 0), vec![zero_record()]);
    assert_eq!(
        Backtrace::new(Some(&s), &mem, Arch::X86_64).unwrap_err(),
        TraceError::NullRegionStart { pc: 0xa0, fp: 0x1000, entry_sp: 0 }
    );
}

#[test]
fn fp_above_entry_sp_is_fatal() {
    let mem = two_region_memory();
    let s = state((0xa0, 0x1040, 0x1030), vec![zero_record()]);
    assert_eq!(
        Backtrace::new(Some(&s), &mem, Arch::X86_64).unwrap_err(),
        TraceError::FpAboveEntrySp { fp: 0x1040, entry_sp: 0x1030 }
    );
}

#[test]
fn fp_not_increasing_is_fatal() {
    let mem = memory(8, &[(0x1010, 0x1000), (0x1018, 0xa1)]);
    let s = state((0xa0, 0x1010, 0x1030), vec![zero_record()]);
    assert_eq!(
        Backtrace::new(Some(&s), &mem, Arch::X86_64).unwrap_err(),
        TraceError::FpNotIncreasing { fp: 0x1010, next_fp: 0x1000 }
    );
}

#[test]
fn unreadable_word_is_fatal() {
    let mem = memory(2, &[]);
    let s = state((0xa0, 0x1010, 0x1030), vec![zero_record()]);
    assert_eq!(
        Backtrace::new(Some(&s), &mem, Arch::X86_64).unwrap_err(),
        TraceError::UnreadableWord { addr: 0x1010, offset: 8 }
    );
}

#[test]
fn malformed_vacuous_record_is_fatal() {
    let mem = two_region_memory();
    let bad = CallRegionRecord { old_exit_pc: 0xb0, old_exit_fp: 0, old_entry_sp: 0 };
    let s = state((0xa0, 0x1000, 0x1060), vec![bad, zero_record()]);
    assert_eq!(
        Backtrace::new(Some(&s), &mem, Arch::X86_64).unwrap_err(),
        TraceError::MalformedVacuousRecord { index: 0 }
    );
}

#[test]
fn non_vacuous_sentinel_is_fatal() {
    let mem = two_region_memory();
    let s = state((0xa0, 0x1000, 0x1060), vec![region2_record()]);
    assert_eq!(
        Backtrace::new(Some(&s), &mem, Arch::X86_64).unwrap_err(),
        TraceError::NonVacuousSentinel
    );
}

#[test]
fn missing_sentinel_is_fatal() {
    let mem = two_region_memory();
    let s = state((0xa0, 0x1000, 0x1060), vec![]);
    assert_eq!(
        Backtrace::new(Some(&s), &mem, Arch::X86_64).unwrap_err(),
        TraceError::MissingSentinel
    );
}

#[test]
fn frame_accessors() {
    let f = Frame { pc: 3, fp: 0x40 };
    assert_eq!(f.pc(), 3);
    assert_eq!(f.fp(), 0x40);
}

#[test]
fn arch_primitives() {
    assert_eq!(Arch::X86_64.next_older_pc_offset(), 8);
    assert_eq!(Arch::S390x.next_older_pc_offset(), 112);
    assert!(Arch::X86_64.reached_entry_sp(0x100, 0x100));
    assert!(!Arch::S390x.reached_entry_sp(0x100, 0x100));
    assert!(Arch::S390x.reached_entry_sp(0x108, 0x100));
    assert!(!Arch::Riscv64.entry_sp_is_aligned(0x108));
    assert!(Arch::S390x.entry_sp_is_aligned(0x108));
    assert!(Arch::Aarch64.fp_is_aligned(0x101));
    assert!(!Arch::X86_64.fp_is_aligned(0x108));
}

#[test]
fn memory_reads() {
    let mem = memory(3, &[(0x1008, 7), (0x1010, 9)]);
    assert_eq!(mem.read(0x1000, 8), Some(7));
    assert_eq!(mem.read(0x1010, 0), Some(9));
    assert_eq!(mem.read(0x1018, 0), None);
    assert_eq!(mem.read(0x1004, 0), None);
    assert_eq!(mem.read(0xff8, 8), Some(0));
    assert_eq!(mem.read(usize::MAX, 8), None);
}
