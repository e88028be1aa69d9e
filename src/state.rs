//! The boundary state recorded by the native/Wasm transition trampolines.
use vstd::prelude::*;

verus! {

/// The most recent native/Wasm transition of a thread.
///
/// `last_wasm_exit_pc` is zero exactly when `last_wasm_exit_fp` is: no Wasm
/// is then on top of the native call stack.
#[derive(Clone, Copy, Debug, PartialEq, Eq, Structural)]
pub struct BoundaryRecord {
    pub last_wasm_exit_pc: usize,
    pub last_wasm_exit_fp: usize,
    pub last_wasm_entry_sp: usize,
}

/// A snapshot of the boundary record, saved when a native call that may
/// reenter Wasm began.
///
/// A record whose `old_entry_sp` is zero is vacuous: the call never entered
/// Wasm, and its exit pc and fp are zero too.
#[derive(Clone, Copy, Debug, PartialEq, Eq, Structural)]
pub struct CallRegionRecord {
    pub old_exit_pc: usize,
    pub old_exit_fp: usize,
    pub old_entry_sp: usize,
}

impl CallRegionRecord {
    pub open spec fn is_vacuous(self) -> bool {
        self.old_entry_sp == 0
    }

    pub open spec fn is_zero(self) -> bool {
        self.old_exit_pc == 0 && self.old_exit_fp == 0 && self.old_entry_sp == 0
    }
}

/// The boundary state of one thread: the live boundary record and the stack
/// of saved snapshots, most recent first.
///
/// Each snapshot's previous (older) record is the one after it; the last
/// record has none and is the vacuous sentinel.
pub struct CallThreadState {
    pub limits: BoundaryRecord,
    pub records: Vec<CallRegionRecord>,
}

impl CallThreadState {
    /// A thread that has saved no call regions: only the sentinel is present.
    pub fn new(limits: BoundaryRecord) -> (r: CallThreadState)
        ensures
            r.limits == limits,
            r.records@ == seq![CallRegionRecord { old_exit_pc: 0, old_exit_fp: 0, old_entry_sp: 0 }],
    {
        let sentinel = CallRegionRecord { old_exit_pc: 0, old_exit_fp: 0, old_entry_sp: 0 };
        CallThreadState { limits, records: vec![sentinel] }
    }
}

} // verus!
