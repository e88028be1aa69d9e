//! Frame-pointer stack walking for Wasm backtraces.
//!
//! A capture reconstructs the Wasm frames on a thread's stack, innermost
//! first, by chasing frame pointers through each contiguous region of Wasm
//! frames and stitching the regions together with the boundary state that
//! the native/Wasm trampolines record.
pub mod arch;
pub mod backtrace;
pub mod laws;
pub mod memory;
pub mod state;
pub mod walk;

pub use arch::Arch;
pub use backtrace::{Backtrace, Frame, FrameLimit, FrameVisitor};
pub use memory::StackMemory;
pub use state::{BoundaryRecord, CallRegionRecord, CallThreadState};
pub use walk::{StackWalk, TraceError};
