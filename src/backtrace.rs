//! Wasm backtraces: the frames of every contiguous Wasm region on a thread's
//! stack, innermost first, with the host frames between regions skipped.
use vstd::prelude::*;

use std::ops::ControlFlow;

use crate::arch::Arch;
use crate::memory::StackMemory;
use crate::state::CallThreadState;
use crate::walk::{capture_outcome, StackWalk, TraceError, WalkOutcome};

verus! {

/// A stack frame within a Wasm stack trace.
#[derive(Clone, Copy, Debug, PartialEq, Eq, Structural)]
pub struct Frame {
    pub pc: usize,
    pub fp: usize,
}

impl Frame {
    /// This frame's program counter.
    pub fn pc(&self) -> (r: usize)
        ensures
            r == self.pc,
    {
        self.pc
    }

    /// This frame's frame pointer.
    pub fn fp(&self) -> (r: usize)
        ensures
            r == self.fp,
    {
        self.fp
    }
}

/// Receives the frames of a capture, innermost first, and decides after
/// each whether the walk goes on.
///
/// Its state is described by its view: `after` gives the view once a frame
/// was seen, and `stops_at` whether that frame ends the walk.
pub trait FrameVisitor: View + Sized {
    spec fn stops_at(model: Self::V, frame: Frame) -> bool;

    spec fn after(model: Self::V, frame: Frame) -> Self::V;

    fn visit(&mut self, frame: Frame) -> (r: ControlFlow<()>)
        ensures
            final(self)@ == Self::after(old(self)@, frame),
            r == (if Self::stops_at(old(self)@, frame) {
                ControlFlow::Break(())
            } else {
                ControlFlow::Continue(())
            }),
    ;
}

/// The view of a visitor shown `frames` in order, up to the first frame at
/// which it stops, and whether it stopped.
pub open spec fn feed<T: FrameVisitor>(model: T::V, frames: Seq<Frame>) -> (T::V, bool)
    decreases frames.len(),
{
    if frames.len() == 0 {
        (model, false)
    } else if T::stops_at(model, frames[0]) {
        (T::after(model, frames[0]), true)
    } else {
        feed::<T>(T::after(model, frames[0]), frames.drop_first())
    }
}

/// A vector collects every frame and never stops the walk.
impl FrameVisitor for Vec<Frame> {
    open spec fn stops_at(model: Seq<Frame>, frame: Frame) -> bool {
        false
    }

    open spec fn after(model: Seq<Frame>, frame: Frame) -> Seq<Frame> {
        model.push(frame)
    }

    fn visit(&mut self, frame: Frame) -> (r: ControlFlow<()>) {
        self.push(frame);
        ControlFlow::Continue(())
    }
}

/// A collecting vector ends up with every frame appended.
pub proof fn lemma_collect_all(model: Seq<Frame>, frames: Seq<Frame>)
    ensures
        feed::<Vec<Frame>>(model, frames) == (model + frames, false),
    decreases frames.len(),
{
    if frames.len() > 0 {
        lemma_collect_all(model.push(frames[0]), frames.drop_first());
        assert(model.push(frames[0]) + frames.drop_first() =~= model + frames);
    } else {
        assert(model + frames =~= model);
    }
}

/// Collects frames until it holds `limit` of them, then stops the walk. The
/// walk shows a visitor at least one frame, so a limit of zero keeps one.
pub struct FrameLimit {
    limit: usize,
    frames: Vec<Frame>,
}

impl View for FrameLimit {
    type V = (nat, Seq<Frame>);

    closed spec fn view(&self) -> (nat, Seq<Frame>) {
        (self.limit as nat, self.frames@)
    }
}

impl FrameLimit {
    pub fn new(limit: usize) -> (r: FrameLimit)
        ensures
            r@ == (limit as nat, Seq::<Frame>::empty()),
    {
        FrameLimit { limit, frames: Vec::new() }
    }

    /// The frames collected so far, innermost first.
    pub fn frames(&self) -> (r: &[Frame])
        ensures
            r@ == self@.1,
    {
        self.frames.as_slice()
    }
}

impl FrameVisitor for FrameLimit {
    open spec fn stops_at(model: (nat, Seq<Frame>), frame: Frame) -> bool {
        model.1.len() + 1 >= model.0
    }

    open spec fn after(model: (nat, Seq<Frame>), frame: Frame) -> (nat, Seq<Frame>) {
        (model.0, model.1.push(frame))
    }

    fn visit(&mut self, frame: Frame) -> (r: ControlFlow<()>) {
        self.frames.push(frame);
        if self.frames.len() >= self.limit {
            ControlFlow::Break(())
        } else {
            ControlFlow::Continue(())
        }
    }
}

/// A WebAssembly stack trace: frames innermost first.
#[derive(Debug)]
pub struct Backtrace(Vec<Frame>);

impl View for Backtrace {
    type V = Seq<Frame>;

    closed spec fn view(&self) -> Seq<Frame> {
        self.0@
    }
}

impl Backtrace {
    /// The backtrace with no frames.
    pub fn empty() -> (r: Backtrace)
        ensures
            r@ == Seq::<Frame>::empty(),
    {
        Backtrace(Vec::new())
    }

    /// Captures the Wasm stack of the thread whose boundary state is `state`
    /// (`None` for a thread that never entered Wasm).
    pub fn new(state: Option<&CallThreadState>, mem: &StackMemory, arch: Arch) -> (r: Result<
        Backtrace,
        TraceError,
    >)
        ensures
            match state {
                None => r matches Ok(b) && b@ == Seq::<Frame>::empty(),
                Some(s) => {
                    let o = capture_outcome(*s, *mem, arch, None);
                    match r {
                        Ok(b) => o.error is None && b@ == o.frames,
                        Err(e) => o.error == Some(e),
                    }
                },
            },
    {
        match state {
            Some(s) => Self::new_with_trap_state(s, mem, arch, None),
            None => Ok(Backtrace(Vec::new())),
        }
    }

    /// Captures the Wasm stack. A trap handler passes the pc and fp of the
    /// trapping frame, which the exit trampoline had no chance to record.
    pub fn new_with_trap_state(
        state: &CallThreadState,
        mem: &StackMemory,
        arch: Arch,
        trap_pc_and_fp: Option<(usize, usize)>,
    ) -> (r: Result<Backtrace, TraceError>)
        ensures
            ({
                let o = capture_outcome(*state, *mem, arch, trap_pc_and_fp);
                match r {
                    Ok(b) => o.error is None && b@ == o.frames,
                    Err(e) => o.error == Some(e),
                }
            }),
    {
        let mut frames: Vec<Frame> = Vec::new();
        let r = Self::trace_with_trap_state(state, mem, arch, trap_pc_and_fp, &mut frames);
        proof {
            lemma_collect_all(Seq::empty(), capture_outcome(*state, *mem, arch, trap_pc_and_fp).frames);
            assert(Seq::<Frame>::empty() + capture_outcome(*state, *mem, arch, trap_pc_and_fp).frames
                =~= capture_outcome(*state, *mem, arch, trap_pc_and_fp).frames);
        }
        match r {
            Ok(()) => Ok(Backtrace(frames)),
            Err(e) => Err(e),
        }
    }

    /// Walks the Wasm stack of the thread whose boundary state is `state`
    /// (`None` for a thread that never entered Wasm), showing each frame to
    /// `visitor`.
    pub fn trace<T: FrameVisitor>(
        state: Option<&CallThreadState>,
        mem: &StackMemory,
        arch: Arch,
        visitor: &mut T,
    ) -> (r: Result<(), TraceError>)
        ensures
            match state {
                None => r is Ok && final(visitor)@ == old(visitor)@,
                Some(s) => traced::<T>(
                    capture_outcome(*s, *mem, arch, None),
                    old(visitor)@,
                    final(visitor)@,
                    r,
                ),
            },
    {
        match state {
            Some(s) => Self::trace_with_trap_state(s, mem, arch, None, visitor),
            None => Ok(()),
        }
    }

    /// Walks the Wasm stack, showing each frame to `visitor` until it asks
    /// to stop. A trap handler passes the pc and fp of the trapping frame.
    pub fn trace_with_trap_state<T: FrameVisitor>(
        state: &CallThreadState,
        mem: &StackMemory,
        arch: Arch,
        trap_pc_and_fp: Option<(usize, usize)>,
        visitor: &mut T,
    ) -> (r: Result<(), TraceError>)
        ensures
            traced::<T>(
                capture_outcome(*state, *mem, arch, trap_pc_and_fp),
                old(visitor)@,
                final(visitor)@,
                r,
            ),
    {
        let ghost all = capture_outcome(*state, *mem, arch, trap_pc_and_fp);
        let mut walk = match StackWalk::new(state, mem, arch, trap_pc_and_fp) {
            Ok(w) => w,
            Err(e) => return Err(e),
        };
        loop
            invariant
                all == capture_outcome(*state, *mem, arch, trap_pc_and_fp),
                feed::<T>(old(visitor)@, all.frames) == feed::<T>(
                    visitor@,
                    walk.remaining(*state, *mem, arch).frames,
                ),
                walk.remaining(*state, *mem, arch).error == all.error,
            decreases walk.remaining(*state, *mem, arch).frames.len(),
        {
            let ghost rem = walk.remaining(*state, *mem, arch).frames;
            match walk.next_frame(state, mem, arch) {
                Ok(Some(frame)) => {
                    let ghost seen = visitor@;
                    if let ControlFlow::Break(()) = visitor.visit(frame) {
                        assert(feed::<T>(seen, rem) == (visitor@, true));
                        return Ok(());
                    }
                    assert(feed::<T>(seen, rem) == feed::<T>(visitor@, rem.drop_first()));
                },
                Ok(None) => {
                    assert(feed::<T>(visitor@, rem) == (visitor@, false));
                    return Ok(());
                },
                Err(e) => {
                    assert(feed::<T>(visitor@, rem) == (visitor@, false));
                    return Err(e);
                },
            }
        }
    }

    /// Iterates over the frames of this backtrace, innermost first.
    pub fn frames(&self) -> (r: &[Frame])
        ensures
            r@ == self@,
    {
        self.0.as_slice()
    }
}

/// How a trace over the capture `o` leaves a visitor that started with view
/// `before`: it saw the frames of `o` up to the first at which it stopped,
/// and an error is reported only if the walk reached it.
pub open spec fn traced<T: FrameVisitor>(
    o: WalkOutcome,
    before: T::V,
    after: T::V,
    r: Result<(), TraceError>,
) -> bool {
    let (m, stopped) = feed::<T>(before, o.frames);
    &&& after == m
    &&& r == (if !stopped && o.error is Some {
        Err(o.error->0)
    } else {
        Ok(())
    })
}

} // verus!
