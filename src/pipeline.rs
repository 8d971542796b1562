//! Two sample buffers handed back and forth between software, which fills
//! them, and the pulse generator, which streams them.
//!
//! At any instant a buffer is either being filled by software or being
//! streamed by the hardware, never both, and at most one buffer streams.
use vstd::prelude::*;

verus! {

/// Who owns a sample buffer.
#[derive(Clone, Copy, Debug, PartialEq, Eq, Structural)]
pub enum BufferState {
    /// Owned by software, which may write it.
    Filling,
    /// Owned by the pulse generator, which reads it.
    Streaming,
}

/// The two sample buffers and their ownership.
pub struct DoubleBuffer {
    buffer0: Vec<u16>,
    buffer1: Vec<u16>,
    state0: BufferState,
    state1: BufferState,
}

/// The buffer that is not `k`.
pub open spec fn other(k: int) -> int {
    1 - k
}

impl DoubleBuffer {
    /// The contents of buffer `k`.
    pub closed spec fn contents(&self, k: int) -> Seq<u16> {
        if k == 0 {
            self.buffer0@
        } else {
            self.buffer1@
        }
    }

    /// The owner of buffer `k`.
    pub closed spec fn state(&self, k: int) -> BufferState {
        if k == 0 {
            self.state0
        } else {
            self.state1
        }
    }

    /// Both buffers have length `len`, and they do not stream together.
    pub open spec fn wf(&self, len: nat) -> bool {
        &&& self.contents(0).len() == len
        &&& self.contents(1).len() == len
        &&& !(self.state(0) == BufferState::Streaming && self.state(1) == BufferState::Streaming)
    }

    /// Both buffers are owned by software.
    pub open spec fn idle(&self) -> bool {
        self.state(0) == BufferState::Filling && self.state(1) == BufferState::Filling
    }

    /// Two buffers of `len` samples each, all zero, both owned by software.
    pub fn new(len: usize) -> (r: DoubleBuffer)
        ensures
            r.wf(len as nat),
            r.idle(),
            r.contents(0) == Seq::new(len as nat, |i: int| 0u16),
            r.contents(1) == Seq::new(len as nat, |i: int| 0u16),
    {
        let mut b0: Vec<u16> = Vec::new();
        let mut b1: Vec<u16> = Vec::new();
        let mut i: usize = 0;
        while i < len
            invariant
                i <= len,
                b0@ == Seq::new(i as nat, |j: int| 0u16),
                b1@ == Seq::new(i as nat, |j: int| 0u16),
            decreases len - i,
        {
            b0.push(0);
            b1.push(0);
            i = i + 1;
            assert(b0@ =~= Seq::new(i as nat, |j: int| 0u16));
            assert(b1@ =~= Seq::new(i as nat, |j: int| 0u16));
        }
        DoubleBuffer {
            buffer0: b0,
            buffer1: b1,
            state0: BufferState::Filling,
            state1: BufferState::Filling,
        }
    }

    /// The owner of buffer `k`.
    pub fn state_of(&self, k: usize) -> (r: BufferState)
        requires
            k < 2,
        ensures
            r == self.state(k as int),
    {
        if k == 0 {
            self.state0
        } else {
            self.state1
        }
    }

    /// Read access to buffer `k`, as the pulse generator has it.
    pub fn buffer(&self, k: usize) -> (r: &[u16])
        requires
            k < 2,
        ensures
            r@ == self.contents(k as int),
    {
        if k == 0 {
            self.buffer0.as_slice()
        } else {
            self.buffer1.as_slice()
        }
    }

    /// Write access to buffer `k`, which software must own.
    pub fn buffer_mut(&mut self, k: usize) -> (r: &mut [u16])
        requires
            k < 2,
            old(self).state(k as int) == BufferState::Filling,
        ensures
            r@ == old(self).contents(k as int),
            final(self).contents(k as int) == final(r)@,
            final(self).contents(other(k as int)) == old(self).contents(other(k as int)),
            final(self).state(0) == old(self).state(0),
            final(self).state(1) == old(self).state(1),
    {
        if k == 0 {
            self.buffer0.as_mut_slice()
        } else {
            self.buffer1.as_mut_slice()
        }
    }

    /// Hands buffer `k` to the pulse generator when playback begins.
    pub fn start(&mut self, k: usize)
        requires
            k < 2,
            old(self).idle(),
        ensures
            final(self).state(k as int) == BufferState::Streaming,
            final(self).state(other(k as int)) == BufferState::Filling,
            final(self).contents(0) == old(self).contents(0),
            final(self).contents(1) == old(self).contents(1),
    {
        if k == 0 {
            self.state0 = BufferState::Streaming;
        } else {
            self.state1 = BufferState::Streaming;
        }
    }

    /// The pulse generator has finished streaming buffer `k`: the other
    /// buffer streams next, and `k` goes back to software to be refilled.
    /// Returns the buffer whose streaming must be started.
    pub fn sequence_end(&mut self, k: usize) -> (next: usize)
        requires
            k < 2,
            old(self).state(k as int) == BufferState::Streaming,
        ensures
            next == other(k as int),
            final(self).state(next as int) == BufferState::Streaming,
            final(self).state(k as int) == BufferState::Filling,
            final(self).contents(0) == old(self).contents(0),
            final(self).contents(1) == old(self).contents(1),
    {
        if k == 0 {
            self.state0 = BufferState::Filling;
            self.state1 = BufferState::Streaming;
            1
        } else {
            self.state1 = BufferState::Filling;
            self.state0 = BufferState::Streaming;
            0
        }
    }

    /// Takes both buffers back from the pulse generator. Stopping twice is
    /// the same as stopping once.
    pub fn stop(&mut self)
        ensures
            final(self).idle(),
            final(self).contents(0) == old(self).contents(0),
            final(self).contents(1) == old(self).contents(1),
    {
        self.state0 = BufferState::Filling;
        self.state1 = BufferState::Filling;
    }
}

} // verus!
