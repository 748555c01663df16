//! Capture-side state machine: DMA-driven chunked capture into a circular
//! buffer.  Each completion advances the chunk index; when the buffer
//! wraps, the cross-core ready flag is raised so the consumers pick up the
//! finished window.  A completion that arrives while the transfer is not
//! actually done is treated as spurious: nothing changes and nothing is
//! re-armed.  Otherwise the next chunk is always re-armed immediately, so
//! capture never stalls.

use vstd::prelude::*;

verus! {

/// Length of the circular capture buffer, in sample words (two blocks).
pub const DMABUF_LEN: usize = 384;

/// Length of one DMA chunk, in sample words.
pub const DMA_CHUNK_LEN: usize = 64;

/// What the completion handler decides to do.
#[derive(Clone, Copy, Debug, PartialEq, Eq, Structural)]
pub enum CaptureAction {
    /// The transfer was not actually finished: log and return without
    /// re-arming (a bug guard, not normal flow).
    Spurious,
    /// Re-arm the next chunk at this buffer offset; the flag says whether
    /// a full buffer was just completed (the ready flag must be raised).
    Rearm(usize, bool),
}

/// Capture state: the offset at which the chunk now in flight lands.
pub struct CaptureState {
    pub idx: usize,
}

impl CaptureState {
    /// The index stays a chunk-aligned offset inside the buffer.
    pub open spec fn wf(self) -> bool {
        &&& self.idx < 384
        &&& self.idx % 64 == 0
    }

    /// Fresh capture state: the first chunk lands at the buffer start.
    pub fn new() -> (r: CaptureState)
        ensures
            r.wf(),
            r.idx == 0,
    {
        CaptureState { idx: 0 }
    }

    /// Handle one DMA-completion signal.  A spurious signal (transfer not
    /// done) changes nothing.  Otherwise the chunk index advances by one
    /// chunk; on reaching the end of the buffer it wraps to zero and the
    /// ready flag is to be raised.  The returned action carries the offset
    /// to re-arm.
    pub fn on_chunk_complete(&mut self, transfer_done: bool) -> (r: CaptureAction)
        requires
            old(self).wf(),
        ensures
            final(self).wf(),
            !transfer_done ==> final(self).idx == old(self).idx && r == CaptureAction::Spurious,
            transfer_done ==> {
                &&& final(self).idx == (if old(self).idx + 64 >= 384 {
                    0int
                } else {
                    old(self).idx + 64
                })
                &&& r == CaptureAction::Rearm(final(self).idx, old(self).idx + 64 >= 384)
            },
    {
        if !transfer_done {
            return CaptureAction::Spurious;
        }
        let next = self.idx + 64;
        if next >= 384 {
            self.idx = 0;
            CaptureAction::Rearm(0, true)
        } else {
            self.idx = next;
            CaptureAction::Rearm(next, false)
        }
    }
}

} // verus!
