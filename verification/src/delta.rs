//! Absorption of a seek delta: the gap between a requested seek frame and
//! the earlier position a container actually landed on.
//!
//! A backend that can only seek to certain frames runs this little state
//! machine over the packets it decodes after the seek: whole packets are
//! skipped while the remaining delta exceeds them, and the first packet
//! that straddles the target is exposed from the right offset, so the
//! first frame of real output is exactly the requested one.

use vstd::prelude::*;

verus! {

/// The pending frames-to-skip after an inaccurate seek. `remaining == 0`
/// means the delta is satisfied and output flows unshifted.
pub struct DeltaAbsorber {
    remaining: usize,
}

impl DeltaAbsorber {
    /// The frames still to be skipped.
    pub closed spec fn remaining_spec(&self) -> nat {
        self.remaining as nat
    }

    /// Starts absorbing the gap between the requested frame and the
    /// earlier frame the container landed on.
    pub fn new(requested_frame: usize, landed_frame: usize) -> (r: Self)
        requires
            landed_frame <= requested_frame,
        ensures
            r.remaining_spec() == requested_frame - landed_frame,
    {
        DeltaAbsorber { remaining: requested_frame - landed_frame }
    }

    /// The frames still to be skipped.
    pub fn remaining(&self) -> (r: usize)
        ensures
            r as nat == self.remaining_spec(),
    {
        self.remaining
    }

    /// True when no frames remain to be skipped.
    pub fn is_satisfied(&self) -> (r: bool)
        ensures
            r == (self.remaining_spec() == 0),
    {
        self.remaining == 0
    }

    /// Accounts for one decoded packet of `produced` frames. Returns
    /// `None` when the whole packet falls inside the delta and must be
    /// skipped, or `Some(offset)` when the packet straddles the target:
    /// its frames from `offset` on are the first real output.
    pub fn on_packet(&mut self, produced: usize) -> (r: Option<usize>)
        ensures
            match r {
                Some(offset) => {
                    &&& offset == old(self).remaining_spec()
                    &&& offset < produced
                    &&& final(self).remaining_spec() == 0
                },
                None => {
                    &&& produced <= old(self).remaining_spec()
                    &&& final(self).remaining_spec() == old(self).remaining_spec() - produced
                },
            },
    {
        if self.remaining < produced {
            let offset = self.remaining;
            self.remaining = 0;
            Some(offset)
        } else {
            self.remaining = self.remaining - produced;
            None
        }
    }
}

} // verus!
