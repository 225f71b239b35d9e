//! An in-memory transport.
//!
//! Exactly one reader (the dispatch loop) consumes the inbound side, and
//! outbound frames are recorded in send order, so the order of what was sent
//! is part of every contract that sends. A driver outside the library moves
//! bytes between this queue and the socket through the codec.

use vstd::prelude::*;
use crate::frame::MethodFrame;

verus! {

/// Decoded frames queued for the core (inbound) and recorded from it
/// (outbound), plus the raw bytes sent ahead of any frame (the protocol
/// header).
pub struct Transport {
    /// Frames not yet consumed, in arrival order.
    pub inbound: Vec<MethodFrame>,
    /// Frames sent so far, oldest first.
    pub sent: Vec<MethodFrame>,
    /// Raw bytes sent so far, oldest first.
    pub raw_sent: Vec<u8>,
}

impl Transport {
    /// A transport whose inbound side holds `inbound` and which has sent
    /// nothing yet.
    pub fn new(inbound: Vec<MethodFrame>) -> (t: Transport)
        ensures
            t.inbound == inbound,
            t.sent@ == Seq::<MethodFrame>::empty(),
            t.raw_sent@ == Seq::<u8>::empty(),
    {
        Transport { inbound, sent: Vec::new(), raw_sent: Vec::new() }
    }

    /// Send raw bytes outside any frame: the 8-byte protocol header.
    pub fn send_raw(&mut self, bytes: &[u8; 8])
        ensures
            final(self).raw_sent@ == old(self).raw_sent@ + bytes@,
            final(self).inbound == old(self).inbound,
            final(self).sent == old(self).sent,
    {
        let mut i: usize = 0;
        while i < 8
            invariant
                0 <= i <= 8,
                self.raw_sent@ == old(self).raw_sent@ + bytes@.subrange(0, i as int),
                self.inbound == old(self).inbound,
                self.sent == old(self).sent,
            decreases 8 - i,
        {
            self.raw_sent.push(bytes[i]);
            proof {
                assert(self.raw_sent@ =~= old(self).raw_sent@ + bytes@.subrange(0, i + 1));
            }
            i = i + 1;
        }
        proof {
            assert(bytes@.subrange(0, 8) =~= bytes@);
        }
    }

    /// Send one method frame.
    pub fn send(&mut self, f: MethodFrame)
        ensures
            final(self).sent@ == old(self).sent@.push(f),
            final(self).inbound == old(self).inbound,
            final(self).raw_sent == old(self).raw_sent,
    {
        self.sent.push(f);
    }

    /// Whether any inbound frame remains; `false` means end of stream.
    pub fn has_inbound(&self) -> (b: bool)
        ensures
            b == (self.inbound@.len() > 0),
    {
        self.inbound.len() > 0
    }

    /// Receive the next inbound frame; `None` means end of stream.
    pub fn receive_frame(&mut self) -> (r: Option<MethodFrame>)
        ensures
            old(self).inbound@.len() == 0 ==> r is None && *final(self) == *old(self),
            old(self).inbound@.len() > 0 ==> {
                &&& r == Some(old(self).inbound@[0])
                &&& final(self).inbound@ == old(self).inbound@.drop_first()
                &&& final(self).sent == old(self).sent
                &&& final(self).raw_sent == old(self).raw_sent
            },
    {
        if self.inbound.len() > 0 {
            let f = self.inbound.remove(0);
            proof {
                assert(self.inbound@ =~= old(self).inbound@.drop_first());
            }
            Some(f)
        } else {
            None
        }
    }
}

} // verus!
