//! One direction of the byte relay that runs after a successful handshake.
//!
//! A CONNECT tunnel is a raw bidirectional pipe: whatever chunk one side's
//! read produces is written to the other side unchanged, in order, with no
//! framing and no transformation. The driver owns the sockets and runs the
//! two directions concurrently; each chunk it reads passes through
//! [`RelayDirection::forward`], which yields the bytes to write and
//! accounts, in ghost state, for everything received and everything sent
//! on, so that byte-exactness is an invariant of the whole run and not
//! merely of one chunk.

use vstd::prelude::*;

verus! {

/// One direction of the relay: the bytes flowing from one stream to its
/// peer.
pub struct RelayDirection {
    received: Ghost<Seq<u8>>,
    sent: Ghost<Seq<u8>>,
}

impl RelayDirection {
    /// All bytes this direction has read from its source so far.
    pub closed spec fn spec_received(&self) -> Seq<u8> {
        self.received@
    }

    /// All bytes this direction has passed on to its destination so far.
    pub closed spec fn spec_sent(&self) -> Seq<u8> {
        self.sent@
    }

    /// Byte-exactness: the destination was handed exactly the bytes the
    /// source produced, in order.
    pub open spec fn exact(&self) -> bool {
        self.spec_sent() == self.spec_received()
    }

    /// Starts a direction that has carried nothing yet.
    pub fn new() -> (r: RelayDirection)
        ensures
            r.spec_received() == Seq::<u8>::empty(),
            r.spec_sent() == Seq::<u8>::empty(),
            r.exact(),
    {
        RelayDirection { received: Ghost(Seq::empty()), sent: Ghost(Seq::empty()) }
    }

    /// Takes one chunk read from the source and yields the bytes to write
    /// to the destination: the same bytes, unchanged and in order.
    pub fn forward(&mut self, chunk: &Vec<u8>) -> (out: Vec<u8>)
        ensures
            out@ == chunk@,
            final(self).spec_received() == old(self).spec_received() + chunk@,
            final(self).spec_sent() == old(self).spec_sent() + out@,
            old(self).exact() ==> final(self).exact(),
    {
        self.received = Ghost(self.received@ + chunk@);
        let n = chunk.len();
        let mut out: Vec<u8> = Vec::new();
        let mut i: usize = 0;
        while i < n
            invariant
                0 <= i <= n,
                n == chunk@.len(),
                out@ == chunk@.take(i as int),
            decreases n - i,
        {
            out.push(chunk[i]);
            proof {
                assert(chunk@.take(i + 1) =~= chunk@.take(i as int).push(chunk@[i as int]));
            }
            i += 1;
        }
        assert(out@ =~= chunk@);
        self.sent = Ghost(self.sent@ + out@);
        out
    }
}

} // verus!
