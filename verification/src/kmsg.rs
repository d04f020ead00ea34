//! The kernel message ring: an out-of-band console a host kernel can read.

use vstd::prelude::*;

verus! {

/// Bytes of the ring; one trailing sentinel byte follows it and is never
/// written.
pub const KMSG_SIZE: usize = 4096;

/// The ring buffer with its sentinel byte and the running write index.
pub struct KmsgBuffer {
    /// `KMSG_SIZE` ring bytes followed by one sentinel byte.
    pub buffer: Vec<u8>,
    /// Total bytes ever written; the write position is this modulo the ring
    /// size.
    pub index: usize,
}

impl KmsgBuffer {
    /// The buffer has its fixed size.
    pub open spec fn wf(self) -> bool {
        self.buffer.len() == KMSG_SIZE + 1
    }

    /// An empty ring: all zero, nothing written.
    pub fn new() -> (r: KmsgBuffer)
        ensures
            r.wf(),
            r.index == 0,
            forall|i: int| 0 <= i < KMSG_SIZE + 1 ==> r.buffer[i] == 0,
    {
        let mut buffer: Vec<u8> = Vec::new();
        let mut i: usize = 0;
        while i < KMSG_SIZE + 1
            invariant
                i <= KMSG_SIZE + 1,
                buffer.len() == i,
                forall|j: int| 0 <= j < i ==> buffer[j] == 0,
            decreases KMSG_SIZE + 1 - i,
        {
            buffer.push(0);
            i += 1;
        }
        KmsgBuffer { buffer, index: 0 }
    }

    /// Writes one byte at the current ring position and advances the
    /// index, which wraps at the type bound as the shared counter does.
    /// The sentinel byte past the ring is never touched.
    pub fn write_byte(&mut self, byte: u8)
        requires
            old(self).wf(),
        ensures
            final(self).wf(),
            final(self).index == if old(self).index == usize::MAX {
                0int
            } else {
                old(self).index + 1
            },
            final(self).buffer[old(self).index as int % (KMSG_SIZE as int)] == byte,
            forall|i: int|
                0 <= i < KMSG_SIZE + 1 && i != old(self).index as int % (KMSG_SIZE as int)
                    ==> final(self).buffer[i] == old(self).buffer[i],
            final(self).buffer[KMSG_SIZE as int] == old(self).buffer[KMSG_SIZE as int],
    {
        let position = self.index % KMSG_SIZE;
        self.buffer.set(position, byte);
        self.index = if self.index == usize::MAX {
            0
        } else {
            self.index + 1
        };
        proof {
            vstd::arithmetic::div_mod::lemma_mod_division_less_than_divisor(
                old(self).index as int,
                KMSG_SIZE as int,
            );
        }
    }
}

} // verus!
