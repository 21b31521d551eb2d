//! Reading a byte stream bit by bit.

use vstd::prelude::*;
use vstd::string::*;
use crate::error::BellandeError;

verus! {

/// Bit `k` of a byte, counted from the most significant bit.
pub open spec fn byte_bit(b: u8, k: int) -> bool {
    (b >> ((7 - k) as u8)) & 1 == 1
}

/// Bit `i` of a byte stream, most significant bit of each byte first.
pub open spec fn stream_bit(bytes: Seq<u8>, i: int) -> bool {
    byte_bit(bytes[i / 8], i % 8)
}

/// The number that `count` bits of the stream denote from bit `from` on,
/// earlier bits more significant, kept to thirty-two bits.
pub open spec fn bits_value(bytes: Seq<u8>, from: int, count: nat) -> u32
    decreases count,
{
    if count == 0 {
        0
    } else {
        (bits_value(bytes, from, (count - 1) as nat) << 1) | (if stream_bit(
            bytes,
            from + count - 1,
        ) {
            1u32
        } else {
            0u32
        })
    }
}

/// What a read past the end of the stream reports.
pub open spec fn end_of_stream() -> Seq<char> {
    "failed to fill whole buffer"@
}

/// Reads a byte stream one bit at a time, most significant bit first.
pub struct BitReader {
    bytes: Vec<u8>,
    next: usize,
    buffer: u8,
    bits_remaining: u8,
}

impl BitReader {
    pub closed spec fn wf(&self) -> bool {
        &&& self.next <= self.bytes@.len()
        &&& self.bits_remaining <= 8
        &&& self.bits_remaining > 0 ==> self.next > 0 && self.buffer == self.bytes@[self.next - 1]
    }

    /// The bytes the reader was made from.
    pub closed spec fn stream(&self) -> Seq<u8> {
        self.bytes@
    }

    /// The number of bits read so far.
    pub closed spec fn cursor(&self) -> int {
        self.next * 8 - self.bits_remaining
    }

    pub proof fn lemma_cursor_in_range(&self)
        requires
            self.wf(),
        ensures
            0 <= self.cursor() <= 8 * self.stream().len(),
    {
    }

    /// Creates a reader positioned before the first bit of `bytes`.
    pub fn new(bytes: Vec<u8>) -> (r: Self)
        ensures
            r.wf(),
            r.stream() == bytes@,
            r.cursor() == 0,
    {
        BitReader { bytes, next: 0, buffer: 0, bits_remaining: 0 }
    }

    /// Reads a single bit; fails, leaving the reader as it is, at the end of
    /// the stream.
    pub fn read_bit(&mut self) -> (r: Result<bool, BellandeError>)
        requires
            old(self).wf(),
        ensures
            final(self).wf(),
            final(self).stream() == old(self).stream(),
            old(self).cursor() < 8 * old(self).stream().len() ==> r == Ok::<bool, BellandeError>(
                stream_bit(old(self).stream(), old(self).cursor()),
            ) && final(self).cursor() == old(self).cursor() + 1,
            old(self).cursor() >= 8 * old(self).stream().len() ==> (r matches Err(
                BellandeError::IOError(m),
            ) && m@ == end_of_stream()) && final(self).cursor() == old(self).cursor(),
    {
        if self.bits_remaining == 0 {
            if self.next >= self.bytes.len() {
                return Err(BellandeError::IOError(String::from_str("failed to fill whole buffer")));
            }
            self.buffer = self.bytes[self.next];
            self.next = self.next + 1;
            self.bits_remaining = 8;
        }
        self.bits_remaining = self.bits_remaining - 1;
        Ok(((self.buffer >> self.bits_remaining) & 1) == 1)
    }

    /// Reads `count` bits as a number, earlier bits more significant. Fails
    /// when fewer than `count` bits are left, having consumed them all.
    pub fn read_bits(&mut self, count: u8) -> (r: Result<u32, BellandeError>)
        requires
            old(self).wf(),
        ensures
            final(self).wf(),
            final(self).stream() == old(self).stream(),
            old(self).cursor() + count <= 8 * old(self).stream().len() ==> r == Ok::<
                u32,
                BellandeError,
            >(bits_value(old(self).stream(), old(self).cursor(), count as nat))
                && final(self).cursor() == old(self).cursor() + count,
            old(self).cursor() + count > 8 * old(self).stream().len() ==> (r matches Err(
                BellandeError::IOError(m),
            ) && m@ == end_of_stream()) && final(self).cursor() == 8 * old(self).stream().len(),
    {
        let mut result: u32 = 0;
        let mut done: u8 = 0;
        proof {
            self.lemma_cursor_in_range();
        }
        while done < count
            invariant
                self.wf(),
                self.stream() == old(self).stream(),
                done <= count,
                self.cursor() == old(self).cursor() + done,
                self.cursor() <= 8 * self.stream().len(),
                result == bits_value(old(self).stream(), old(self).cursor(), done as nat),
            decreases count - done,
        {
            match self.read_bit() {
                Ok(bit) => {
                    result = (result << 1) | (if bit {
                        1
                    } else {
                        0
                    });
                },
                Err(e) => {
                    return Err(e);
                },
            }
            done = done + 1;
        }
        Ok(result)
    }
}

} // verus!
