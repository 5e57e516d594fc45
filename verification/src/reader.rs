//! A sequential big-endian reader over an immutable byte buffer with a
//! mutable cursor.
use vstd::prelude::*;

verus! {

/// The value of `count` big-endian bytes of `bytes` starting at `pos`.
pub open spec fn be_value(bytes: Seq<u8>, pos: int, count: int) -> nat
    decreases count,
{
    if count <= 0 {
        0
    } else {
        be_value(bytes, pos, count - 1) * 256 + (bytes[pos + count - 1] as nat)
    }
}

/// Reads the raw bytes of a class artifact incrementally. Every read
/// requires that it stays inside the buffer; the parser checks lengths
/// before reading.
pub struct Reader {
    pub bytes: Vec<u8>,
    pub index: usize,
}

impl Reader {
    /// A reader positioned at the start of the given buffer.
    pub fn new(bytes: Vec<u8>) -> (r: Reader)
        ensures
            r.bytes@ == bytes@,
            r.index == 0,
    {
        Reader { bytes, index: 0 }
    }

    /// How many bytes remain in front of the cursor.
    pub fn remaining(&self) -> (n: usize)
        ensures
            n == if self.index <= self.bytes@.len() {
                self.bytes@.len() - self.index
            } else {
                0
            },
    {
        if self.index <= self.bytes.len() {
            self.bytes.len() - self.index
        } else {
            0
        }
    }

    /// Reads and advances a single byte.
    pub fn g1(&mut self) -> (b: u8)
        requires
            old(self).index < old(self).bytes@.len(),
        ensures
            final(self).bytes@ == old(self).bytes@,
            final(self).index == old(self).index + 1,
            b == old(self).bytes@[old(self).index as int],
    {
        let _n = self.bytes.len();
        let b = self.bytes[self.index];
        self.index = self.index + 1;
        b
    }

    /// Reads and advances two bytes, big-endian.
    pub fn g2(&mut self) -> (v: u16)
        requires
            old(self).index + 2 <= old(self).bytes@.len(),
        ensures
            final(self).bytes@ == old(self).bytes@,
            final(self).index == old(self).index + 2,
            v == be_value(old(self).bytes@, old(self).index as int, 2),
    {
        let b0 = self.g1();
        let b1 = self.g1();
        proof {
            let by = old(self).bytes@;
            let p = old(self).index as int;
            assert(be_value(by, p, 0) == 0);
            assert(be_value(by, p, 1) == by[p]);
            assert(be_value(by, p, 2) == be_value(by, p, 1) * 256 + by[p + 1]);
        }
        (b0 as u16) * 256 + (b1 as u16)
    }

    /// Reads and advances four bytes, big-endian.
    pub fn g4(&mut self) -> (v: u32)
        requires
            old(self).index + 4 <= old(self).bytes@.len(),
        ensures
            final(self).bytes@ == old(self).bytes@,
            final(self).index == old(self).index + 4,
            v == be_value(old(self).bytes@, old(self).index as int, 4),
    {
        let b0 = self.g1();
        let b1 = self.g1();
        let b2 = self.g1();
        let b3 = self.g1();
        proof {
            let by = old(self).bytes@;
            let p = old(self).index as int;
            assert(be_value(by, p, 0) == 0);
            assert(be_value(by, p, 1) == by[p]);
            assert(be_value(by, p, 2) == be_value(by, p, 1) * 256 + by[p + 1]);
            assert(be_value(by, p, 3) == be_value(by, p, 2) * 256 + by[p + 2]);
            assert(be_value(by, p, 4) == be_value(by, p, 3) * 256 + by[p + 3]);
        }
        (b0 as u32) * 0x100_0000 + (b1 as u32) * 0x1_0000 + (b2 as u32) * 0x100 + (b3 as u32)
    }

    /// Reads and advances a passed number of bytes.
    pub fn g(&mut self, size: usize) -> (v: Vec<u8>)
        requires
            old(self).index + size <= old(self).bytes@.len(),
        ensures
            final(self).bytes@ == old(self).bytes@,
            final(self).index == old(self).index + size,
            v@ == old(self).bytes@.subrange(
                old(self).index as int,
                old(self).index + size as int,
            ),
    {
        let n = self.bytes.len();
        let mut v: Vec<u8> = Vec::new();
        let mut i: usize = 0;
        while i < size
            invariant
                0 <= i <= size,
                self.bytes@ == old(self).bytes@,
                self.index == old(self).index,
                n == self.bytes@.len(),
                old(self).index + size <= n,
                v@ == old(self).bytes@.subrange(
                    old(self).index as int,
                    old(self).index + i as int,
                ),
            decreases size - i,
        {
            v.push(self.bytes[self.index + i]);
            proof {
                assert(v@ =~= old(self).bytes@.subrange(
                    old(self).index as int,
                    old(self).index + (i + 1) as int,
                ));
            }
            i = i + 1;
        }
        self.index = self.index + size;
        v
    }

    /// Reads and advances four bytes and returns them as an array.
    pub fn g4_array(&mut self) -> (a: [u8; 4])
        requires
            old(self).index + 4 <= old(self).bytes@.len(),
        ensures
            final(self).bytes@ == old(self).bytes@,
            final(self).index == old(self).index + 4,
            a@ == old(self).bytes@.subrange(old(self).index as int, old(self).index + 4),
    {
        let b0 = self.g1();
        let b1 = self.g1();
        let b2 = self.g1();
        let b3 = self.g1();
        let a = [b0, b1, b2, b3];
        proof {
            assert(a@ =~= old(self).bytes@.subrange(old(self).index as int, old(self).index + 4));
        }
        a
    }

    /// Reads and advances eight bytes and returns them as an array.
    pub fn g8_array(&mut self) -> (a: [u8; 8])
        requires
            old(self).index + 8 <= old(self).bytes@.len(),
        ensures
            final(self).bytes@ == old(self).bytes@,
            final(self).index == old(self).index + 8,
            a@ == old(self).bytes@.subrange(old(self).index as int, old(self).index + 8),
    {
        let b0 = self.g1();
        let b1 = self.g1();
        let b2 = self.g1();
        let b3 = self.g1();
        let b4 = self.g1();
        let b5 = self.g1();
        let b6 = self.g1();
        let b7 = self.g1();
        let a = [b0, b1, b2, b3, b4, b5, b6, b7];
        proof {
            assert(a@ =~= old(self).bytes@.subrange(old(self).index as int, old(self).index + 8));
        }
        a
    }

    /// Read the current cursor.
    pub fn pos(&self) -> (p: usize)
        ensures
            p == self.index,
    {
        self.index
    }

    /// Set the cursor to a given position.
    pub fn set_pos(&mut self, pos: usize)
        ensures
            final(self).bytes@ == old(self).bytes@,
            final(self).index == pos,
    {
        self.index = pos;
    }
}

} // verus!
