//! The image writer: the one buffer into which the second pass writes, in
//! program order.

use vstd::prelude::*;

verus! {

/// The byte that fills the gap which an `offset` directive opens.
pub const PAD_BYTE: u8 = 0;

/// `count` pad bytes.
pub open spec fn spec_padding(count: nat) -> Seq<u8> {
    Seq::new(count, |i: int| PAD_BYTE)
}

/// A growing image. Its view is the bytes written so far.
#[derive(Debug)]
pub struct ImageWriter {
    buffer: Vec<u8>,
}

impl View for ImageWriter {
    type V = Seq<u8>;

    closed spec fn view(&self) -> Seq<u8> {
        self.buffer@
    }
}

impl ImageWriter {
    pub fn new() -> (writer: ImageWriter)
        ensures
            writer@ == Seq::<u8>::empty(),
    {
        ImageWriter { buffer: Vec::new() }
    }

    /// The number of bytes written so far.
    pub fn len(&self) -> (n: usize)
        ensures
            n == self@.len(),
    {
        self.buffer.len()
    }

    /// Appends `bytes`.
    pub fn write(&mut self, bytes: &[u8])
        ensures
            final(self)@ == old(self)@ + bytes@,
    {
        self.buffer.extend_from_slice(bytes);
    }

    /// Appends `count` pad bytes.
    pub fn pad(&mut self, count: u32)
        ensures
            final(self)@ == old(self)@ + spec_padding(count as nat),
    {
        let mut written: u32 = 0;
        while written < count
            invariant
                written <= count,
                self@ == old(self)@ + spec_padding(written as nat),
            decreases count - written,
        {
            self.buffer.push(PAD_BYTE);
            written += 1;
            assert(self@ == old(self)@ + spec_padding(written as nat));
        }
    }

    /// The finished image and its length.
    pub fn finish(self) -> (r: (Vec<u8>, usize))
        ensures
            r.0@ == self@,
            r.1 == self@.len(),
    {
        let length = self.buffer.len();
        (self.buffer, length)
    }
}

} // verus!
