//! Chunk assembly on the sender side.
//!
//! The sender pulls fixed-size chunks from its input stream. A read may come
//! back short, so pieces are absorbed one by one until the chunk is full or
//! the stream ends; the final partial chunk is exactly the bytes that
//! arrived, with nothing padded.

use vstd::prelude::*;

verus! {

/// Accumulates the bytes of one chunk out of arbitrarily short reads.
pub struct ChunkAssembler {
    chunk_size: usize,
    buf: Vec<u8>,
}

impl ChunkAssembler {
    /// The configured maximum chunk size.
    pub closed spec fn chunk_size(self) -> nat {
        self.chunk_size as nat
    }

    /// The bytes absorbed so far.
    pub closed spec fn view(self) -> Seq<u8> {
        self.buf@
    }

    /// Never more bytes than one chunk; the chunk size is positive.
    pub closed spec fn wf(self) -> bool {
        self@.len() <= self.chunk_size() && self.chunk_size() >= 1
    }

    /// An empty assembler for chunks of up to `chunk_size` bytes.
    pub fn new(chunk_size: usize) -> (r: ChunkAssembler)
        requires
            chunk_size >= 1,
        ensures
            r.wf(),
            r@ == Seq::<u8>::empty(),
            r.chunk_size() == chunk_size as nat,
    {
        ChunkAssembler { chunk_size, buf: Vec::new() }
    }

    /// How many more bytes this chunk can take: the next read asks for at
    /// most this many.
    pub fn remaining(&self) -> (r: usize)
        requires
            self.wf(),
        ensures
            r as nat == self.chunk_size() - self@.len(),
    {
        self.chunk_size - self.buf.len()
    }

    /// Whether the chunk is full.
    pub fn is_full(&self) -> (r: bool)
        requires
            self.wf(),
        ensures
            r == (self@.len() == self.chunk_size()),
    {
        self.buf.len() == self.chunk_size
    }

    /// How many bytes have been absorbed.
    pub fn len(&self) -> (r: usize)
        ensures
            r as nat == self@.len(),
    {
        self.buf.len()
    }

    /// Absorbs one (possibly short) read: appends exactly its bytes.
    pub fn absorb(&mut self, piece: &Vec<u8>)
        requires
            old(self).wf(),
            piece@.len() <= old(self).chunk_size() - old(self)@.len(),
        ensures
            final(self).wf(),
            final(self)@ == old(self)@ + piece@,
            final(self).chunk_size() == old(self).chunk_size(),
    {
        self.buf.extend_from_slice(piece.as_slice());
    }

    /// Hands the assembled chunk out: exactly the absorbed bytes, trimmed,
    /// in order.
    pub fn take(self) -> (r: Vec<u8>)
        ensures
            r@ == self@,
    {
        self.buf
    }
}

} // verus!
