use crate::bytes::{
    be_u16, be_u32, le_u16, le_u24, le_u32, read_be_u16, read_be_u32, read_le_u16, read_le_u24,
    read_le_u32,
};
use crate::errors::ImageError;
use vstd::prelude::*;
use vstd::slice::slice_subrange;

verus! {

/// A bounds-checked cursor over a byte source held in memory.
///
/// The position never lies beyond the end of the source. A read that asks
/// for more bytes than are left fails and consumes nothing.
pub struct Reader<'a> {
    data: &'a [u8],
    pos: usize,
}

impl<'a> Reader<'a> {
    #[verifier::type_invariant]
    spec fn in_bounds(self) -> bool {
        self.pos <= self.data@.len()
    }

    /// All the bytes of the source.
    pub closed spec fn source(self) -> Seq<u8> {
        self.data@
    }

    /// The number of bytes before the cursor.
    pub closed spec fn position(self) -> nat {
        self.pos as nat
    }

    /// The bytes from the cursor to the end of the source.
    pub open spec fn remaining(self) -> Seq<u8> {
        if self.position() <= self.source().len() {
            self.source().skip(self.position() as int)
        } else {
            Seq::empty()
        }
    }

    /// A cursor at the start of `data`.
    pub fn new(data: &'a [u8]) -> (r: Self)
        ensures
            r.source() == data@,
            r.position() == 0,
    {
        Reader { data, pos: 0 }
    }

    /// The current position, counted from the start of the source.
    pub fn tell(&self) -> (r: usize)
        ensures
            r == self.position(),
            r <= self.source().len(),
    {
        proof {
            use_type_invariant(self);
        }
        self.pos
    }

    /// The number of bytes left to read.
    pub fn bytes_left(&self) -> (r: usize)
        ensures
            r == self.remaining().len(),
            r == self.source().len() - self.position(),
    {
        proof {
            use_type_invariant(self);
        }
        self.data.len() - self.pos
    }

    /// The bytes from the cursor to the end of the source. The cursor stays.
    pub fn rest(&self) -> (r: &'a [u8])
        ensures
            r@ == self.remaining(),
    {
        proof {
            use_type_invariant(self);
        }
        let r = slice_subrange(self.data, self.pos, self.data.len());
        assert(r@ =~= self.remaining());
        r
    }

    /// Reads exactly `n` bytes, or none at all where fewer are left.
    pub fn read_exact(&mut self, n: usize) -> (r: Result<&'a [u8], ImageError>)
        ensures
            final(self).source() == old(self).source(),
            match r {
                Ok(bytes) => {
                    &&& n <= old(self).remaining().len()
                    &&& bytes@ == old(self).remaining().take(n as int)
                    &&& final(self).position() == old(self).position() + n
                    &&& final(self).remaining() == old(self).remaining().skip(n as int)
                },
                Err(e) => {
                    &&& old(self).remaining().len() < n
                    &&& e == ImageError::UnexpectedEof
                    &&& *final(self) == *old(self)
                },
            },
    {
        proof {
            use_type_invariant(&*self);
        }
        if self.data.len() - self.pos < n {
            return Err(ImageError::UnexpectedEof);
        }
        let start = self.pos;
        let out = slice_subrange(self.data, start, start + n);
        self.pos = start + n;
        proof {
            assert(out@ =~= old(self).remaining().take(n as int));
            assert(self.remaining() =~= old(self).remaining().skip(n as int));
        }
        Ok(out)
    }

    /// Reads one byte.
    pub fn read_u8(&mut self) -> (r: Result<u8, ImageError>)
        ensures
            final(self).source() == old(self).source(),
            match r {
                Ok(v) => {
                    &&& 1 <= old(self).remaining().len()
                    &&& v == old(self).remaining()[0]
                    &&& final(self).position() == old(self).position() + 1
                    &&& final(self).remaining() == old(self).remaining().skip(1)
                },
                Err(e) => {
                    &&& old(self).remaining().len() < 1
                    &&& e == ImageError::UnexpectedEof
                    &&& *final(self) == *old(self)
                },
            },
    {
        let bytes = self.read_exact(1)?;
        Ok(bytes[0])
    }

    /// Reads a big-endian number of two bytes.
    pub fn read_u16_be(&mut self) -> (r: Result<u16, ImageError>)
        ensures
            final(self).source() == old(self).source(),
            match r {
                Ok(v) => {
                    &&& 2 <= old(self).remaining().len()
                    &&& v == be_u16(old(self).remaining())
                    &&& final(self).position() == old(self).position() + 2
                    &&& final(self).remaining() == old(self).remaining().skip(2)
                },
                Err(e) => {
                    &&& old(self).remaining().len() < 2
                    &&& e == ImageError::UnexpectedEof
                    &&& *final(self) == *old(self)
                },
            },
    {
        let bytes = self.read_exact(2)?;
        Ok(read_be_u16(bytes))
    }

    /// Reads a big-endian number of four bytes.
    pub fn read_u32_be(&mut self) -> (r: Result<u32, ImageError>)
        ensures
            final(self).source() == old(self).source(),
            match r {
                Ok(v) => {
                    &&& 4 <= old(self).remaining().len()
                    &&& v == be_u32(old(self).remaining())
                    &&& final(self).position() == old(self).position() + 4
                    &&& final(self).remaining() == old(self).remaining().skip(4)
                },
                Err(e) => {
                    &&& old(self).remaining().len() < 4
                    &&& e == ImageError::UnexpectedEof
                    &&& *final(self) == *old(self)
                },
            },
    {
        let bytes = self.read_exact(4)?;
        Ok(read_be_u32(bytes))
    }

    /// Reads a little-endian number of two bytes.
    pub fn read_u16_le(&mut self) -> (r: Result<u16, ImageError>)
        ensures
            final(self).source() == old(self).source(),
            match r {
                Ok(v) => {
                    &&& 2 <= old(self).remaining().len()
                    &&& v == le_u16(old(self).remaining())
                    &&& final(self).position() == old(self).position() + 2
                    &&& final(self).remaining() == old(self).remaining().skip(2)
                },
                Err(e) => {
                    &&& old(self).remaining().len() < 2
                    &&& e == ImageError::UnexpectedEof
                    &&& *final(self) == *old(self)
                },
            },
    {
        let bytes = self.read_exact(2)?;
        Ok(read_le_u16(bytes))
    }

    /// Reads a little-endian number of three bytes.
    pub fn read_u24_le(&mut self) -> (r: Result<u32, ImageError>)
        ensures
            final(self).source() == old(self).source(),
            match r {
                Ok(v) => {
                    &&& 3 <= old(self).remaining().len()
                    &&& v == le_u24(old(self).remaining())
                    &&& final(self).position() == old(self).position() + 3
                    &&& final(self).remaining() == old(self).remaining().skip(3)
                },
                Err(e) => {
                    &&& old(self).remaining().len() < 3
                    &&& e == ImageError::UnexpectedEof
                    &&& *final(self) == *old(self)
                },
            },
    {
        let bytes = self.read_exact(3)?;
        Ok(read_le_u24(bytes))
    }

    /// Reads a little-endian number of four bytes.
    pub fn read_u32_le(&mut self) -> (r: Result<u32, ImageError>)
        ensures
            final(self).source() == old(self).source(),
            match r {
                Ok(v) => {
                    &&& 4 <= old(self).remaining().len()
                    &&& v == le_u32(old(self).remaining())
                    &&& final(self).position() == old(self).position() + 4
                    &&& final(self).remaining() == old(self).remaining().skip(4)
                },
                Err(e) => {
                    &&& old(self).remaining().len() < 4
                    &&& e == ImageError::UnexpectedEof
                    &&& *final(self) == *old(self)
                },
            },
    {
        let bytes = self.read_exact(4)?;
        Ok(read_le_u32(bytes))
    }

    /// Moves the cursor by `offset` bytes, stopping at the end of the
    /// source. A move to before the start fails and leaves the cursor where
    /// it was.
    pub fn seek_relative(&mut self, offset: i64) -> (r: Result<(), ImageError>)
        ensures
            final(self).source() == old(self).source(),
            match r {
                Ok(_) => {
                    &&& old(self).position() + offset >= 0
                    &&& final(self).position() == seek_target(
                        old(self).source().len(),
                        old(self).position(),
                        offset as int,
                    )
                },
                Err(e) => {
                    &&& old(self).position() + offset < 0
                    &&& e == ImageError::InvalidSeek
                    &&& *final(self) == *old(self)
                },
            },
    {
        proof {
            use_type_invariant(&*self);
        }
        let target: i128 = self.pos as i128 + offset as i128;
        if target < 0 {
            return Err(ImageError::InvalidSeek);
        }
        if target >= self.data.len() as i128 {
            self.pos = self.data.len();
        } else {
            self.pos = target as usize;
        }
        Ok(())
    }

    /// Passes over the next `n` bytes, or over all that are left where
    /// they are fewer.
    pub fn skip(&mut self, n: usize)
        ensures
            final(self).source() == old(self).source(),
            final(self).position() == old(self).position() + passed(old(self).remaining(), n as nat),
            final(self).remaining() == old(self).remaining().skip(
                passed(old(self).remaining(), n as nat) as int,
            ),
    {
        proof {
            use_type_invariant(&*self);
        }
        if n >= self.data.len() - self.pos {
            self.pos = self.data.len();
        } else {
            self.pos = self.pos + n;
        }
        proof {
            assert(self.remaining() =~= old(self).remaining().skip(
                passed(old(self).remaining(), n as nat) as int,
            ));
        }
    }
}

/// The number of bytes that a cursor passes when it is to skip `n` bytes and
/// `bytes` are left.
pub open spec fn passed(bytes: Seq<u8>, n: nat) -> nat {
    if n <= bytes.len() {
        n
    } else {
        bytes.len()
    }
}

/// Where a cursor stands after a move by `offset` from `position` in a
/// source of `len` bytes: no further than the end.
pub open spec fn seek_target(len: nat, position: nat, offset: int) -> nat {
    if position + offset >= len {
        len
    } else if position + offset >= 0 {
        (position + offset) as nat
    } else {
        0
    }
}

} // verus!
