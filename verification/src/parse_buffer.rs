use vstd::prelude::*;
use vstd::slice::slice_index_get;
use vstd::slice::slice_subrange;

use crate::wire::be16;

verus! {

/// Failure of a primitive cursor read: either the input ran out, or the bytes
/// read do not form a value of the requested kind.
#[derive(Clone, Copy, Debug, PartialEq, Eq, Structural)]
pub enum ParseError {
    InsufficientData,
    InvalidData,
}

/// Sequential read cursor over an immutable byte span. Reads advance the
/// cursor; a failed read leaves it where it was.
pub struct ParseBuffer<'a> {
    bytes: &'a [u8],
    pos: usize,
}

impl<'a> ParseBuffer<'a> {
    /// The cursor never stands past the end of the underlying span.
    pub closed spec fn wf(self) -> bool {
        self.pos <= self.bytes@.len()
    }

    /// The bytes not yet consumed.
    pub closed spec fn remaining(self) -> Seq<u8> {
        self.bytes@.skip(self.pos as int)
    }

    pub fn new(bytes: &'a [u8]) -> (r: ParseBuffer<'a>)
        ensures
            r.wf(),
            r.remaining() == bytes@,
    {
        let r = ParseBuffer { bytes, pos: 0 };
        proof {
            assert(r.remaining() =~= bytes@);
        }
        r
    }

    pub fn remaining_len(&self) -> (r: usize)
        requires
            self.wf(),
        ensures
            r == self.remaining().len(),
    {
        self.bytes.len() - self.pos
    }

    /// Reads one byte.
    pub fn read_u8(&mut self) -> (r: Result<u8, ParseError>)
        requires
            old(self).wf(),
        ensures
            final(self).wf(),
            old(self).remaining().len() == 0 ==> r == Err::<u8, ParseError>(
                ParseError::InsufficientData,
            ) && *final(self) == *old(self),
            old(self).remaining().len() > 0 ==> r == Ok::<u8, ParseError>(
                old(self).remaining()[0],
            ) && final(self).remaining() == old(self).remaining().skip(1),
    {
        if self.bytes.len() - self.pos >= 1 {
            let b = *slice_index_get(self.bytes, self.pos);
            self.pos = self.pos + 1;
            proof {
                assert(self.remaining() =~= old(self).remaining().skip(1));
            }
            Ok(b)
        } else {
            Err(ParseError::InsufficientData)
        }
    }

    /// Reads a big-endian 16-bit value.
    pub fn read_u16(&mut self) -> (r: Result<u16, ParseError>)
        requires
            old(self).wf(),
        ensures
            final(self).wf(),
            old(self).remaining().len() < 2 ==> r == Err::<u16, ParseError>(
                ParseError::InsufficientData,
            ) && *final(self) == *old(self),
            old(self).remaining().len() >= 2 ==> r == Ok::<u16, ParseError>(
                be16(old(self).remaining()[0], old(self).remaining()[1]),
            ) && final(self).remaining() == old(self).remaining().skip(2),
    {
        if self.bytes.len() - self.pos >= 2 {
            let hi = *slice_index_get(self.bytes, self.pos);
            let lo = *slice_index_get(self.bytes, self.pos + 1);
            self.pos = self.pos + 2;
            proof {
                assert(self.remaining() =~= old(self).remaining().skip(2));
            }
            Ok((hi as u16) * 256 + lo as u16)
        } else {
            Err(ParseError::InsufficientData)
        }
    }

    /// Borrows the next `n` bytes as a view into the underlying span.
    pub fn slice(&mut self, n: usize) -> (r: Result<&'a [u8], ParseError>)
        requires
            old(self).wf(),
        ensures
            final(self).wf(),
            old(self).remaining().len() < n ==> r == Err::<&'a [u8], ParseError>(
                ParseError::InsufficientData,
            ) && *final(self) == *old(self),
            old(self).remaining().len() >= n ==> (r matches Ok(s) && s@ == old(
                self,
            ).remaining().take(n as int)) && final(self).remaining() == old(self).remaining().skip(
                n as int,
            ),
    {
        if self.bytes.len() - self.pos >= n {
            let s = slice_subrange(self.bytes, self.pos, self.pos + n);
            self.pos = self.pos + n;
            proof {
                assert(s@ =~= old(self).remaining().take(n as int));
                assert(self.remaining() =~= old(self).remaining().skip(n as int));
            }
            Ok(s)
        } else {
            Err(ParseError::InsufficientData)
        }
    }
}

} // verus!
