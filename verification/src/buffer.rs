use vstd::prelude::*;

use crate::wire::u16_be;
use crate::TlsError;

verus! {

/// Sequential write sink for encoding. Its view is the byte sequence written
/// so far. Besides plain appends it supports a scoped two-byte length prefix:
/// `open_u16_length` reserves the two bytes, and after the body has been
/// written `close_u16_length` fills them with the number of bytes the body
/// took.
pub struct CryptoBuffer {
    data: Vec<u8>,
}

impl View for CryptoBuffer {
    type V = Seq<u8>;

    closed spec fn view(&self) -> Seq<u8> {
        self.data@
    }
}

impl CryptoBuffer {
    pub fn new() -> (r: CryptoBuffer)
        ensures
            r@ == Seq::<u8>::empty(),
    {
        let r = CryptoBuffer { data: Vec::new() };
        proof {
            assert(r@ =~= Seq::<u8>::empty());
        }
        r
    }

    pub fn len(&self) -> (r: usize)
        ensures
            r == self@.len(),
    {
        self.data.len()
    }

    /// Appends one byte.
    pub fn push(&mut self, b: u8) -> (r: Result<(), TlsError>)
        ensures
            r == Ok::<(), TlsError>(()),
            final(self)@ == old(self)@.push(b),
    {
        self.data.push(b);
        Ok(())
    }

    /// Appends a 16-bit value in big-endian order.
    pub fn push_u16(&mut self, v: u16) -> (r: Result<(), TlsError>)
        ensures
            r == Ok::<(), TlsError>(()),
            final(self)@ == old(self)@ + u16_be(v),
    {
        self.data.push((v / 256) as u8);
        self.data.push((v % 256) as u8);
        proof {
            assert(self@ =~= old(self)@ + u16_be(v));
        }
        Ok(())
    }

    /// Appends every byte of a span.
    pub fn extend_from_slice(&mut self, s: &[u8]) -> (r: Result<(), TlsError>)
        ensures
            r == Ok::<(), TlsError>(()),
            final(self)@ == old(self)@ + s@,
    {
        self.data.extend_from_slice(s);
        Ok(())
    }

    /// Reserves the two bytes of a length prefix and returns their position.
    pub fn open_u16_length(&mut self) -> (pos: usize)
        ensures
            pos == old(self)@.len(),
            final(self)@ == old(self)@ + seq![0u8, 0u8],
    {
        let pos = self.data.len();
        self.data.push(0);
        self.data.push(0);
        proof {
            assert(self@ =~= old(self)@ + seq![0u8, 0u8]);
        }
        pos
    }

    /// Fills a reserved length prefix with the number of bytes written since
    /// it was opened. Fails only when that number does not fit in 16 bits.
    pub fn close_u16_length(&mut self, pos: usize) -> (r: Result<(), TlsError>)
        requires
            pos + 2 <= old(self)@.len(),
        ensures
            old(self)@.len() - pos - 2 > 0xffff ==> r == Err::<(), TlsError>(TlsError::EncodeError)
                && *final(self) == *old(self),
            old(self)@.len() - pos - 2 <= 0xffff ==> r == Ok::<(), TlsError>(()) && final(self)@
                == ({
                let n = (old(self)@.len() - pos - 2) as u16;
                old(self)@.update(pos as int, u16_be(n)[0]).update(pos as int + 1, u16_be(n)[1])
            }),
    {
        let n = self.data.len() - pos - 2;
        if n > 0xffff {
            return Err(TlsError::EncodeError);
        }
        let v = n as u16;
        self.data[pos] = (v / 256) as u8;
        self.data[pos + 1] = (v % 256) as u8;
        Ok(())
    }

    /// Hands the written bytes out.
    pub fn into_vec(self) -> (r: Vec<u8>)
        ensures
            r@ == self@,
    {
        self.data
    }
}

} // verus!
