use vstd::prelude::*;
use crate::error::SerdeAsn1DerError;

verus! {

/// A byte source with one byte of lookahead that counts the bytes consumed.
pub struct PeekableReader {
    data: Vec<u8>,
    pos: usize,
}

impl PeekableReader {
    /// All bytes of the source, consumed or not.
    pub closed spec fn data(&self) -> Seq<u8> {
        self.data@
    }

    /// The number of bytes consumed so far.
    pub closed spec fn position(&self) -> nat {
        self.pos as nat
    }

    pub open spec fn wf(&self) -> bool {
        self.position() <= self.data().len() <= usize::MAX
    }

    /// The bytes not consumed yet.
    pub open spec fn rest(&self) -> Seq<u8> {
        self.data().subrange(self.position() as int, self.data().len() as int)
    }

    /// Creates a reader over `data`.
    pub fn new(data: Vec<u8>) -> (r: Self)
        ensures
            r.wf(),
            r.data() == data@,
            r.position() == 0,
    {
        let _ = data.len();
        PeekableReader { data, pos: 0 }
    }

    /// The next byte, without consuming it; repeated calls give the same byte.
    pub fn peek_one(&self) -> (r: Result<u8, SerdeAsn1DerError>)
        requires
            self.wf(),
        ensures
            self.position() < self.data().len() ==> r == Ok::<u8, SerdeAsn1DerError>(
                self.data()[self.position() as int],
            ),
            self.position() >= self.data().len() ==> r == Err::<u8, SerdeAsn1DerError>(
                SerdeAsn1DerError::TruncatedData,
            ),
    {
        if self.pos < self.data.len() {
            Ok(self.data[self.pos])
        } else {
            Err(SerdeAsn1DerError::TruncatedData)
        }
    }

    /// The byte `offset` places after the next one, without consuming anything.
    pub fn peek_at(&self, offset: usize) -> (r: Result<u8, SerdeAsn1DerError>)
        requires
            self.wf(),
        ensures
            self.position() + offset < self.data().len() ==> r == Ok::<u8, SerdeAsn1DerError>(
                self.data()[self.position() + offset],
            ),
            self.position() + offset >= self.data().len() ==> r == Err::<u8, SerdeAsn1DerError>(
                SerdeAsn1DerError::TruncatedData,
            ),
    {
        if offset < self.data.len() - self.pos {
            Ok(self.data[self.pos + offset])
        } else {
            Err(SerdeAsn1DerError::TruncatedData)
        }
    }

    /// The number of bytes consumed so far.
    pub fn pos(&self) -> (r: usize)
        ensures
            r == self.position(),
    {
        self.pos
    }

    /// All bytes of the source.
    pub fn bytes(&self) -> (r: &[u8])
        ensures
            r@ == self.data(),
    {
        self.data.as_slice()
    }

    /// Consumes the next byte.
    pub fn read_one(&mut self) -> (r: Result<u8, SerdeAsn1DerError>)
        requires
            old(self).wf(),
        ensures
            final(self).wf(),
            final(self).data() == old(self).data(),
            old(self).position() < old(self).data().len() ==> r == Ok::<u8, SerdeAsn1DerError>(
                old(self).data()[old(self).position() as int],
            ) && final(self).position() == old(self).position() + 1,
            old(self).position() >= old(self).data().len() ==> r == Err::<u8, SerdeAsn1DerError>(
                SerdeAsn1DerError::TruncatedData,
            ) && final(self).position() == old(self).position(),
    {
        if self.pos < self.data.len() {
            let b = self.data[self.pos];
            self.pos = self.pos + 1;
            Ok(b)
        } else {
            Err(SerdeAsn1DerError::TruncatedData)
        }
    }

    /// Consumes the next `n` bytes and returns them; fails without consuming
    /// anything where fewer are left.
    pub fn read_exact(&mut self, n: usize) -> (r: Result<Vec<u8>, SerdeAsn1DerError>)
        requires
            old(self).wf(),
        ensures
            final(self).wf(),
            final(self).data() == old(self).data(),
            old(self).position() + n <= old(self).data().len() ==> (match r {
                Ok(v) => v@ == old(self).data().subrange(
                    old(self).position() as int,
                    old(self).position() + n,
                ),
                Err(_) => false,
            }) && final(self).position() == old(self).position() + n,
            old(self).position() + n > old(self).data().len() ==> r == Err::<Vec<u8>, SerdeAsn1DerError>(
                SerdeAsn1DerError::TruncatedData,
            ) && final(self).position() == old(self).position(),
    {
        if n > self.data.len() - self.pos {
            return Err(SerdeAsn1DerError::TruncatedData);
        }
        let mut out: Vec<u8> = Vec::new();
        let mut i: usize = 0;
        while i < n
            invariant
                self.wf(),
                self.pos + n <= self.data@.len(),
                self.data@.len() <= usize::MAX,
                i <= n,
                out@ == self.data@.subrange(self.pos as int, self.pos + i),
            decreases n - i,
        {
            out.push(self.data[self.pos + i]);
            proof {
                assert(out@ =~= self.data@.subrange(self.pos as int, self.pos + i + 1));
            }
            i = i + 1;
        }
        self.pos = self.pos + n;
        Ok(out)
    }

    /// Consumes `n` bytes; fails without consuming anything where fewer are left.
    pub fn skip(&mut self, n: usize) -> (r: Result<(), SerdeAsn1DerError>)
        requires
            old(self).wf(),
        ensures
            final(self).wf(),
            final(self).data() == old(self).data(),
            old(self).position() + n <= old(self).data().len() ==> r is Ok
                && final(self).position() == old(self).position() + n,
            old(self).position() + n > old(self).data().len() ==> r == Err::<(), SerdeAsn1DerError>(
                SerdeAsn1DerError::TruncatedData,
            ) && final(self).position() == old(self).position(),
    {
        if n > self.data.len() - self.pos {
            return Err(SerdeAsn1DerError::TruncatedData);
        }
        self.pos = self.pos + n;
        Ok(())
    }
}

} // verus!
