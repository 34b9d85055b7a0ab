use vstd::prelude::*;
use crate::error::SerdeAsn1DerError;
use crate::reader::PeekableReader;

verus! {

/// A byte source read one byte at a time.
pub trait ReadExt {
    /// The bytes not read yet.
    spec fn unread(&self) -> Seq<u8>;

    spec fn ready(&self) -> bool;

    /// Reads the next byte.
    fn read_one(&mut self) -> (r: Result<u8, SerdeAsn1DerError>)
        requires
            old(self).ready(),
        ensures
            final(self).ready(),
            old(self).unread().len() > 0 ==> r == Ok::<u8, SerdeAsn1DerError>(old(self).unread()[0])
                && final(self).unread() == old(self).unread().drop_first(),
            old(self).unread().len() == 0 ==> r == Err::<u8, SerdeAsn1DerError>(
                SerdeAsn1DerError::TruncatedData,
            ) && final(self).unread() == old(self).unread(),
    ;
}

impl ReadExt for PeekableReader {
    open spec fn unread(&self) -> Seq<u8> {
        self.rest()
    }

    open spec fn ready(&self) -> bool {
        self.wf()
    }

    fn read_one(&mut self) -> (r: Result<u8, SerdeAsn1DerError>) {
        let r = PeekableReader::read_one(self);
        proof {
            if old(self).position() < old(self).data().len() {
                assert(self.rest() =~= old(self).rest().drop_first());
            }
        }
        r
    }
}

/// A byte sink that takes whole slices.
pub trait WriteExt {
    /// The bytes written so far.
    spec fn written(&self) -> Seq<u8>;

    /// Writes `byte` and returns the number of bytes written.
    fn write_one(&mut self, byte: u8) -> (r: Result<usize, SerdeAsn1DerError>)
        ensures
            final(self).written() == old(self).written().push(byte),
            r == Ok::<usize, SerdeAsn1DerError>(1),
    ;

    /// Writes all of `data` and returns the number of bytes written.
    fn write_exact(&mut self, data: &[u8]) -> (r: Result<usize, SerdeAsn1DerError>)
        ensures
            final(self).written() == old(self).written() + data@,
            r == Ok::<usize, SerdeAsn1DerError>(data@.len() as usize),
    ;
}

impl WriteExt for Vec<u8> {
    open spec fn written(&self) -> Seq<u8> {
        self@
    }

    fn write_one(&mut self, byte: u8) -> (r: Result<usize, SerdeAsn1DerError>) {
        self.push(byte);
        Ok(1)
    }

    fn write_exact(&mut self, data: &[u8]) -> (r: Result<usize, SerdeAsn1DerError>) {
        append_bytes(self, data);
        Ok(data.len())
    }
}

/// Appends `bytes` to `writer`.
pub fn append_bytes(writer: &mut Vec<u8>, bytes: &[u8])
    ensures
        final(writer)@ == old(writer)@ + bytes@,
{
    let mut i: usize = 0;
    while i < bytes.len()
        invariant
            i <= bytes@.len(),
            writer@ == old(writer)@ + bytes@.subrange(0, i as int),
        decreases bytes@.len() - i,
    {
        writer.push(bytes[i]);
        proof {
            assert(bytes@.subrange(0, i + 1) =~= bytes@.subrange(0, i as int).push(bytes@[i as int]));
        }
        i = i + 1;
    }
    proof {
        assert(bytes@.subrange(0, bytes@.len() as int) =~= bytes@);
    }
}

} // verus!
