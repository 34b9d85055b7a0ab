use vstd::prelude::*;
use crate::error::SerdeAsn1DerError;
use crate::reader::PeekableReader;

verus! {

/// The value of a big-endian byte string.
pub open spec fn be_value(s: Seq<u8>) -> nat
    decreases s.len(),
{
    if s.len() == 0 {
        0
    } else {
        be_value(s.drop_last()) * 256 + s.last() as nat
    }
}

/// The shortest big-endian byte string of `n` (empty for zero).
pub open spec fn be_minimal(n: nat) -> Seq<u8>
    decreases n,
{
    if n == 0 {
        Seq::empty()
    } else {
        be_minimal(n / 256).push((n % 256) as u8)
    }
}

pub open spec fn pow256(k: nat) -> nat
    decreases k,
{
    if k == 0 {
        1
    } else {
        256 * pow256((k - 1) as nat)
    }
}

/// The DER length field of a payload of `n` bytes.
pub open spec fn length_bytes(n: nat) -> Seq<u8> {
    if n < 128 {
        seq![n as u8]
    } else {
        seq![(0x80 + be_minimal(n).len()) as u8] + be_minimal(n)
    }
}

/// Reads a length field at the start of `s`: the length and the number of
/// bytes the field takes.
pub open spec fn parse_length(s: Seq<u8>) -> Result<(nat, nat), SerdeAsn1DerError> {
    if s.len() == 0 {
        Err(SerdeAsn1DerError::TruncatedData)
    } else if s[0] < 128 {
        Ok((s[0] as nat, 1))
    } else {
        let n = (s[0] - 128) as nat;
        if n > 8 {
            Err(SerdeAsn1DerError::UnsupportedValue)
        } else if s.len() < 1 + n {
            Err(SerdeAsn1DerError::TruncatedData)
        } else if be_value(s.subrange(1, 1 + n as int)) > usize::MAX {
            Err(SerdeAsn1DerError::UnsupportedValue)
        } else {
            Ok((be_value(s.subrange(1, 1 + n as int)), 1 + n))
        }
    }
}

pub proof fn lemma_be_value_bound(s: Seq<u8>)
    ensures
        be_value(s) < pow256(s.len()),
    decreases s.len(),
{
    if s.len() > 0 {
        lemma_be_value_bound(s.drop_last());
        let v = be_value(s.drop_last());
        let p = pow256(s.drop_last().len());
        let b = s.last() as nat;
        assert(v * 256 + b < 256 * p) by (nonlinear_arith)
            requires v < p, b < 256;
    }
}

pub proof fn lemma_be_minimal(n: nat)
    ensures
        be_value(be_minimal(n)) == n,
        n > 0 ==> be_minimal(n).len() > 0 && be_minimal(n)[0] != 0,
        n < 128 ==> be_minimal(n).len() <= 1,
        forall|k: nat| n < pow256(k) ==> be_minimal(n).len() <= k,
    decreases n,
{
    if n > 0 {
        lemma_be_minimal(n / 256);
        let s = be_minimal(n);
        assert(s.drop_last() =~= be_minimal(n / 256));
        assert forall|k: nat| n < pow256(k) implies be_minimal(n).len() <= k by {
            if k == 0 {
            } else {
                let q = n / 256;
                let p = pow256((k - 1) as nat);
                assert(q < p) by (nonlinear_arith)
                    requires n < 256 * p, q == n / 256;
            }
        }
        if n / 256 == 0 {
            assert(s[0] == (n % 256) as u8);
        } else {
            assert(s[0] == be_minimal(n / 256)[0]);
        }
    }
}

pub proof fn lemma_pow256_8()
    ensures
        pow256(8) == 0x1_0000_0000_0000_0000,
        forall|k: nat| k <= 8 ==> #[trigger] pow256(k) <= pow256(8),
{
    reveal_with_fuel(pow256, 9);
}

/// Decoding the length field of any length that fits a `usize` gives the
/// length back, whatever follows it; a length below 128 takes one byte.
pub proof fn law_length_round_trip(n: usize, rest: Seq<u8>)
    ensures
        parse_length(length_bytes(n as nat) + rest) == Ok::<(nat, nat), SerdeAsn1DerError>(
            (n as nat, length_bytes(n as nat).len()),
        ),
        n <= 127 ==> length_bytes(n as nat).len() == 1,
        n > 127 ==> length_bytes(n as nat)[1] != 0,
{
    let s = length_bytes(n as nat) + rest;
    lemma_be_minimal(n as nat);
    lemma_pow256_8();
    if n >= 128 {
        let m = be_minimal(n as nat);
        assert(m.len() <= 8);
        assert(s.subrange(1, 1 + m.len() as int) =~= m);
    }
}

/// The DER length field codec.
pub struct Length;

impl Length {
    /// The number of bytes the length field of `len` takes.
    pub fn encoded_len(len: usize) -> (r: usize)
        ensures
            r == length_bytes(len as nat).len(),
    {
        if len < 128 {
            1
        } else {
            let be = be_bytes(len as u128);
            proof {
                lemma_be_minimal(len as nat);
                lemma_pow256_8();
            }
            1 + be.len()
        }
    }

    /// Writes the length field of `len` to `writer` and returns the number of
    /// bytes written.
    pub fn serialize(len: usize, writer: &mut Vec<u8>) -> (r: Result<usize, SerdeAsn1DerError>)
        ensures
            final(writer)@ == old(writer)@ + length_bytes(len as nat),
            r == Ok::<usize, SerdeAsn1DerError>(length_bytes(len as nat).len() as usize),
    {
        if len < 128 {
            writer.push(len as u8);
            proof {
                assert(final(writer)@ =~= old(writer)@ + length_bytes(len as nat));
            }
            Ok(1)
        } else {
            let be = be_bytes(len as u128);
            proof {
                lemma_be_minimal(len as nat);
                lemma_pow256_8();
            }
            let count = be.len();
            writer.push(0x80u8 + count as u8);
            let mut i: usize = 0;
            while i < count
                invariant
                    count == be@.len(),
                    count <= 8,
                    be@ == be_minimal(len as nat),
                    i <= count,
                    writer@ == old(writer)@ + seq![(0x80 + count) as u8] + be@.subrange(0, i as int),
                decreases count - i,
            {
                writer.push(be[i]);
                proof {
                    assert(be@.subrange(0, i + 1) =~= be@.subrange(0, i as int).push(be@[i as int]));
                }
                i = i + 1;
            }
            proof {
                assert(be@.subrange(0, count as int) =~= be@);
                assert(final(writer)@ =~= old(writer)@ + length_bytes(len as nat));
            }
            Ok(1 + count)
        }
    }

    /// Reads a length field that starts at `at` in `data`: the length and the
    /// number of bytes the field takes.
    pub fn deserialize_at(data: &[u8], at: usize) -> (r: Result<(usize, usize), SerdeAsn1DerError>)
        requires
            at <= data@.len(),
        ensures
            match parse_length(data@.subrange(at as int, data@.len() as int)) {
                Ok((v, used)) => r == Ok::<(usize, usize), SerdeAsn1DerError>((v as usize, used as usize))
                    && v <= usize::MAX && used <= 9,
                Err(e) => r == Err::<(usize, usize), SerdeAsn1DerError>(e),
            },
            r matches Ok((v, used)) ==> at + used <= data@.len(),
    {
        let ghost s = data@.subrange(at as int, data@.len() as int);
        if at >= data.len() {
            return Err(SerdeAsn1DerError::TruncatedData);
        }
        let first = data[at];
        if first < 128 {
            return Ok((first as usize, 1));
        }
        let n = (first - 128) as usize;
        if n > 8 {
            return Err(SerdeAsn1DerError::UnsupportedValue);
        }
        if data.len() - at - 1 < n {
            return Err(SerdeAsn1DerError::TruncatedData);
        }
        let mut value: u64 = 0;
        let mut i: usize = 0;
        proof {
            lemma_pow256_8();
            assert(s.subrange(1, 1) =~= Seq::<u8>::empty());
        }
        while i < n
            invariant
                n <= 8,
                i <= n,
                at + 1 + n <= data@.len(),
                data@.len() <= usize::MAX,
                s == data@.subrange(at as int, data@.len() as int),
                value as nat == be_value(s.subrange(1, 1 + i as int)),
                pow256(8) == 0x1_0000_0000_0000_0000,
                forall|k: nat| k <= 8 ==> #[trigger] pow256(k) <= pow256(8),
            decreases n - i,
        {
            let b = data[at + 1 + i];
            proof {
                let t = s.subrange(1, 1 + i as int + 1);
                assert(t.drop_last() =~= s.subrange(1, 1 + i as int));
                assert(t.last() == b);
                lemma_be_value_bound(t);
                assert(t.len() == i + 1);
            }
            value = value * 256 + b as u64;
            i = i + 1;
        }
        if value > usize::MAX as u64 {
            return Err(SerdeAsn1DerError::UnsupportedValue);
        }
        Ok((value as usize, n + 1))
    }
}

impl Length {
    /// Reads a length field from `reader`.
    pub fn deserialized(reader: &mut PeekableReader) -> (r: Result<usize, SerdeAsn1DerError>)
        requires
            old(reader).wf(),
        ensures
            final(reader).wf(),
            final(reader).data() == old(reader).data(),
            match parse_length(old(reader).rest()) {
                Ok((v, used)) => r == Ok::<usize, SerdeAsn1DerError>(v as usize)
                    && final(reader).position() == old(reader).position() + used,
                Err(e) => r == Err::<usize, SerdeAsn1DerError>(e),
            },
    {
        let (v, used) = Self::deserialize_at(reader.bytes(), reader.pos())?;
        let _ = reader.skip(used);
        Ok(v)
    }
}

/// The shortest big-endian bytes of `v`.
pub fn be_bytes(v: u128) -> (r: Vec<u8>)
    ensures
        r@ == be_minimal(v as nat),
{
    let mut out: Vec<u8> = Vec::new();
    let mut t: u128 = v;
    while t > 0
        invariant
            be_minimal(v as nat) == be_minimal(t as nat) + out@,
        decreases t,
    {
        let b = (t % 256) as u8;
        proof {
            assert(be_minimal(t as nat) == be_minimal((t / 256) as nat).push(b));
            assert(be_minimal((t / 256) as nat).push(b) + out@ =~= be_minimal((t / 256) as nat) + (
            seq![b] + out@));
        }
        let ghost before = out@;
        out.insert(0, b);
        proof {
            assert(out@ =~= seq![b] + before);
        }
        t = t / 256;
    }
    proof {
        assert(be_minimal(0) + out@ =~= out@);
    }
    out
}

} // verus!
