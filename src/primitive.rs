use vstd::prelude::*;
use vstd::string::StringSliceAdditionalSpecFns;
use vstd::utf8::{decode_utf8, encode_utf8, encode_utf8_decode_utf8, valid_utf8};
use crate::error::SerdeAsn1DerError;
use crate::stream::WriteExt;
use crate::length::{be_bytes, be_minimal, be_value, length_bytes, pow256, lemma_be_value_bound, Length};

verus! {

/// A complete DER object: tag, length field and payload.
pub open spec fn tlv(tag: u8, payload: Seq<u8>) -> Seq<u8> {
    seq![tag] + length_bytes(payload.len()) + payload
}

pub open spec fn bool_payload(b: bool) -> Seq<u8> {
    if b {
        seq![0xffu8]
    } else {
        seq![0x00u8]
    }
}

pub open spec fn decode_bool(p: Seq<u8>) -> Result<bool, SerdeAsn1DerError> {
    if p.len() == 0 {
        Err(SerdeAsn1DerError::TruncatedData)
    } else if p.len() > 1 {
        Err(SerdeAsn1DerError::InvalidData)
    } else if p[0] == 0x00 {
        Ok(false)
    } else if p[0] == 0xff {
        Ok(true)
    } else {
        Err(SerdeAsn1DerError::InvalidData)
    }
}

/// The minimal payload of a non-negative integer: its shortest big-endian
/// bytes, with one zero byte in front where the first byte has its high bit
/// set, and a single zero byte for zero.
pub open spec fn uint_payload(v: nat) -> Seq<u8> {
    if v == 0 {
        seq![0x00u8]
    } else if be_minimal(v)[0] >= 128 {
        seq![0x00u8] + be_minimal(v)
    } else {
        be_minimal(v)
    }
}

/// The integer payload `p` without its sign pad, where it has one.
pub open spec fn uint_magnitude(p: Seq<u8>) -> Seq<u8> {
    if p[0] == 0 {
        p.drop_first()
    } else {
        p
    }
}

pub open spec fn decode_uint(p: Seq<u8>) -> Result<nat, SerdeAsn1DerError> {
    if p.len() == 0 {
        Err(SerdeAsn1DerError::TruncatedData)
    } else if p[0] >= 128 {
        Err(SerdeAsn1DerError::UnsupportedValue)
    } else if p[0] == 0 && p.len() > 1 && p[1] < 128 {
        Err(SerdeAsn1DerError::InvalidData)
    } else if uint_magnitude(p).len() > 16 {
        Err(SerdeAsn1DerError::UnsupportedValue)
    } else {
        Ok(be_value(uint_magnitude(p)))
    }
}

/// A minimal two's-complement integer payload: non-empty, and without a
/// leading byte that only repeats the sign of the next one.
pub open spec fn canonical_int(p: Seq<u8>) -> bool {
    !(p.len() == 0 || (p.len() > 1 && ((p[0] == 0x00 && p[1] < 0x80) || (p[0] == 0xff && p[1]
        >= 0x80))))
}

/// Tells whether `data` is a minimal two's-complement integer payload.
pub fn is_canonical_int(data: &[u8]) -> (r: bool)
    ensures
        r == canonical_int(data@),
{
    if data.len() == 0 {
        return false;
    }
    if data.len() > 1 && ((data[0] == 0x00 && data[1] < 0x80) || (data[0] == 0xff && data[1]
        >= 0x80)) {
        return false;
    }
    true
}

pub open spec fn decode_null(p: Seq<u8>) -> Result<(), SerdeAsn1DerError> {
    if p.len() == 0 {
        Ok(())
    } else {
        Err(SerdeAsn1DerError::InvalidData)
    }
}

pub open spec fn decode_utf8_string(p: Seq<u8>) -> Result<Seq<char>, SerdeAsn1DerError> {
    if valid_utf8(p) {
        Ok(decode_utf8(p))
    } else {
        Err(SerdeAsn1DerError::InvalidData)
    }
}

/// The unsigned integer types the codec reads and writes.
pub trait UInt: Sized + Copy {
    spec fn max_nat() -> nat;

    spec fn nat_value(self) -> nat;

    proof fn value_bound(self)
        ensures
            self.nat_value() <= Self::max_nat(),
            Self::max_nat() <= u128::MAX,
    ;

    /// Converts `num`, where it fits.
    fn from_u128(num: u128) -> (r: Result<Self, SerdeAsn1DerError>)
        ensures
            num <= Self::max_nat() ==> (match r {
                Ok(v) => v.nat_value() == num,
                Err(_) => false,
            }),
            num > Self::max_nat() ==> r == Err::<Self, SerdeAsn1DerError>(
                SerdeAsn1DerError::UnsupportedValue,
            ),
    ;

    fn into_u128(self) -> (r: u128)
        ensures
            r == self.nat_value(),
    ;
}

impl UInt for u8 {
    open spec fn max_nat() -> nat {
        u8::MAX as nat
    }

    open spec fn nat_value(self) -> nat {
        self as nat
    }

    proof fn value_bound(self) {
    }

    fn from_u128(num: u128) -> (r: Result<Self, SerdeAsn1DerError>) {
        if num > u8::MAX as u128 {
            Err(SerdeAsn1DerError::UnsupportedValue)
        } else {
            Ok(num as u8)
        }
    }

    fn into_u128(self) -> (r: u128) {
        self as u128
    }
}

impl UInt for u16 {
    open spec fn max_nat() -> nat {
        u16::MAX as nat
    }

    open spec fn nat_value(self) -> nat {
        self as nat
    }

    proof fn value_bound(self) {
    }

    fn from_u128(num: u128) -> (r: Result<Self, SerdeAsn1DerError>) {
        if num > u16::MAX as u128 {
            Err(SerdeAsn1DerError::UnsupportedValue)
        } else {
            Ok(num as u16)
        }
    }

    fn into_u128(self) -> (r: u128) {
        self as u128
    }
}

impl UInt for u32 {
    open spec fn max_nat() -> nat {
        u32::MAX as nat
    }

    open spec fn nat_value(self) -> nat {
        self as nat
    }

    proof fn value_bound(self) {
    }

    fn from_u128(num: u128) -> (r: Result<Self, SerdeAsn1DerError>) {
        if num > u32::MAX as u128 {
            Err(SerdeAsn1DerError::UnsupportedValue)
        } else {
            Ok(num as u32)
        }
    }

    fn into_u128(self) -> (r: u128) {
        self as u128
    }
}

impl UInt for u64 {
    open spec fn max_nat() -> nat {
        u64::MAX as nat
    }

    open spec fn nat_value(self) -> nat {
        self as nat
    }

    proof fn value_bound(self) {
    }

    fn from_u128(num: u128) -> (r: Result<Self, SerdeAsn1DerError>) {
        if num > u64::MAX as u128 {
            Err(SerdeAsn1DerError::UnsupportedValue)
        } else {
            Ok(num as u64)
        }
    }

    fn into_u128(self) -> (r: u128) {
        self as u128
    }
}

impl UInt for u128 {
    open spec fn max_nat() -> nat {
        u128::MAX as nat
    }

    open spec fn nat_value(self) -> nat {
        self as nat
    }

    proof fn value_bound(self) {
    }

    fn from_u128(num: u128) -> (r: Result<Self, SerdeAsn1DerError>) {
        Ok(num)
    }

    fn into_u128(self) -> (r: u128) {
        self
    }
}

impl UInt for usize {
    open spec fn max_nat() -> nat {
        usize::MAX as nat
    }

    open spec fn nat_value(self) -> nat {
        self as nat
    }

    proof fn value_bound(self) {
    }

    fn from_u128(num: u128) -> (r: Result<Self, SerdeAsn1DerError>) {
        if num > usize::MAX as u128 {
            Err(SerdeAsn1DerError::UnsupportedValue)
        } else {
            Ok(num as usize)
        }
    }

    fn into_u128(self) -> (r: u128) {
        self as u128
    }
}

/// Writes the object of tag `tag` and payload `payload` to `writer` and
/// returns the number of bytes written.
pub fn write_tlv(tag: u8, payload: &[u8], writer: &mut Vec<u8>) -> (r: Result<usize, SerdeAsn1DerError>)
    ensures
        final(writer)@ == old(writer)@ + tlv(tag, payload@),
        r == Ok::<usize, SerdeAsn1DerError>(tlv(tag, payload@).len() as usize),
{
    let start = writer.len();
    let _ = writer.write_one(tag);
    let _ = Length::serialize(payload.len(), writer);
    let _ = writer.write_exact(payload);
    proof {
        assert(writer@ =~= old(writer)@ + tlv(tag, payload@));
    }
    Ok(writer.len() - start)
}

/// The codec of DER booleans.
pub struct Boolean;

impl Boolean {
    pub const TAG: u8 = 0x01;

    /// Reads a boolean payload: exactly one byte, 0x00 or 0xFF.
    pub fn deserialize(data: &[u8]) -> (r: Result<bool, SerdeAsn1DerError>)
        ensures
            r == decode_bool(data@),
    {
        if data.len() == 0 {
            return Err(SerdeAsn1DerError::TruncatedData);
        }
        if data.len() > 1 {
            return Err(SerdeAsn1DerError::InvalidData);
        }
        if data[0] == 0x00 {
            Ok(false)
        } else if data[0] == 0xff {
            Ok(true)
        } else {
            Err(SerdeAsn1DerError::InvalidData)
        }
    }

    /// Writes `value` as a complete object.
    pub fn serialize(value: bool, writer: &mut Vec<u8>) -> (r: Result<usize, SerdeAsn1DerError>)
        ensures
            final(writer)@ == old(writer)@ + tlv(Self::TAG, bool_payload(value)),
            r == Ok::<usize, SerdeAsn1DerError>(3),
    {
        let payload: [u8; 1] = if value {
            [0xff]
        } else {
            [0x00]
        };
        proof {
            assert(payload@ =~= bool_payload(value));
        }
        write_tlv(Self::TAG, &payload, writer)
    }
}

/// The minimal payload of `v`.
pub fn uint_payload_bytes(v: u128) -> (r: Vec<u8>)
    ensures
        r@ == uint_payload(v as nat),
{
    let mut be = be_bytes(v);
    if be.len() == 0 {
        let mut z: Vec<u8> = Vec::new();
        z.push(0);
        proof {
            assert(z@ =~= seq![0x00u8]);
        }
        z
    } else {
        if be[0] >= 128 {
            let ghost before = be@;
            be.insert(0, 0);
            proof {
                assert(be@ =~= seq![0x00u8] + before);
            }
        }
        be
    }
}

/// The codec of DER integers read and written as unsigned values.
pub struct UnsignedInteger;

impl UnsignedInteger {
    pub const TAG: u8 = 0x02;

    /// Reads an integer payload into `T`. The payload must be non-empty, not
    /// negative and minimal, and its value must fit `T`.
    pub fn deserialize<T: UInt>(data: &[u8]) -> (r: Result<T, SerdeAsn1DerError>)
        ensures
            match decode_uint(data@) {
                Ok(v) => (v <= T::max_nat() ==> (match r {
                    Ok(x) => x.nat_value() == v,
                    Err(_) => false,
                })) && (v > T::max_nat() ==> r == Err::<T, SerdeAsn1DerError>(
                    SerdeAsn1DerError::UnsupportedValue,
                )),
                Err(e) => r == Err::<T, SerdeAsn1DerError>(e),
            },
    {
        if data.len() == 0 {
            return Err(SerdeAsn1DerError::TruncatedData);
        }
        let first = data[0];
        if first >= 128 {
            return Err(SerdeAsn1DerError::UnsupportedValue);
        }
        let mut start: usize = 0;
        if first == 0 {
            if data.len() > 1 && data[1] < 128 {
                return Err(SerdeAsn1DerError::InvalidData);
            }
            start = 1;
        }
        let ghost m = uint_magnitude(data@);
        proof {
            assert(m =~= data@.subrange(start as int, data@.len() as int));
        }
        if data.len() - start > 16 {
            return Err(SerdeAsn1DerError::UnsupportedValue);
        }
        let n = data.len() - start;
        let mut value: u128 = 0;
        let mut i: usize = 0;
        proof {
            reveal_with_fuel(pow256, 17);
            assert(m.subrange(0, 0) =~= Seq::<u8>::empty());
        }
        while i < n
            invariant
                n <= 16,
                i <= n,
                start + n == data@.len(),
                data@.len() <= usize::MAX,
                m == data@.subrange(start as int, data@.len() as int),
                value as nat == be_value(m.subrange(0, i as int)),
                pow256(16) == u128::MAX + 1,
            decreases n - i,
        {
            let b = data[start + i];
            proof {
                let t = m.subrange(0, i + 1);
                assert(t.drop_last() =~= m.subrange(0, i as int));
                lemma_be_value_bound(t);
                lemma_pow256_mono((i + 1) as nat, 16);
            }
            value = value * 256 + b as u128;
            i = i + 1;
        }
        proof {
            assert(m.subrange(0, n as int) =~= m);
        }
        T::from_u128(value)
    }

    /// Writes `value` as a complete object with its minimal payload.
    pub fn serialize<T: UInt>(value: T, writer: &mut Vec<u8>) -> (r: Result<usize, SerdeAsn1DerError>)
        ensures
            final(writer)@ == old(writer)@ + tlv(Self::TAG, uint_payload(value.nat_value())),
            r == Ok::<usize, SerdeAsn1DerError>(
                tlv(Self::TAG, uint_payload(value.nat_value())).len() as usize,
            ),
    {
        let v = value.into_u128();
        let payload = uint_payload_bytes(v);
        write_tlv(Self::TAG, payload.as_slice(), writer)
    }
}

pub proof fn lemma_pow256_mono(a: nat, b: nat)
    requires
        a <= b,
    ensures
        pow256(a) <= pow256(b),
    decreases b - a,
{
    if a < b {
        lemma_pow256_mono(a, (b - 1) as nat);
    }
}

/// A decoded integer payload never needs more than 128 bits.
pub proof fn lemma_decode_uint_bound(p: Seq<u8>)
    ensures
        decode_uint(p) matches Ok(v) ==> v <= u128::MAX,
{
    if p.len() > 0 && uint_magnitude(p).len() <= 16 {
        let m = uint_magnitude(p);
        lemma_be_value_bound(m);
        lemma_pow256_mono(m.len(), 16);
        reveal_with_fuel(pow256, 17);
    }
}

/// The codec of the DER null value.
pub struct Null;

impl Null {
    pub const TAG: u8 = 0x05;

    /// Reads a null payload, which must be empty.
    pub fn deserialize(data: &[u8]) -> (r: Result<(), SerdeAsn1DerError>)
        ensures
            r == decode_null(data@),
    {
        if data.len() != 0 {
            return Err(SerdeAsn1DerError::InvalidData);
        }
        Ok(())
    }

    /// Writes a null object.
    pub fn serialize(writer: &mut Vec<u8>) -> (r: Result<usize, SerdeAsn1DerError>)
        ensures
            final(writer)@ == old(writer)@ + tlv(Self::TAG, Seq::empty()),
            r == Ok::<usize, SerdeAsn1DerError>(2),
    {
        let payload: [u8; 0] = [];
        proof {
            assert(payload@ =~= Seq::<u8>::empty());
        }
        write_tlv(Self::TAG, &payload, writer)
    }
}

/// The codec of DER octet strings.
pub struct OctetString;

impl OctetString {
    pub const TAG: u8 = 0x04;

    /// Reads an octet string payload: the bytes as they are.
    pub fn deserialize(data: &[u8]) -> (r: Result<&[u8], SerdeAsn1DerError>)
        ensures
            match r {
                Ok(s) => s@ == data@,
                Err(_) => false,
            },
    {
        Ok(data)
    }

    /// Writes `value` as a complete object.
    pub fn serialize(value: &[u8], writer: &mut Vec<u8>) -> (r: Result<usize, SerdeAsn1DerError>)
        ensures
            final(writer)@ == old(writer)@ + tlv(Self::TAG, value@),
            r == Ok::<usize, SerdeAsn1DerError>(tlv(Self::TAG, value@).len() as usize),
    {
        write_tlv(Self::TAG, value, writer)
    }
}

/// Relies on `core::str::from_utf8`: it succeeds exactly on well-formed
/// UTF-8, and the string it returns holds those same bytes.
#[verifier::external_body]
fn str_from_utf8<'a>(bytes: &'a [u8]) -> (r: Option<&'a str>)
    ensures
        r is Some <==> valid_utf8(bytes@),
        r matches Some(s) ==> s.spec_bytes() == bytes@,
{
    core::str::from_utf8(bytes).ok()
}

/// The codec of DER UTF-8 strings.
pub struct Utf8String;

impl Utf8String {
    pub const TAG: u8 = 0x0c;

    /// Reads a UTF-8 string payload, which must be well-formed UTF-8.
    pub fn deserialize(data: &[u8]) -> (r: Result<&str, SerdeAsn1DerError>)
        ensures
            match decode_utf8_string(data@) {
                Ok(chars) => match r {
                    Ok(s) => s@ == chars,
                    Err(_) => false,
                },
                Err(e) => r == Err::<&str, SerdeAsn1DerError>(e),
            },
    {
        match str_from_utf8(data) {
            Some(s) => {
                proof {
                    encode_utf8_decode_utf8(s@);
                }
                Ok(s)
            },
            None => Err(SerdeAsn1DerError::InvalidData),
        }
    }

    /// Writes `value` as a complete object whose payload is its UTF-8 bytes.
    pub fn serialize(value: &str, writer: &mut Vec<u8>) -> (r: Result<usize, SerdeAsn1DerError>)
        ensures
            final(writer)@ == old(writer)@ + tlv(Self::TAG, encode_utf8(value@)),
            r == Ok::<usize, SerdeAsn1DerError>(tlv(Self::TAG, encode_utf8(value@)).len() as usize),
    {
        write_tlv(Self::TAG, value.as_bytes(), writer)
    }
}

} // verus!
