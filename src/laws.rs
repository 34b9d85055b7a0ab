//! Properties that relate the encoder's output to what the decoder reads.
use vstd::prelude::*;
use vstd::utf8::{encode_utf8, encode_utf8_decode_utf8, encode_utf8_valid_utf8};
use crate::de::{
    bool_outcome, byte_buf_tags, next_object_spec, object_spec, parse_tlv, peek_object_spec,
    rest_of, seq_header_spec, string_outcome, tag_is, uint_outcome, unit_outcome,
    wrapper_header, wrapper_mismatch, DeState,
};
use crate::error::SerdeAsn1DerError;
use crate::length::{be_minimal, length_bytes, law_length_round_trip, lemma_be_minimal, pow256};
use crate::primitive::{
    bool_payload, decode_uint, tlv, uint_magnitude, uint_payload, Boolean,
    Null, OctetString, UnsignedInteger, Utf8String,
};
use crate::registry::{
    two_digits, utc_time_fields_of, utc_time_text, CivilTime, BIT_STRING_TAG, SEQUENCE_TAG,
};
use crate::ser::wrapped;

verus! {

/// A decoder state that has consumed `prefix` of `prefix + r`, with no
/// wrapper armed.
pub open spec fn state_at(prefix: Seq<u8>, r: Seq<u8>) -> DeState {
    DeState { data: prefix + r, pos: prefix.len(), armed: false, wtag: BIT_STRING_TAG }
}

proof fn lemma_rest_at(prefix: Seq<u8>, r: Seq<u8>, armed: bool, wtag: u8)
    ensures
        rest_of(DeState { data: prefix + r, pos: prefix.len(), armed, wtag }) == r,
{
    assert((prefix + r).subrange(prefix.len() as int, (prefix + r).len() as int) =~= r);
}

/// One whole object followed by anything reads back as its tag and payload.
pub proof fn law_tlv_round_trip(tag: u8, p: Seq<u8>, rest: Seq<u8>)
    requires
        p.len() <= usize::MAX,
    ensures
        parse_tlv(tlv(tag, p) + rest) == Ok::<(u8, Seq<u8>, nat), SerdeAsn1DerError>(
            (tag, p, tlv(tag, p).len()),
        ),
{
    let n = p.len() as usize;
    let l = length_bytes(n as nat);
    law_length_round_trip(n, p + rest);
    let s = tlv(tag, p) + rest;
    assert(s.drop_first() =~= l + (p + rest));
    assert(s.subrange(1 + l.len() as int, (1 + l.len() + p.len()) as int) =~= p);
}

/// Where no wrapper is armed, the object that the encoder wrote at the
/// decoder's position is the next object, and nothing but its tag selects it.
pub proof fn law_object_round_trip(prefix: Seq<u8>, tag: u8, p: Seq<u8>, rest: Seq<u8>)
    requires
        p.len() <= usize::MAX,
    ensures
        peek_object_spec(state_at(prefix, tlv(tag, p) + rest)) == Ok::<u8, SerdeAsn1DerError>(tag),
        next_object_spec(state_at(prefix, tlv(tag, p) + rest)) == Ok::<
            (u8, Seq<u8>, nat),
            SerdeAsn1DerError,
        >((tag, p, prefix.len() + tlv(tag, p).len())),
        object_spec(state_at(prefix, tlv(tag, p) + rest), tag_is(tag)) == Ok::<
            (Seq<u8>, nat),
            SerdeAsn1DerError,
        >((p, prefix.len() + tlv(tag, p).len())),
{
    lemma_rest_at(prefix, tlv(tag, p) + rest, false, BIT_STRING_TAG);
    law_tlv_round_trip(tag, p, rest);
}

/// The payload of every unsigned integer reads back as that integer.
pub proof fn law_uint_payload_round_trip(v: u128)
    ensures
        decode_uint(uint_payload(v as nat)) == Ok::<nat, SerdeAsn1DerError>(v as nat),
{
    let p = uint_payload(v as nat);
    lemma_be_minimal(v as nat);
    reveal_with_fuel(pow256, 17);
    assert(v < pow256(16));
    if v == 0 {
        assert(uint_magnitude(p) =~= Seq::<u8>::empty());
    } else if be_minimal(v as nat)[0] >= 128 {
        assert(uint_magnitude(p) =~= be_minimal(v as nat));
    } else {
        assert(uint_magnitude(p) == be_minimal(v as nat));
    }
}

/// A boolean written by the encoder reads back as itself.
pub proof fn law_bool_round_trip(prefix: Seq<u8>, b: bool, rest: Seq<u8>)
    ensures
        bool_outcome(state_at(prefix, tlv(Boolean::TAG, bool_payload(b)) + rest)) == Ok::<
            bool,
            SerdeAsn1DerError,
        >(b),
{
    law_object_round_trip(prefix, Boolean::TAG, bool_payload(b), rest);
}

/// An unsigned integer written by the encoder reads back as itself.
pub proof fn law_uint_round_trip(prefix: Seq<u8>, v: u128, rest: Seq<u8>)
    ensures
        uint_outcome(state_at(prefix, tlv(UnsignedInteger::TAG, uint_payload(v as nat)) + rest))
            == Ok::<nat, SerdeAsn1DerError>(v as nat),
{
    law_uint_payload_round_trip(v);
    lemma_be_minimal(v as nat);
    reveal_with_fuel(pow256, 17);
    law_object_round_trip(prefix, UnsignedInteger::TAG, uint_payload(v as nat), rest);
}

/// A null written by the encoder reads back.
pub proof fn law_null_round_trip(prefix: Seq<u8>, rest: Seq<u8>)
    ensures
        unit_outcome(state_at(prefix, tlv(Null::TAG, Seq::empty()) + rest)) == Ok::<
            (),
            SerdeAsn1DerError,
        >(()),
{
    law_object_round_trip(prefix, Null::TAG, Seq::empty(), rest);
}

/// An octet string written by the encoder reads back as the same bytes.
pub proof fn law_octet_string_round_trip(prefix: Seq<u8>, v: Seq<u8>, rest: Seq<u8>)
    requires
        v.len() <= usize::MAX,
    ensures
        object_spec(state_at(prefix, tlv(OctetString::TAG, v) + rest), byte_buf_tags()) matches Ok(
            (p, _),
        ) && p == v,
{
    law_object_round_trip(prefix, OctetString::TAG, v, rest);
}

/// A string written by the encoder reads back as the same characters.
pub proof fn law_string_round_trip(prefix: Seq<u8>, cs: Seq<char>, rest: Seq<u8>)
    requires
        encode_utf8(cs).len() <= usize::MAX,
    ensures
        string_outcome(state_at(prefix, tlv(Utf8String::TAG, encode_utf8(cs)) + rest)) == Ok::<
            Seq<char>,
            SerdeAsn1DerError,
        >(cs),
{
    law_object_round_trip(prefix, Utf8String::TAG, encode_utf8(cs), rest);
    encode_utf8_valid_utf8(cs);
    encode_utf8_decode_utf8(cs);
}

/// The header of a wrapper written around `inner` reads back, and the
/// object follows it.
proof fn lemma_wrapper_header(wtag: u8, inner: Seq<u8>, rest: Seq<u8>) -> (h: nat)
    requires
        inner.len() < usize::MAX,
    ensures
        wrapper_header(wrapped(true, wtag, inner) + rest, wtag) == Ok::<nat, SerdeAsn1DerError>(h),
        (wrapped(true, wtag, inner) + rest).subrange(
            h as int,
            (wrapped(true, wtag, inner) + rest).len() as int,
        ) == inner + rest,
        h + inner.len() == wrapped(true, wtag, inner).len(),
{
    let w = wrapped(true, wtag, inner);
    let r = w + rest;
    if wtag == BIT_STRING_TAG {
        let n = (inner.len() + 1) as usize;
        let l = length_bytes(n as nat);
        law_length_round_trip(n, seq![0x00u8] + inner + rest);
        assert(r.drop_first() =~= l + (seq![0x00u8] + inner + rest));
        let h = 1 + l.len() + 1;
        assert(r.subrange(h as int, r.len() as int) =~= inner + rest);
        h
    } else {
        let n = inner.len() as usize;
        let l = length_bytes(n as nat);
        law_length_round_trip(n, inner + rest);
        assert(r.drop_first() =~= l + (inner + rest));
        let h = 1 + l.len();
        assert(r.subrange(h as int, r.len() as int) =~= inner + rest);
        h
    }
}

/// An object that the encoder wrote under a wrapper is read through the
/// same wrapper armed in the decoder: its tag is seen through the header,
/// and it is consumed together with the header.
#[verifier::rlimit(50)]
pub proof fn law_encapsulated_round_trip(
    prefix: Seq<u8>,
    wtag: u8,
    tag: u8,
    p: Seq<u8>,
    rest: Seq<u8>,
)
    requires
        tlv(tag, p).len() < usize::MAX,
    ensures
        ({
            let s = DeState {
                data: prefix + (wrapped(true, wtag, tlv(tag, p)) + rest),
                pos: prefix.len(),
                armed: true,
                wtag,
            };
            &&& peek_object_spec(s) == Ok::<u8, SerdeAsn1DerError>(tag)
            &&& next_object_spec(s) == Ok::<(u8, Seq<u8>, nat), SerdeAsn1DerError>(
                (tag, p, prefix.len() + wrapped(true, wtag, tlv(tag, p)).len()),
            )
            &&& seq_header_spec(s) == Ok::<(u8, nat, nat), SerdeAsn1DerError>(
                (tag, p.len(), (prefix.len() + wrapped(true, wtag, tlv(tag, p)).len() - p.len()) as nat),
            )
        }),
{
    let inner = tlv(tag, p);
    let w = wrapped(true, wtag, inner);
    let r = w + rest;
    let s = DeState { data: prefix + r, pos: prefix.len(), armed: true, wtag };
    lemma_rest_at(prefix, r, true, wtag);
    let h = lemma_wrapper_header(wtag, inner, rest);
    assert((inner + rest)[0] == tag);
    assert(r[h as int] == (inner + rest)[0]);
    assert(s.data.subrange((prefix.len() + h) as int, s.data.len() as int) =~= inner + rest);
    law_tlv_round_trip(tag, p, rest);
    law_length_round_trip(p.len() as usize, p + rest);
    assert((inner + rest).drop_first() =~= length_bytes(p.len()) + (p + rest));
}

/// Where the armed wrapper's tag is not the next byte, the wrapper is
/// reported missing: the decoder then disarms it and consumes nothing, so
/// that the caller can substitute a default and read on.
pub proof fn law_absent_wrapper(s: DeState)
    requires
        s.armed,
        s.pos < s.data.len(),
        s.data[s.pos as int] != s.wtag,
    ensures
        peek_object_spec(s) == Err::<u8, SerdeAsn1DerError>(SerdeAsn1DerError::InvalidData),
        wrapper_mismatch(s),
{
    assert(rest_of(s)[0] == s.data[s.pos as int]);
}

/// A sequence written by the encoder declares exactly the length of its
/// elements' bytes, and they start right after its header.
pub proof fn law_sequence_header(prefix: Seq<u8>, tag: u8, body: Seq<u8>, rest: Seq<u8>)
    requires
        body.len() <= usize::MAX,
    ensures
        seq_header_spec(state_at(prefix, tlv(tag, body) + rest)) == Ok::<
            (u8, nat, nat),
            SerdeAsn1DerError,
        >((tag, body.len(), prefix.len() + 1 + length_bytes(body.len()).len())),
{
    let s = state_at(prefix, tlv(tag, body) + rest);
    lemma_rest_at(prefix, tlv(tag, body) + rest, false, BIT_STRING_TAG);
    law_length_round_trip(body.len() as usize, body + rest);
    assert((tlv(tag, body) + rest).drop_first() =~= length_bytes(body.len()) + (body + rest));
}

/// Any strict prefix of an object fails to read as truncated data.
pub proof fn law_truncated_object(tag: u8, p: Seq<u8>, k: nat)
    requires
        p.len() <= usize::MAX,
        k < tlv(tag, p).len(),
    ensures
        parse_tlv(tlv(tag, p).subrange(0, k as int)) == Err::<(u8, Seq<u8>, nat), SerdeAsn1DerError>(
            SerdeAsn1DerError::TruncatedData,
        ),
{
    let t = tlv(tag, p);
    let s = t.subrange(0, k as int);
    if k > 0 {
        let n = p.len() as usize;
        let l = length_bytes(n as nat);
        law_length_round_trip(n, p);
        lemma_be_minimal(n as nat);
        let d = s.drop_first();
        assert(d =~= (l + p).subrange(0, k - 1));
        if d.len() >= l.len() {
            assert(d =~= l + p.subrange(0, k - 1 - l.len()));
            law_length_round_trip(n, p.subrange(0, k - 1 - l.len()));
        } else if d.len() > 0 {
            assert(d[0] == l[0]);
        }
    }
}

/// A decoder over a strict prefix of an object reads nothing from it but
/// the report of truncated data.
pub proof fn law_truncated_read(prefix: Seq<u8>, tag: u8, p: Seq<u8>, k: nat)
    requires
        p.len() <= usize::MAX,
        k < tlv(tag, p).len(),
    ensures
        next_object_spec(state_at(prefix, tlv(tag, p).subrange(0, k as int))) == Err::<
            (u8, Seq<u8>, nat),
            SerdeAsn1DerError,
        >(SerdeAsn1DerError::TruncatedData),
        object_spec(state_at(prefix, tlv(tag, p).subrange(0, k as int)), tag_is(tag)) == Err::<
            (Seq<u8>, nat),
            SerdeAsn1DerError,
        >(SerdeAsn1DerError::TruncatedData),
{
    let r = tlv(tag, p).subrange(0, k as int);
    lemma_rest_at(prefix, r, false, BIT_STRING_TAG);
    law_truncated_object(tag, p, k);
}

} // verus!

verus! {

/// The calendar fields of every time from 1950 to 2049 read back from the
/// UTCTime text written for them.
pub proof fn law_utc_time_text_round_trip(t: CivilTime)
    requires
        1950 <= t.0 <= 2049,
        t.1 < 100,
        t.2 < 100,
        t.3 < 100,
        t.4 < 100,
        t.5 < 100,
    ensures
        utc_time_text(t) matches Ok(text) && utc_time_fields_of(text) == Ok::<
            CivilTime,
            SerdeAsn1DerError,
        >(t),
{
    let text = two_digits((t.0 % 100) as u32) + two_digits(t.1) + two_digits(t.2) + two_digits(
        t.3,
    ) + two_digits(t.4) + two_digits(t.5) + seq![0x5au8];
    assert forall|v: u32| v < 100 implies #[trigger] two_digits(v)[0] % 16 == v / 10 && two_digits(
        v,
    )[1] % 16 == v % 10 by {}
    assert(text[0] == two_digits((t.0 % 100) as u32)[0]);
    assert(text[1] == two_digits((t.0 % 100) as u32)[1]);
    assert(text[2] == two_digits(t.1)[0]);
    assert(text[3] == two_digits(t.1)[1]);
    assert(text[4] == two_digits(t.2)[0]);
    assert(text[5] == two_digits(t.2)[1]);
    assert(text[6] == two_digits(t.3)[0]);
    assert(text[7] == two_digits(t.3)[1]);
    assert(text[8] == two_digits(t.4)[0]);
    assert(text[9] == two_digits(t.4)[1]);
    assert(text[10] == two_digits(t.5)[0]);
    assert(text[11] == two_digits(t.5)[1]);
}

} // verus!

verus! {

/// The bytes of the unsigned integers `xs`, each written as one object.
pub open spec fn uint_elements(xs: Seq<u128>) -> Seq<u8>
    decreases xs.len(),
{
    if xs.len() == 0 {
        Seq::empty()
    } else {
        uint_elements(xs.drop_last()) + tlv(UnsignedInteger::TAG, uint_payload(xs.last() as nat))
    }
}

proof fn lemma_uint_elements_split(xs: Seq<u128>, i: int)
    requires
        0 <= i <= xs.len(),
    ensures
        uint_elements(xs) =~= uint_elements(xs.take(i)) + uint_elements(xs.skip(i)),
    decreases xs.len() - i,
{
    if i < xs.len() {
        lemma_uint_elements_split(xs, i + 1);
        assert(xs.take(i + 1).drop_last() =~= xs.take(i));
        let s = xs.skip(i);
        lemma_uint_elements_prepend(s);
        assert(s.drop_first() =~= xs.skip(i + 1));
    } else {
        assert(xs.take(i) =~= xs);
        assert(xs.skip(i) =~= Seq::<u128>::empty());
    }
}

proof fn lemma_uint_elements_prepend(s: Seq<u128>)
    requires
        s.len() > 0,
    ensures
        uint_elements(s) =~= tlv(UnsignedInteger::TAG, uint_payload(s[0] as nat)) + uint_elements(
            s.drop_first(),
        ),
    decreases s.len(),
{
    if s.len() > 1 {
        let d = s.drop_last();
        lemma_uint_elements_prepend(d);
        assert(d.drop_first() =~= s.drop_first().drop_last());
        assert(d[0] == s[0]);
        assert(s.drop_first().last() == s.last());
        let first = tlv(UnsignedInteger::TAG, uint_payload(s[0] as nat));
        let last = tlv(UnsignedInteger::TAG, uint_payload(s.last() as nat));
        assert(uint_elements(s) == uint_elements(d) + last);
        assert(uint_elements(s.drop_first()) == uint_elements(d.drop_first()) + last);
        assert(uint_elements(d) =~= first + uint_elements(d.drop_first()));
        assert(uint_elements(s) =~= first + uint_elements(s.drop_first()));
    } else {
        assert(s.drop_first() =~= Seq::<u128>::empty());
        assert(s.drop_last() =~= Seq::<u128>::empty());
        assert(s.last() == s[0]);
    }
}

proof fn lemma_uint_elements_at(xs: Seq<u128>, i: int)
    requires
        0 <= i < xs.len(),
    ensures
        uint_elements(xs) =~= uint_elements(xs.take(i)) + (tlv(
            UnsignedInteger::TAG,
            uint_payload(xs[i] as nat),
        ) + uint_elements(xs.skip(i + 1))),
        uint_elements(xs.take(i + 1)) == uint_elements(xs.take(i)) + tlv(
            UnsignedInteger::TAG,
            uint_payload(xs[i] as nat),
        ),
{
    lemma_uint_elements_split(xs, i);
    let after = xs.skip(i);
    lemma_uint_elements_prepend(after);
    assert(after.drop_first() =~= xs.skip(i + 1));
    assert(after[0] == xs[i]);
    assert(xs.take(i + 1).drop_last() =~= xs.take(i));
}

proof fn lemma_uint_payload_len(v: u128)
    ensures
        uint_payload(v as nat).len() <= 17,
{
    lemma_be_minimal(v as nat);
    reveal_with_fuel(pow256, 17);
    assert(v < pow256(16));
}

#[verifier::rlimit(50)]
proof fn lemma_uint_sequence_element(prefix: Seq<u8>, xs: Seq<u128>, rest: Seq<u8>, i: int)
    requires
        uint_elements(xs).len() <= usize::MAX,
        0 <= i < xs.len(),
    ensures
        ({
            let body = uint_elements(xs);
            let s = DeState {
                data: prefix + (tlv(SEQUENCE_TAG, body) + rest),
                pos: prefix.len() + 1 + length_bytes(body.len()).len() + uint_elements(
                    xs.take(i),
                ).len(),
                armed: false,
                wtag: BIT_STRING_TAG,
            };
            &&& uint_outcome(s) == Ok::<nat, SerdeAsn1DerError>(xs[i] as nat)
            &&& object_spec(s, tag_is(UnsignedInteger::TAG)) == Ok::<(Seq<u8>, nat), SerdeAsn1DerError>(
                (
                    uint_payload(xs[i] as nat),
                    prefix.len() + 1 + length_bytes(body.len()).len() + uint_elements(
                        xs.take(i + 1),
                    ).len(),
                ),
            )
        }),
{
    let body = uint_elements(xs);
    let head = prefix + seq![SEQUENCE_TAG] + length_bytes(body.len());
    lemma_uint_elements_at(xs, i);
    let elem = tlv(UnsignedInteger::TAG, uint_payload(xs[i] as nat));
    let before = head + uint_elements(xs.take(i));
    let tail = uint_elements(xs.skip(i + 1)) + rest;
    assert(prefix + (tlv(SEQUENCE_TAG, body) + rest) =~= before + (elem + tail));
    law_uint_round_trip(before, xs[i], tail);
    lemma_uint_payload_len(xs[i]);
    law_object_round_trip(before, UnsignedInteger::TAG, uint_payload(xs[i] as nat), tail);
}

/// A sequence of unsigned integers written by the encoder reads back element
/// by element: its header declares exactly the bytes of its elements, and
/// each element starts where the one before it ended and reads back as
/// itself.
pub proof fn law_uint_sequence_round_trip(prefix: Seq<u8>, xs: Seq<u128>, rest: Seq<u8>)
    requires
        uint_elements(xs).len() <= usize::MAX,
    ensures
        seq_header_spec(state_at(prefix, tlv(SEQUENCE_TAG, uint_elements(xs)) + rest)) == Ok::<
            (u8, nat, nat),
            SerdeAsn1DerError,
        >(
            (
                SEQUENCE_TAG,
                uint_elements(xs).len(),
                prefix.len() + 1 + length_bytes(uint_elements(xs).len()).len(),
            ),
        ),
        forall|i: int|
            0 <= i < xs.len() ==> {
                let body = uint_elements(xs);
                let s = DeState {
                    data: prefix + (tlv(SEQUENCE_TAG, body) + rest),
                    pos: prefix.len() + 1 + length_bytes(body.len()).len() + uint_elements(
                        #[trigger] xs.take(i),
                    ).len(),
                    armed: false,
                    wtag: BIT_STRING_TAG,
                };
                &&& uint_outcome(s) == Ok::<nat, SerdeAsn1DerError>(xs[i] as nat)
                &&& object_spec(s, tag_is(UnsignedInteger::TAG)) == Ok::<
                    (Seq<u8>, nat),
                    SerdeAsn1DerError,
                >(
                    (
                        uint_payload(xs[i] as nat),
                        prefix.len() + 1 + length_bytes(body.len()).len() + uint_elements(
                            xs.take(i + 1),
                        ).len(),
                    ),
                )
            },
{
    law_sequence_header(prefix, SEQUENCE_TAG, uint_elements(xs), rest);
    assert forall|i: int| 0 <= i < xs.len() implies {
        let body = uint_elements(xs);
        let s = DeState {
            data: prefix + (tlv(SEQUENCE_TAG, body) + rest),
            pos: prefix.len() + 1 + length_bytes(body.len()).len() + uint_elements(
                #[trigger] xs.take(i),
            ).len(),
            armed: false,
            wtag: BIT_STRING_TAG,
        };
        &&& uint_outcome(s) == Ok::<nat, SerdeAsn1DerError>(xs[i] as nat)
        &&& object_spec(s, tag_is(UnsignedInteger::TAG)) == Ok::<(Seq<u8>, nat), SerdeAsn1DerError>(
            (
                uint_payload(xs[i] as nat),
                prefix.len() + 1 + length_bytes(body.len()).len() + uint_elements(
                    xs.take(i + 1),
                ).len(),
            ),
        )
    } by {
        lemma_uint_sequence_element(prefix, xs, rest, i);
    }
}

} // verus!
