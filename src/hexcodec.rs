//! Hexadecimal text as recorded in execution traces, decoded through
//! `substreams::Hex`.
use vstd::prelude::*;

verus! {

#[verifier::external_type_specification]
#[verifier::external_body]
pub struct ExFromHexError(hex::FromHexError);

/// `0-9`, `a-f` or `A-F`, as ASCII bytes.
pub open spec fn is_hex_digit(c: u8) -> bool {
    (48 <= c <= 57) || (97 <= c <= 102) || (65 <= c <= 70)
}

/// The value of a hex digit.
pub open spec fn hex_digit_value(c: u8) -> nat {
    if 48 <= c <= 57 {
        (c - 48) as nat
    } else if 97 <= c <= 102 {
        (c - 87) as nat
    } else {
        (c - 55) as nat
    }
}

/// The text with a leading `0x` removed, if it has one.
pub open spec fn without_hex_prefix(s: Seq<u8>) -> Seq<u8> {
    if s.len() >= 2 && s[0] == 48 && s[1] == 120 {
        s.subrange(2, s.len() as int)
    } else {
        s
    }
}

/// An even number of hex digits.
pub open spec fn is_hex_text(t: Seq<u8>) -> bool {
    &&& t.len() % 2 == 0
    &&& forall|i: int| 0 <= i < t.len() ==> is_hex_digit(#[trigger] t[i])
}

/// The bytes that pairs of hex digits stand for, high digit first.
pub open spec fn hex_bytes(t: Seq<u8>) -> Seq<u8> {
    Seq::new(
        t.len() / 2,
        |i: int| (hex_digit_value(t[2 * i]) * 16 + hex_digit_value(t[2 * i + 1])) as u8,
    )
}

/// The lower-case hex digit for `n < 16`.
pub open spec fn lower_hex_digit(n: nat) -> u8 {
    if n < 10 {
        (48 + n) as u8
    } else {
        (87 + n) as u8
    }
}

/// Lower-case hex text of a byte string, high digit first.
pub open spec fn lower_hex(bs: Seq<u8>) -> Seq<u8> {
    Seq::new(
        2 * bs.len(),
        |i: int|
            if i % 2 == 0 {
                lower_hex_digit((bs[i / 2] / 16) as nat)
            } else {
                lower_hex_digit((bs[i / 2] % 16) as nat)
            },
    )
}

/// Lower-case hex text decodes back to its bytes.
pub proof fn lemma_lower_hex_decodes(bs: Seq<u8>)
    ensures
        is_hex_text(lower_hex(bs)),
        without_hex_prefix(lower_hex(bs)) == lower_hex(bs),
        hex_bytes(lower_hex(bs)) == bs,
{
    let t = lower_hex(bs);
    assert forall|i: int| 0 <= i < t.len() implies is_hex_digit(#[trigger] t[i]) by {
        let b = bs[i / 2];
        assert(b / 16 < 16 && b % 16 < 16);
    }
    if t.len() >= 2 {
        assert(!(t[1] == 120)) by {
            let b = bs[0];
            assert(b % 16 < 16);
        }
    }
    assert forall|i: int| 0 <= i < bs.len() implies #[trigger] hex_bytes(t)[i] == bs[i] by {
        assert((2 * i) / 2 == i && (2 * i) % 2 == 0);
        assert((2 * i + 1) / 2 == i && (2 * i + 1) % 2 == 1);
        let b = bs[i];
        assert(b / 16 < 16 && b % 16 < 16);
        assert((b / 16) * 16 + b % 16 == b);
    }
    assert(hex_bytes(t) =~= bs);
}

/// What `substreams::Hex::decode` accepts.
pub open spec fn decodes_as_hex(s: Seq<u8>) -> bool {
    s.len() >= 2 && is_hex_text(without_hex_prefix(s))
}

/// What `substreams::Hex::decode` returns on accepted text.
pub open spec fn decoded_hex(s: Seq<u8>) -> Seq<u8> {
    hex_bytes(without_hex_prefix(s))
}

/// Relies on `substreams::Hex::decode`: it drops a leading `0x` and hands the
/// rest to `hex::decode`, which fails on an odd length or a byte other than
/// `0-9a-fA-F` and otherwise turns each pair of digits into one byte. It
/// indexes the first two bytes, so shorter input is not passed.
#[verifier::external_body]
pub(crate) fn hex_decode(s: &[u8]) -> (r: Result<Vec<u8>, hex::FromHexError>)
    requires
        s@.len() >= 2,
    ensures
        r is Ok <==> is_hex_text(without_hex_prefix(s@)),
        r matches Ok(v) ==> v@ == hex_bytes(without_hex_prefix(s@)),
{
    substreams::Hex::<&[u8]>::decode(s)
}

} // verus!
