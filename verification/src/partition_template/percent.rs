//! Percent-encoding of key parts.
//!
//! A byte that must not appear raw in a key part is written as `%XX`, with
//! `XX` its value in upper-case hexadecimal. Decoding turns every `%` that is
//! followed by two hexadecimal digits back into one byte and leaves every
//! other byte alone.

use vstd::prelude::*;
use vstd::string::StringSliceAdditionalSpecFns;

verus! {

/// The value of an ASCII hexadecimal digit of either case.
pub open spec fn hex_value(digit: u8) -> Option<u8> {
    if 0x30 <= digit <= 0x39 {
        Some((digit - 0x30) as u8)
    } else if 0x41 <= digit <= 0x46 {
        Some((digit - 0x41 + 10) as u8)
    } else if 0x61 <= digit <= 0x66 {
        Some((digit - 0x61 + 10) as u8)
    } else {
        None
    }
}

/// True when `s` starts with `%` and two hexadecimal digits.
pub open spec fn starts_with_triplet(s: Seq<u8>) -> bool {
    s.len() >= 3 && s[0] == 0x25 && hex_value(s[1]) is Some && hex_value(s[2]) is Some
}

/// The bytes that `s` percent-decodes to.
pub open spec fn spec_percent_decode(s: Seq<u8>) -> Seq<u8>
    decreases s.len(),
{
    if s.len() == 0 {
        Seq::empty()
    } else if starts_with_triplet(s) {
        seq![(hex_value(s[1])->0 * 16 + hex_value(s[2])->0) as u8] + spec_percent_decode(
            s.skip(3),
        )
    } else {
        seq![s[0]] + spec_percent_decode(s.skip(1))
    }
}

/// The upper-case hexadecimal digit for a value below 16.
pub open spec fn hex_upper(nibble: u8) -> u8 {
    if nibble < 10 {
        (0x30 + nibble) as u8
    } else {
        (0x41 + nibble - 10) as u8
    }
}

/// The three bytes `%XX` that stand for `byte`.
pub open spec fn spec_encode_byte(byte: u8) -> Seq<u8> {
    seq![0x25u8, hex_upper(byte / 16), hex_upper(byte % 16)]
}

/// True for the bytes that are never written raw into a key part: the
/// delimiter `|`, the markers `!`, `^` and `#`, the escape `%`, every ASCII
/// control byte and every byte outside ASCII.
pub open spec fn spec_must_encode(byte: u8) -> bool {
    byte >= 0x80 || byte < 0x20 || byte == 0x7F || byte == 0x7C || byte == 0x21 || byte == 0x5E
        || byte == 0x23 || byte == 0x25
}

/// What one byte is written as.
pub open spec fn spec_encode_one(byte: u8) -> Seq<u8> {
    if spec_must_encode(byte) {
        spec_encode_byte(byte)
    } else {
        seq![byte]
    }
}

/// The percent-encoding of `s`.
pub open spec fn spec_percent_encode(s: Seq<u8>) -> Seq<u8>
    decreases s.len(),
{
    if s.len() == 0 {
        Seq::empty()
    } else {
        spec_encode_one(s[0]) + spec_percent_encode(s.drop_first())
    }
}

/// True for a byte that may stand in an encoded key part: printable ASCII
/// other than `|`, `!`, `^` and `#`.
pub open spec fn spec_encoded_byte(byte: u8) -> bool {
    0x20 <= byte < 0x7F && byte != 0x7C && byte != 0x21 && byte != 0x5E && byte != 0x23
}

/// Encoding a sequence with one more byte appends that byte's encoding.
pub proof fn lemma_encode_push(s: Seq<u8>, byte: u8)
    ensures
        spec_percent_encode(s.push(byte)) == spec_percent_encode(s) + spec_encode_one(byte),
    decreases s.len(),
{
    if s.len() == 0 {
        let empty = Seq::<u8>::empty();
        assert(s =~= empty);
        assert(s.push(byte).drop_first() =~= empty);
        assert(spec_percent_encode(empty) =~= empty);
        assert(spec_percent_encode(s.push(byte)) =~= spec_percent_encode(s) + spec_encode_one(
            byte,
        ));
    } else {
        lemma_encode_push(s.drop_first(), byte);
        assert(s.push(byte).drop_first() =~= s.drop_first().push(byte));
        assert(spec_percent_encode(s.push(byte)) =~= spec_percent_encode(s) + spec_encode_one(
            byte,
        ));
    }
}

/// Encoding distributes over concatenation.
pub proof fn lemma_encode_concat(a: Seq<u8>, b: Seq<u8>)
    ensures
        spec_percent_encode(a + b) == spec_percent_encode(a) + spec_percent_encode(b),
    decreases a.len(),
{
    if a.len() == 0 {
        assert(a + b =~= b);
        assert(spec_percent_encode(a) + spec_percent_encode(b) =~= spec_percent_encode(b));
    } else {
        lemma_encode_concat(a.drop_first(), b);
        assert((a + b).drop_first() =~= a.drop_first() + b);
        assert(spec_percent_encode(a + b) =~= spec_percent_encode(a) + spec_percent_encode(b));
    }
}

/// The two digits written for a byte are hexadecimal and give the byte back.
proof fn lemma_hex_round_trip(byte: u8)
    ensures
        hex_value(hex_upper(byte / 16)) == Some((byte / 16) as u8),
        hex_value(hex_upper(byte % 16)) == Some((byte % 16) as u8),
        ((byte / 16) * 16 + byte % 16) as u8 == byte,
        spec_encoded_byte(hex_upper(byte / 16)),
        spec_encoded_byte(hex_upper(byte % 16)),
{
}

/// Decoding an encoding that more bytes follow gives the encoded bytes
/// back, and then what the bytes that follow decode to.
pub proof fn lemma_decode_encode_append(s: Seq<u8>, tail: Seq<u8>)
    ensures
        spec_percent_decode(spec_percent_encode(s) + tail) == s + spec_percent_decode(tail),
    decreases s.len(),
{
    if s.len() == 0 {
        assert(spec_percent_encode(s) + tail =~= tail);
        assert(s + spec_percent_decode(tail) =~= spec_percent_decode(tail));
    } else {
        let rest = spec_percent_encode(s.drop_first()) + tail;
        let whole = spec_percent_encode(s) + tail;
        lemma_decode_encode_append(s.drop_first(), tail);
        if spec_must_encode(s[0]) {
            lemma_hex_round_trip(s[0]);
            assert(whole.skip(3) =~= rest);
            assert(starts_with_triplet(whole));
        } else {
            assert(whole.skip(1) =~= rest);
            assert(!starts_with_triplet(whole));
        }
        assert(spec_percent_decode(whole) =~= seq![s[0]] + (s.drop_first() + spec_percent_decode(
            tail,
        )));
        assert(seq![s[0]] + (s.drop_first() + spec_percent_decode(tail)) =~= s
            + spec_percent_decode(tail));
    }
}

/// Decoding undoes encoding, whatever the bytes.
pub proof fn lemma_decode_encode(s: Seq<u8>)
    ensures
        spec_percent_decode(spec_percent_encode(s)) == s,
{
    let empty = Seq::<u8>::empty();
    lemma_decode_encode_append(s, empty);
    assert(spec_percent_encode(s) + empty =~= spec_percent_encode(s));
    assert(spec_percent_decode(empty) =~= empty);
    assert(s + empty =~= s);
}

/// An encoding holds only bytes that may stand in a key part.
pub proof fn lemma_encode_bytes(s: Seq<u8>)
    ensures
        forall|i: int|
            0 <= i < spec_percent_encode(s).len() ==> spec_encoded_byte(
                #[trigger] spec_percent_encode(s)[i],
            ),
        s.len() <= spec_percent_encode(s).len() <= 3 * s.len(),
    decreases s.len(),
{
    if s.len() > 0 {
        lemma_encode_bytes(s.drop_first());
        lemma_hex_round_trip(s[0]);
    }
}

/// Tells whether a byte is written as `%XX`.
pub fn must_encode(byte: u8) -> (encode: bool)
    ensures
        encode == spec_must_encode(byte),
{
    byte >= 0x80 || byte < 0x20 || byte == 0x7F || byte == 0x7C || byte == 0x21 || byte == 0x5E
        || byte == 0x23 || byte == 0x25
}

/// Calls `percent_encoding::percent_encode_byte`.
///
/// Trusted: the result is `%` followed by the byte's two upper-case
/// hexadecimal digits, as the crate's table holds them.
#[verifier::external_body]
fn encode_byte(byte: u8) -> (triplet: &'static str)
    ensures
        triplet.spec_bytes() == spec_encode_byte(byte),
{
    percent_encoding::percent_encode_byte(byte)
}

/// Calls `percent_encoding::percent_decode` and collects the bytes it yields.
///
/// Trusted: the iterator replaces each `%` that two hexadecimal digits
/// follow by the byte they spell, and passes every other byte through.
#[verifier::external_body]
fn decode_bytes(input: &[u8]) -> (decoded: Vec<u8>)
    ensures
        decoded@ == spec_percent_decode(input@),
{
    percent_encoding::percent_decode(input).collect()
}

/// Percent-decodes `input`.
pub fn percent_decode(input: &[u8]) -> (decoded: Vec<u8>)
    ensures
        decoded@ == spec_percent_decode(input@),
{
    decode_bytes(input)
}

/// Appends the percent-encoding of `input` to `out`.
pub fn percent_encode_into(out: &mut Vec<u8>, input: &[u8])
    ensures
        final(out)@ == old(out)@ + spec_percent_encode(input@),
{
    let ghost before = out@;
    let mut i: usize = 0;
    proof {
        assert(input@.take(0) =~= Seq::<u8>::empty());
        assert(out@ =~= before + spec_percent_encode(input@.take(0)));
    }
    while i < input.len()
        invariant
            i <= input@.len(),
            out@ == before + spec_percent_encode(input@.take(i as int)),
        decreases input@.len() - i,
    {
        let byte = input[i];
        proof {
            lemma_encode_push(input@.take(i as int), byte);
            assert(input@.take(i as int).push(byte) =~= input@.take(i + 1));
        }
        if must_encode(byte) {
            let triplet = encode_byte(byte);
            out.extend_from_slice(triplet.as_bytes());
        } else {
            out.push(byte);
        }
        i = i + 1;
        assert(out@ =~= before + spec_percent_encode(input@.take(i as int)));
    }
    assert(input@.take(i as int) =~= input@);
}

/// Percent-encodes `input`.
pub fn percent_encode(input: &[u8]) -> (encoded: Vec<u8>)
    ensures
        encoded@ == spec_percent_encode(input@),
{
    let mut out: Vec<u8> = Vec::new();
    percent_encode_into(&mut out, input);
    assert(out@ =~= spec_percent_encode(input@));
    out
}

} // verus!
