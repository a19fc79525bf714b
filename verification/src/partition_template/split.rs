//! Splitting a partition key into its parts.

use vstd::prelude::*;
use vstd::string::StringSliceAdditionalSpecFns;
use vstd::utf8::*;

verus! {

/// The index of the first `delimiter` in `s`, or `s.len()` where there is none.
pub open spec fn spec_find(s: Seq<u8>, delimiter: u8) -> int
    decreases s.len(),
{
    if s.len() == 0 || s[0] == delimiter {
        0
    } else {
        1 + spec_find(s.drop_first(), delimiter)
    }
}

/// The runs of bytes between the delimiters of `s`, in order. A sequence
/// without a delimiter is one run, also where it is empty.
pub open spec fn spec_split(s: Seq<u8>, delimiter: u8) -> Seq<Seq<u8>>
    decreases s.len(),
{
    let i = spec_find(s, delimiter);
    if 0 <= i < s.len() {
        seq![s.take(i)] + spec_split(s.skip(i + 1), delimiter)
    } else {
        seq![s]
    }
}

/// The number of times `byte` occurs in `s`.
pub open spec fn spec_count(s: Seq<u8>, byte: u8) -> nat
    decreases s.len(),
{
    if s.len() == 0 {
        0
    } else {
        spec_count(s.drop_last(), byte) + if s.last() == byte {
            1nat
        } else {
            0nat
        }
    }
}

/// The UTF-8 bytes of each string of a sequence.
pub open spec fn spec_bytes_of(parts: Seq<&str>) -> Seq<Seq<u8>> {
    Seq::new(parts.len(), |i: int| parts[i].spec_bytes())
}

/// `spec_find` points at the first delimiter, or at the end.
pub proof fn lemma_find(s: Seq<u8>, delimiter: u8)
    ensures
        0 <= spec_find(s, delimiter) <= s.len(),
        spec_find(s, delimiter) < s.len() ==> s[spec_find(s, delimiter)] == delimiter,
        forall|k: int| 0 <= k < spec_find(s, delimiter) ==> s[k] != delimiter,
    decreases s.len(),
{
    if s.len() == 0 || s[0] == delimiter {
    } else {
        lemma_find(s.drop_first(), delimiter);
        assert forall|k: int| 0 <= k < spec_find(s, delimiter) implies s[k] != delimiter by {
            if k > 0 {
                assert(s[k] == s.drop_first()[k - 1]);
            }
        }
    }
}

/// Finds the first `delimiter` in `bytes`.
pub fn find_byte(bytes: &[u8], delimiter: u8) -> (index: usize)
    ensures
        index == spec_find(bytes@, delimiter),
        index <= bytes@.len(),
{
    let mut i: usize = 0;
    assert(bytes@.skip(0) =~= bytes@);
    while i < bytes.len() && bytes[i] != delimiter
        invariant
            i <= bytes@.len(),
            spec_find(bytes@, delimiter) == i + spec_find(bytes@.skip(i as int), delimiter),
        decreases bytes@.len() - i,
    {
        proof {
            assert(bytes@.skip(i as int)[0] == bytes@[i as int]);
            assert(bytes@.skip(i as int).drop_first() =~= bytes@.skip(i + 1));
        }
        i = i + 1;
    }
    proof {
        if i < bytes@.len() {
            assert(bytes@.skip(i as int)[0] == bytes@[i as int]);
        }
        lemma_find(bytes@, delimiter);
    }
    i
}

/// In a string, an ASCII byte starts a character and the next character
/// starts right behind it.
pub proof fn lemma_ascii_boundaries(s: &str, index: int)
    requires
        0 <= index < s.spec_bytes().len(),
        s.spec_bytes()[index] < 0x80,
    ensures
        is_char_boundary(s.spec_bytes(), index),
        is_char_boundary(s.spec_bytes(), index + 1),
{
    let bytes = s.spec_bytes();
    encode_utf8_valid_utf8(s@);
    is_char_boundary_iff_is_leading_byte(bytes, index);
    if index + 1 < bytes.len() {
        valid_utf8_split(bytes, index);
        let tail = bytes.subrange(index, bytes.len() as int);
        assert(tail[0] == bytes[index]);
        assert(valid_utf8(pop_first_scalar(tail)));
        let after = pop_first_scalar(tail);
        assert(after =~= bytes.subrange(index + 1, bytes.len() as int));
        assert(after.len() > 0);
        assert(valid_first_scalar(after));
        assert(after[0] == bytes[index + 1]);
        is_char_boundary_iff_is_leading_byte(bytes, index + 1);
    } else {
        is_char_boundary_start_end_of_seq(bytes);
    }
}

/// Splits a key at every `|`.
pub fn split_key<'a>(key: &'a str) -> (parts: Vec<&'a str>)
    ensures
        spec_bytes_of(parts@) == spec_split(key.spec_bytes(), 0x7C),
        parts@.len() >= 1,
{
    let mut parts: Vec<&'a str> = Vec::new();
    let mut rest: &'a str = key;
    let mut done = false;
    proof {
        assert(spec_bytes_of(parts@) + spec_split(rest.spec_bytes(), 0x7C) =~= spec_split(
            key.spec_bytes(),
            0x7C,
        ));
    }
    while !done
        invariant
            !done ==> spec_bytes_of(parts@) + spec_split(rest.spec_bytes(), 0x7C) == spec_split(
                key.spec_bytes(),
                0x7C,
            ),
            done ==> spec_bytes_of(parts@) == spec_split(key.spec_bytes(), 0x7C),
            done ==> parts@.len() >= 1,
        decreases
                if done {
                    0
                } else {
                    rest.spec_bytes().len() + 1
                },
    {
        let bytes = rest.as_bytes();
        let index = find_byte(bytes, 0x7C);
        let ghost before = spec_bytes_of(parts@);
        if index < bytes.len() {
            proof {
                lemma_find(bytes@, 0x7C);
                lemma_ascii_boundaries(rest, index as int);
            }
            let (head, tail) = rest.split_at(index);
            proof {
                assert(tail.spec_bytes()[0] == 0x7C);
                lemma_ascii_boundaries(tail, 0);
            }
            let (_, after) = tail.split_at(1);
            parts.push(head);
            proof {
                assert(head.spec_bytes() =~= bytes@.take(index as int));
                assert(after.spec_bytes() =~= bytes@.skip(index + 1));
                assert(spec_bytes_of(parts@) =~= before + seq![head.spec_bytes()]);
                assert(spec_bytes_of(parts@) + spec_split(after.spec_bytes(), 0x7C) =~= before
                    + spec_split(bytes@, 0x7C));
            }
            rest = after;
        } else {
            parts.push(rest);
            proof {
                assert(spec_bytes_of(parts@) =~= before + seq![bytes@]);
            }
            done = true;
        }
    }
    parts
}

} // verus!
