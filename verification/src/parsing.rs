//! Parsing of coordinate pairs: `<left><separator><right>`, split at the
//! first occurrence of an ascii separator.

use vstd::prelude::*;
use vstd::utf8::encode_utf8_valid_utf8;
use vstd::utf8::is_char_boundary;
use vstd::utf8::is_char_boundary_iff_not_is_continuation_byte;
use vstd::utf8::is_char_boundary_start_end_of_seq;
use vstd::utf8::valid_utf8_split;
use vstd::string::StringSliceAdditionalSpecFns;
use crate::complex::ComplexPoint;

verus! {

/// `i` is the position of the first occurrence of `b` in `bytes`.
pub open spec fn first_occurrence(bytes: Seq<u8>, b: u8, i: int) -> bool {
    &&& 0 <= i < bytes.len()
    &&& bytes[i] == b
    &&& forall|j: int| 0 <= j < i ==> bytes[j] != b
}

/// The byte an ascii character occupies.
pub open spec fn ascii_byte(c: char) -> u8
    recommends
        (c as u32) < 128,
{
    (c as u32) as u8
}

/// Position of the first occurrence of `target`, scanning left to right.
fn find_byte(bytes: &[u8], target: u8) -> (r: Option<usize>)
    ensures
        r matches Some(i) ==> first_occurrence(bytes@, target, i as int),
        r is None ==> forall|j: int| 0 <= j < bytes@.len() ==> bytes@[j] != target,
{
    let mut i: usize = 0;
    while i < bytes.len()
        invariant
            i <= bytes@.len(),
            forall|j: int| 0 <= j < i ==> bytes@[j] != target,
        decreases bytes@.len() - i,
    {
        if bytes[i] == target {
            return Some(i);
        }
        i = i + 1;
    }
    None
}

/// Splits `s` around the first occurrence of the ascii byte `sep`: the
/// text before it and the text after it, the separator itself dropped.
pub fn split_at_byte<'a>(s: &'a str, sep: u8) -> (r: Option<(&'a str, &'a str)>)
    requires
        sep < 128,
    ensures
        r is None ==> forall|j: int|
            0 <= j < s.spec_bytes().len() ==> s.spec_bytes()[j] != sep,
        r matches Some(p) ==> exists|i: int|
            {
                &&& #[trigger] first_occurrence(s.spec_bytes(), sep, i)
                &&& p.0.spec_bytes() == s.spec_bytes().subrange(0, i)
                &&& p.1.spec_bytes() == s.spec_bytes().subrange(
                    i + 1,
                    s.spec_bytes().len() as int,
                )
            },
{
    proof {
        encode_utf8_valid_utf8(s@);
    }
    let bytes = s.as_bytes();
    let position = match find_byte(bytes, sep) {
        None => {
            return None;
        },
        Some(i) => i,
    };
    proof {
        is_char_boundary_iff_not_is_continuation_byte(s.spec_bytes(), position as int);
    }
    let (left, rest) = s.split_at(position);
    proof {
        valid_utf8_split(s.spec_bytes(), position as int);
        let rest_bytes = rest.spec_bytes();
        assert(rest_bytes.len() >= 1);
        assert(rest_bytes[0] == sep);
        if rest_bytes.len() == 1 {
            is_char_boundary_start_end_of_seq(rest_bytes);
        } else {
            assert(is_char_boundary(rest_bytes, 1)) by {
                reveal_with_fuel(vstd::utf8::is_char_boundary, 2);
            }
        }
    }
    let (_, right) = rest.split_at(1);
    proof {
        let slen = s.spec_bytes().len() as int;
        assert(right.spec_bytes() =~= s.spec_bytes().subrange(position + 1, slen));
        assert(left.spec_bytes() =~= s.spec_bytes().subrange(0, position as int));
    }
    Some((left, right))
}

/// Relies on `T::from_str`: whether and how a fragment of text parses is
/// the implementing type's affair; nothing is assumed of the result.
#[verifier::external_body]
fn parse_fragment<T: core::str::FromStr>(s: &str) -> (r: Option<T>) {
    match T::from_str(s) {
        Ok(v) => Some(v),
        Err(_) => None,
    }
}

/// Combines the two parsed halves of a pair: a pair exactly when both
/// halves parsed.
pub fn pair_of<T>(left: Option<T>, right: Option<T>) -> (r: Option<(T, T)>)
    ensures
        r is Some <==> (left is Some && right is Some),
        r matches Some(p) ==> left == Some(p.0) && right == Some(p.1),
{
    match (left, right) {
        (Some(l), Some(rr)) => Some((l, rr)),
        _ => None,
    }
}

/// Parses `s` as `<left><separator><right>`, both halves through
/// `T::from_str`; the separator must be an ascii character.
///
/// The split happens at the first occurrence of the separator; without one
/// the result is `None`, and whether each half then parses is the
/// implementing type's affair.
pub fn parse_pair<T: core::str::FromStr>(s: &str, separator: char) -> (r: Option<(T, T)>)
    requires
        (separator as u32) < 128,
    ensures
        (forall|j: int|
            0 <= j < s.spec_bytes().len() ==> s.spec_bytes()[j] != ascii_byte(separator))
            ==> r is None,
        r is Some ==> exists|i: int| #[trigger] first_occurrence(
            s.spec_bytes(),
            ascii_byte(separator),
            i,
        ),
{
    let sep: u8 = (separator as u32) as u8;
    match split_at_byte(s, sep) {
        None => None,
        Some((left, right)) => pair_of(parse_fragment(left), parse_fragment(right)),
    }
}

/// Whether a fragment of text parses as a double, and the parsed double's
/// bit pattern when it does.
pub uninterp spec fn real_from_str_bits(bytes: Seq<u8>) -> Option<u64>;

/// Relies on `str::parse` for doubles (`f64::from_str`): whether the text
/// parses, and the parsed value's bit pattern, depend on the text alone.
/// `Complex64::new` pins the parsed type to a double.
#[verifier::external_body]
fn parse_real(s: &str) -> (r: Option<u64>)
    ensures
        r == real_from_str_bits(s.spec_bytes()),
{
    match s.parse() {
        Ok(v) => Some(num::complex::Complex64::new(v, v).re.to_bits()),
        Err(_) => None,
    }
}

/// Parses a comma-separated pair of doubles as a point of the complex
/// plane: the real component before the first comma, the imaginary one
/// after it; `None` without a comma or when either half fails to parse.
pub fn parse_complex(s: &str) -> (r: Option<ComplexPoint>)
    ensures
        (forall|j: int| 0 <= j < s.spec_bytes().len() ==> s.spec_bytes()[j] != 44u8)
            ==> r is None,
        forall|i: int| #[trigger] first_occurrence(s.spec_bytes(), 44u8, i) ==> r == (
        match (
            real_from_str_bits(s.spec_bytes().subrange(0, i)),
            real_from_str_bits(s.spec_bytes().subrange(i + 1, s.spec_bytes().len() as int)),
        ) {
            (Some(re_bits), Some(im_bits)) => Some(ComplexPoint { re_bits, im_bits }),
            _ => None,
        }),
{
    let comma: u8 = 44;
    match split_at_byte(s, comma) {
        None => None,
        Some((left, right)) => {
            let re = parse_real(left);
            let im = parse_real(right);
            proof {
                let witness = choose|i: int|
                    {
                        &&& #[trigger] first_occurrence(s.spec_bytes(), 44u8, i)
                        &&& left.spec_bytes() == s.spec_bytes().subrange(0, i)
                        &&& right.spec_bytes() == s.spec_bytes().subrange(
                            i + 1,
                            s.spec_bytes().len() as int,
                        )
                    };
                assert forall|i: int|
                    #[trigger] first_occurrence(s.spec_bytes(), 44u8, i) implies i == witness by {
                    if i < witness {
                        assert(s.spec_bytes()[i] == 44u8);
                    }
                    if witness < i {
                        assert(s.spec_bytes()[witness] == 44u8);
                    }
                }
            }
            match (re, im) {
                (Some(re_bits), Some(im_bits)) => Some(ComplexPoint { re_bits, im_bits }),
                _ => None,
            }
        },
    }
}

} // verus!
