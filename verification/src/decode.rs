//! Decoding the text of a token into a value: decimal numbers, free text and
//! keywords.
use vstd::prelude::*;
use vstd::slice::slice_to_vec;
use vstd::string::StringSliceAdditionalSpecFns;
use crate::lexer::is_digit;

verus! {

/// A type whose values are written as the text of a single token.
pub trait Decode: View + Sized {
    /// The value that `text` stands for, if it stands for one.
    spec fn decode(text: Seq<u8>) -> Option<Self::V>;

    fn from_text(text: &[u8]) -> (value: Option<Self>)
        ensures
            match value {
                Some(v) => Self::decode(text@) == Some(v@),
                None => Self::decode(text@) is None,
            },
    ;
}

/// The number that a sequence of decimal digits denotes.
pub open spec fn decimal_value(digits: Seq<u8>) -> nat
    decreases digits.len(),
{
    if digits.len() == 0 {
        0
    } else {
        decimal_value(digits.drop_last()) * 10 + (digits.last() - 0x30) as nat
    }
}

/// Every byte of the text is a decimal digit.
pub open spec fn all_digits(text: Seq<u8>) -> bool {
    forall|i: int| 0 <= i < text.len() ==> is_digit(#[trigger] text[i])
}

/// A longer prefix of a digit sequence denotes no smaller a number.
pub proof fn lemma_decimal_value_monotonic(digits: Seq<u8>, i: int, j: int)
    requires
        all_digits(digits),
        0 <= i <= j <= digits.len(),
    ensures
        decimal_value(digits.take(i)) <= decimal_value(digits.take(j)),
    decreases j - i,
{
    if i < j {
        lemma_decimal_value_monotonic(digits, i, j - 1);
        assert(digits.take(j).drop_last() =~= digits.take(j - 1));
        assert(digits.take(j).last() == digits[j - 1]);
    }
}

/// An unsigned decimal number: one or more digits whose value fits.
pub open spec fn decode_u32(text: Seq<u8>) -> Option<u32> {
    if text.len() > 0 && all_digits(text) && decimal_value(text) <= u32::MAX {
        Some(decimal_value(text) as u32)
    } else {
        None
    }
}

impl Decode for u32 {
    open spec fn decode(text: Seq<u8>) -> Option<u32> {
        decode_u32(text)
    }

    fn from_text(text: &[u8]) -> (value: Option<u32>) {
        let len = text.len();
        if len == 0 {
            return None;
        }
        let mut value: u64 = 0;
        let mut i: usize = 0;
        while i < len
            invariant
                i <= len == text@.len(),
                value == decimal_value(text@.take(i as int)),
                value <= u32::MAX,
                all_digits(text@.take(i as int)),
            decreases len - i,
        {
            let b = text[i];
            proof {
                assert(text@.take(i + 1).drop_last() =~= text@.take(i as int));
                assert(text@.take(i + 1).last() == b);
            }
            if !(0x30 <= b && b <= 0x39) {
                assert(!all_digits(text@)) by {
                    assert(!is_digit(text@[i as int]));
                }
                return None;
            }
            value = value * 10 + (b - 0x30) as u64;
            if value > 0xffff_ffff {
                proof {
                    if all_digits(text@) {
                        assert(text@.take(len as int) =~= text@);
                        lemma_decimal_value_monotonic(text@, i + 1, len as int);
                    }
                }
                return None;
            }
            proof {
                assert forall|k: int| 0 <= k < i + 1 implies is_digit(
                    #[trigger] text@.take(i + 1)[k],
                ) by {
                    if k < i {
                        assert(text@.take(i + 1)[k] == text@.take(i as int)[k]);
                    }
                }
            }
            i += 1;
        }
        proof {
            assert(text@.take(len as int) =~= text@);
        }
        Some(value as u32)
    }
}

/// Free text: every token text stands for itself.
impl Decode for Vec<u8> {
    open spec fn decode(text: Seq<u8>) -> Option<Seq<u8>> {
        Some(text)
    }

    fn from_text(text: &[u8]) -> (value: Option<Vec<u8>>) {
        Some(slice_to_vec(text))
    }
}

/// The lower-case form of an ASCII letter; any other byte is itself.
pub open spec fn lower(b: u8) -> u8 {
    if 0x41 <= b <= 0x5a {
        (b + 0x20) as u8
    } else {
        b
    }
}

/// Turns an upper-case ASCII letter into its lower-case form.
pub fn to_lower(b: u8) -> (r: u8)
    ensures
        r == lower(b),
{
    if 0x41 <= b && b <= 0x5a {
        b + 0x20
    } else {
        b
    }
}

/// `word` spells `keyword`, letter case aside. Keywords are written in lower
/// case.
pub open spec fn spells(word: Seq<u8>, keyword: Seq<u8>) -> bool {
    &&& word.len() == keyword.len()
    &&& forall|i: int| 0 <= i < word.len() ==> lower(#[trigger] word[i]) == keyword[i]
}

/// Tells whether `word` spells `keyword`, letter case aside.
pub fn is_keyword(word: &[u8], keyword: &str) -> (r: bool)
    ensures
        r == spells(word@, keyword.spec_bytes()),
{
    let letters = keyword.as_bytes();
    if word.len() != letters.len() {
        return false;
    }
    let mut i: usize = 0;
    while i < word.len()
        invariant
            i <= word@.len() == letters@.len(),
            letters@ == keyword.spec_bytes(),
            forall|k: int| 0 <= k < i ==> lower(#[trigger] word@[k]) == letters@[k],
        decreases word@.len() - i,
    {
        if to_lower(word[i]) != letters[i] {
            return false;
        }
        i += 1;
    }
    true
}

} // verus!
