//! Small things on strings.
use vstd::prelude::*;
use vstd::string::*;

verus! {

/// Whether two strings hold the same characters.
pub fn same_text(a: &str, b: &str) -> (r: bool)
    ensures
        r == (a@ == b@),
{
    let x: String = String::from_str(a);
    let y: String = String::from_str(b);
    x == y
}

/// Where `needle` is found first in `text`, if it is found at all.
pub open spec fn first_index_of(text: Seq<char>, needle: char) -> Option<int> {
    if exists|i: int| 0 <= i < text.len() && text[i] == needle {
        Some(choose|i: int| is_first_at(text, needle, i))
    } else {
        None
    }
}

/// Whether `needle` is found at `i` in `text` and nowhere before.
pub open spec fn is_first_at(text: Seq<char>, needle: char, i: int) -> bool {
    &&& 0 <= i < text.len()
    &&& text[i] == needle
    &&& forall|k: int| 0 <= k < i ==> text[k] != needle
}

/// What comes before the first `separator`, and what comes behind it; all of
/// the text and nothing where there is no separator.
pub open spec fn split_once_at(text: Seq<char>, separator: char) -> (Seq<char>, Seq<char>) {
    match first_index_of(text, separator) {
        Some(i) => (text.subrange(0, i), text.subrange(i + 1, text.len() as int)),
        None => (text, Seq::empty()),
    }
}

/// Find the first `needle` in `text`.
pub fn find_char(text: &str, needle: char) -> (r: Option<usize>)
    ensures
        match r {
            Some(i) => is_first_at(text@, needle, i as int),
            None => !text@.contains(needle),
        },
        r matches Some(i) ==> first_index_of(text@, needle) == Some(i as int),
        r is None ==> first_index_of(text@, needle) is None,
{
    let len: usize = text.unicode_len();
    let mut i: usize = 0;
    while i < len
        invariant
            i <= len,
            len == text@.len(),
            forall|k: int| 0 <= k < i ==> text@[k] != needle,
        decreases len - i,
    {
        if text.get_char(i) == needle {
            proof {
                assert(is_first_at(text@, needle, i as int));
                let c = choose|c: int| is_first_at(text@, needle, c);
                assert(c == i) by {
                    if c < i {
                        assert(text@[c] != needle);
                    } else if i < c {
                        assert(text@[i as int] != needle);
                    }
                }
            }
            return Some(i);
        }
        i += 1;
    }
    None
}

/// Whether `needle` occurs in `text`.
pub fn contains_char(text: &str, needle: char) -> (r: bool)
    ensures
        r == text@.contains(needle),
{
    match find_char(text, needle) {
        Some(i) => {
            assert(text@[i as int] == needle);
            true
        },
        None => false,
    }
}

/// Splits the text at the first `separator`.
pub fn split_once(text: &str, separator: char) -> (r: (String, String))
    ensures
        (r.0@, r.1@) == split_once_at(text@, separator),
{
    match find_char(text, separator) {
        Some(i) => {
            let len: usize = text.unicode_len();
            let head: &str = text.substring_char(0, i);
            let tail: &str = text.substring_char(i + 1, len);
            (String::from_str(head), String::from_str(tail))
        },
        None => (String::from_str(text), String::new()),
    }
}


/// Whether the character is one of the digits 0 to 9.
pub open spec fn is_digit(c: char) -> bool {
    '0' <= c <= '9'
}

/// The number that a digit stands for.
pub open spec fn digit_value(c: char) -> nat {
    (c as u32 - '0' as u32) as nat
}

/// Whether the text is made of digits only.
pub open spec fn all_digits(text: Seq<char>) -> bool {
    forall|i: int| 0 <= i < text.len() ==> is_digit(#[trigger] text[i])
}

/// The number that the digits are in decimal notation.
pub open spec fn digits_value(digits: Seq<char>) -> nat
    decreases digits.len(),
{
    if digits.len() == 0 {
        0
    } else {
        digits_value(digits.drop_last()) * 10 + digit_value(digits.last())
    }
}

/// The digits of a number as it may be written: behind a plus sign or
/// without one.
pub open spec fn unsigned_part(text: Seq<char>) -> Seq<char> {
    if text.len() > 0 && text[0] == '+' {
        text.subrange(1, text.len() as int)
    } else {
        text
    }
}

/// The number that the text is in decimal notation, if it is one: at least
/// one digit, and nothing else but a plus sign in front.
pub open spec fn number_of(text: Seq<char>) -> Option<nat> {
    if unsigned_part(text).len() > 0 && all_digits(unsigned_part(text)) {
        Some(digits_value(unsigned_part(text)))
    } else {
        None
    }
}

/// Reads a number in decimal notation, as far as it fits.
pub fn parse_usize(text: &str) -> (r: Option<usize>)
    ensures
        r == match number_of(text@) {
            Some(value) => if value <= usize::MAX {
                Some(value as usize)
            } else {
                None
            },
            None => None,
        },
{
    let len: usize = text.unicode_len();
    let start: usize = if len > 0 && text.get_char(0) == '+' {
        1
    } else {
        0
    };
    if start == len {
        return None;
    }
    let ghost digits = unsigned_part(text@);
    assert(digits == text@.subrange(start as int, len as int));
    let mut value: usize = 0;
    let mut overflow: bool = false;
    let mut i: usize = start;
    assert(digits.subrange(0, 0) == Seq::<char>::empty());
    while i < len
        invariant
            start <= i <= len,
            len == text@.len(),
            digits == text@.subrange(start as int, len as int),
            digits == unsigned_part(text@),
            all_digits(digits.subrange(0, i - start)),
            !overflow ==> value == digits_value(digits.subrange(0, i - start)),
            overflow ==> digits_value(digits.subrange(0, i - start)) > usize::MAX,
        decreases len - i,
    {
        let c: char = text.get_char(i);
        let ghost prefix = digits.subrange(0, i - start);
        let ghost longer = digits.subrange(0, i - start + 1);
        proof {
            assert(digits[i - start] == c);
            assert(longer.drop_last() == prefix);
            assert(longer.last() == c);
        }
        if c < '0' || c > '9' {
            assert(!is_digit(digits[i - start]));
            return None;
        }
        assert(all_digits(longer)) by {
            assert forall|k: int| 0 <= k < longer.len() implies is_digit(#[trigger] longer[k]) by {
                if k < prefix.len() {
                    assert(longer[k] == prefix[k]);
                }
            }
        }
        let digit: usize = (c as u32 - '0' as u32) as usize;
        if !overflow {
            match value.checked_mul(10) {
                Some(tens) => match tens.checked_add(digit) {
                    Some(sum) => {
                        value = sum;
                    },
                    None => {
                        overflow = true;
                    },
                },
                None => {
                    overflow = true;
                },
            }
        }
        i += 1;
    }
    assert(digits.subrange(0, len - start) == digits);
    if overflow {
        None
    } else {
        Some(value)
    }
}

} // verus!
