//! Small helpers on text.

use vstd::prelude::*;
use vstd::std_specs::iter::IteratorSpec;
use vstd::string::*;

verus! {

/// True when the two texts hold the same characters.
pub(crate) fn same_text(a: &str, b: &str) -> (same: bool)
    ensures
        same == (a@ == b@),
{
    let left = chars_of(a);
    let right = chars_of(b);
    if left.len() != right.len() {
        return false;
    }
    let mut i: usize = 0;
    while i < left.len()
        invariant
            left@ == a@,
            right@ == b@,
            left.len() == right.len(),
            0 <= i <= left.len(),
            forall|k: int| 0 <= k < i ==> left@[k] == right@[k],
        decreases left.len() - i,
    {
        if left[i] != right[i] {
            return false;
        }
        i = i + 1;
    }
    proof {
        assert(left@ =~= right@);
    }
    true
}

/// The characters of `s`, in order.
pub fn chars_of(s: &str) -> (chars: Vec<char>)
    ensures
        chars@ == s@,
{
    broadcast use vstd::string::group_string_axioms;

    let mut chars: Vec<char> = Vec::new();
    let mut rest = s.chars();
    loop
        invariant_except_break
            rest.obeys_prophetic_iter_laws(),
            rest.decrease() is Some,
            chars@ + rest.remaining() == s@,
        ensures
            chars@ == s@,
        decreases rest.decrease()->0,
    {
        match rest.next() {
            Some(c) => {
                chars.push(c);
            },
            None => {
                break ;
            },
        }
    }
    chars
}

/// The three parts, one after the other.
pub fn join3(head: &str, middle: &str, tail: &str) -> (text: String)
    ensures
        text@ == head@ + middle@ + tail@,
{
    let mut text = String::from_str(head);
    text.append(middle);
    text.append(tail);
    text
}

/// The two parts, one after the other.
pub fn join2(head: &str, tail: &str) -> (text: String)
    ensures
        text@ == head@ + tail@,
{
    let mut text = String::from_str(head);
    text.append(tail);
    text
}

/// The text of the digit `d`.
pub open spec fn digit_text(d: int) -> Seq<char> {
    if d == 0 {
        seq!['0']
    } else if d == 1 {
        seq!['1']
    } else if d == 2 {
        seq!['2']
    } else if d == 3 {
        seq!['3']
    } else if d == 4 {
        seq!['4']
    } else if d == 5 {
        seq!['5']
    } else if d == 6 {
        seq!['6']
    } else if d == 7 {
        seq!['7']
    } else if d == 8 {
        seq!['8']
    } else {
        seq!['9']
    }
}

/// The decimal digits of `n`, without leading zeros.
pub open spec fn nat_text(n: nat) -> Seq<char>
    decreases n,
{
    if n < 10 {
        digit_text(n as int)
    } else {
        nat_text(n / 10) + digit_text((n % 10) as int)
    }
}

/// The decimal text of `i`: a minus sign if it is negative, then its digits.
pub open spec fn int_text(i: int) -> Seq<char> {
    if i < 0 {
        seq!['-'] + nat_text((-i) as nat)
    } else {
        nat_text(i as nat)
    }
}

fn digit_str(d: u8) -> (text: &'static str)
    requires
        d < 10,
    ensures
        text@ == digit_text(d as int),
{
    proof {
        reveal_strlit("0");
        reveal_strlit("1");
        reveal_strlit("2");
        reveal_strlit("3");
        reveal_strlit("4");
        reveal_strlit("5");
        reveal_strlit("6");
        reveal_strlit("7");
        reveal_strlit("8");
        reveal_strlit("9");
    }
    let text = if d == 0 {
        "0"
    } else if d == 1 {
        "1"
    } else if d == 2 {
        "2"
    } else if d == 3 {
        "3"
    } else if d == 4 {
        "4"
    } else if d == 5 {
        "5"
    } else if d == 6 {
        "6"
    } else if d == 7 {
        "7"
    } else if d == 8 {
        "8"
    } else {
        "9"
    };
    assert(text@ =~= digit_text(d as int));
    text
}

/// The decimal digits of `n`.
pub fn nat_to_string(n: u128) -> (text: String)
    ensures
        text@ == nat_text(n as nat),
    decreases n,
{
    if n < 10 {
        String::from_str(digit_str(n as u8))
    } else {
        let mut text = nat_to_string(n / 10);
        text.append(digit_str((n % 10) as u8));
        text
    }
}

/// The decimal text of `i`.
pub fn int_to_string(i: i128) -> (text: String)
    ensures
        text@ == int_text(i as int),
{
    if i < 0 {
        proof {
            reveal_strlit("-");
        }
        let mut text = String::from_str("-");
        let magnitude: u128 = if i == i128::MIN {
            0x8000_0000_0000_0000_0000_0000_0000_0000u128
        } else {
            (-i) as u128
        };
        text.append(nat_to_string(magnitude).as_str());
        assert(text@ =~= int_text(i as int));
        text
    } else {
        nat_to_string(i as u128)
    }
}

/// The value of the decimal digit `c`, if it is one.
pub open spec fn digit_value(c: char) -> Option<int> {
    if '0' <= c <= '9' {
        Some(c as int - '0' as int)
    } else {
        None
    }
}

/// True when every character of `digits` is a decimal digit.
pub open spec fn all_digits(digits: Seq<char>) -> bool {
    forall|k: int| 0 <= k < digits.len() ==> digit_value(#[trigger] digits[k]) is Some
}

/// The number that the decimal digits stand for.
pub open spec fn digits_value(digits: Seq<char>) -> int
    decreases digits.len(),
{
    if digits.len() == 0 {
        0
    } else {
        digits_value(digits.drop_last()) * 10 + match digit_value(digits.last()) {
            Some(d) => d,
            None => 0,
        }
    }
}

/// What a text stands for as a whole number: an optional `+` or `-`, then at
/// least one decimal digit and nothing else, the number within the range of
/// a 128-bit signed integer.
pub open spec fn parse_int_text(text: Seq<char>) -> Option<int> {
    let negative = text.len() > 0 && text[0] == '-';
    let signed = text.len() > 0 && (text[0] == '-' || text[0] == '+');
    let digits = if signed {
        text.skip(1)
    } else {
        text
    };
    let value = if negative {
        -digits_value(digits)
    } else {
        digits_value(digits)
    };
    if digits.len() > 0 && all_digits(digits) && i128::MIN <= value <= i128::MAX {
        Some(value)
    } else {
        None
    }
}

proof fn lemma_digits_value_grows(digits: Seq<char>, k: int)
    requires
        all_digits(digits),
        0 <= k <= digits.len(),
    ensures
        0 <= digits_value(digits.take(k)) <= digits_value(digits),
    decreases digits.len(),
{
    if digits.len() == 0 {
        assert(digits.take(k) == digits);
    } else {
        let front = digits.drop_last();
        assert(all_digits(front));
        assert(digit_value(digits.last()) is Some);
        if k == digits.len() {
            assert(digits.take(k) == digits);
            lemma_digits_value_grows(front, 0);
        } else {
            lemma_digits_value_grows(front, k);
            assert(front.take(k) == digits.take(k));
        }
    }
}

/// Reads `text` as a whole number.
pub fn parse_int(text: &str) -> (parsed: Option<i128>)
    ensures
        match parse_int_text(text@) {
            Some(value) => parsed == Some(value as i128) && value == parsed->0,
            None => parsed is None,
        },
{
    let chars = chars_of(text);
    let len = chars.len();
    let negative = len > 0 && chars[0] == '-';
    let signed = len > 0 && (chars[0] == '-' || chars[0] == '+');
    let first: usize = if signed {
        1
    } else {
        0
    };
    if first == len {
        return None;
    }
    let ghost digits = if signed {
        text@.skip(1)
    } else {
        text@
    };
    let limit: u128 = if negative {
        0x8000_0000_0000_0000_0000_0000_0000_0000u128
    } else {
        0x7fff_ffff_ffff_ffff_ffff_ffff_ffff_ffffu128
    };
    let mut magnitude: u128 = 0;
    let mut at: usize = first;
    proof {
        assert(digits.take(0).len() == 0);
    }
    while at < len
        invariant
            chars@ == text@,
            len == chars.len(),
            first <= at <= len,
            signed == (text@.len() > 0 && (text@[0] == '-' || text@[0] == '+')),
            negative == (text@.len() > 0 && text@[0] == '-'),
            limit == (if negative {
                0x8000_0000_0000_0000_0000_0000_0000_0000u128
            } else {
                0x7fff_ffff_ffff_ffff_ffff_ffff_ffff_ffffu128
            }),
            first == (if signed {
                1int
            } else {
                0int
            }),
            digits == (if signed {
                text@.skip(1)
            } else {
                text@
            }),
            all_digits(digits.take(at - first)),
            magnitude == digits_value(digits.take(at - first)),
            magnitude <= limit,
        decreases len - at,
    {
        let c = chars[at];
        proof {
            assert(digits[at - first] == c);
            assert(digits.take(at - first + 1).drop_last() == digits.take(at - first));
            assert(digits.take(at - first + 1).last() == c);
        }
        if !('0' <= c && c <= '9') {
            proof {
                assert(digit_value(digits[at - first]) is None);
            }
            return None;
        }
        let d = (c as u32 - '0' as u32) as u128;
        if magnitude > (limit - d) / 10 {
            proof {
                if all_digits(digits) {
                    lemma_digits_value_grows(digits, at - first + 1);
                }
            }
            return None;
        }
        magnitude = magnitude * 10 + d;
        at = at + 1;
        proof {
            let next = digits.take(at - first);
            assert forall|k: int| 0 <= k < next.len() implies digit_value(
                #[trigger] next[k],
            ) is Some by {
                if k < next.len() - 1 {
                    assert(next[k] == digits.take(at - first - 1)[k]);
                }
            }
        }
    }
    proof {
        assert(digits.take(at - first) == digits);
    }
    if negative {
        if magnitude == 0x8000_0000_0000_0000_0000_0000_0000_0000u128 {
            Some(i128::MIN)
        } else {
            Some(-(magnitude as i128))
        }
    } else {
        Some(magnitude as i128)
    }
}

/// What a text stands for as a truth value: exactly `true` or `false`.
pub open spec fn parse_bool_text(text: Seq<char>) -> Option<bool> {
    if text == "true"@ {
        Some(true)
    } else if text == "false"@ {
        Some(false)
    } else {
        None
    }
}

/// Reads `text` as a truth value.
pub fn parse_bool(text: &str) -> (parsed: Option<bool>)
    ensures
        parsed == parse_bool_text(text@),
{
    if same_text(text, "true") {
        Some(true)
    } else if same_text(text, "false") {
        Some(false)
    } else {
        None
    }
}

} // verus!
