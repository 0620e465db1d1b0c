//! The stored form of the high score: its decimal digits, and nothing else.
//!
//! Reading and writing the store is the caller's part. What was read, if
//! anything, is handed in as bytes; what is to be written is handed back as
//! bytes. A store that is missing or does not hold a number counts as zero.

use vstd::prelude::*;

verus! {

/// The byte is an ASCII digit.
pub open spec fn is_digit(byte: u8) -> bool {
    0x30 <= byte <= 0x39
}

/// Every byte is an ASCII digit.
pub open spec fn all_digits(text: Seq<u8>) -> bool {
    forall|i: int| 0 <= i < text.len() ==> is_digit(#[trigger] text[i])
}

/// The number that a digit stands for.
pub open spec fn digit_value(byte: u8) -> nat {
    if is_digit(byte) {
        (byte - 0x30) as nat
    } else {
        0
    }
}

/// The number that a run of digits stands for, the first digit weighing
/// most.
pub open spec fn decimal_value(digits: Seq<u8>) -> nat
    decreases digits.len(),
{
    if digits.len() == 0 {
        0
    } else {
        10 * decimal_value(digits.drop_last()) + digit_value(digits.last())
    }
}

/// The text without the plus sign that may lead it.
pub open spec fn unsigned_part(text: Seq<u8>) -> Seq<u8> {
    if text.len() > 0 && text[0] == 0x2b {
        text.subrange(1, text.len() as int)
    } else {
        text
    }
}

/// The number that the text holds: an optional plus sign, then one or more
/// digits and nothing else, standing for a number that fits the counter.
pub open spec fn parsed_spec(text: Seq<u8>) -> Option<u32> {
    let digits = unsigned_part(text);
    if digits.len() > 0 && all_digits(digits) && decimal_value(digits) <= u32::MAX {
        Some(decimal_value(digits) as u32)
    } else {
        None
    }
}

/// The high score that a process starts with, given what the store held.
pub open spec fn loaded_spec(stored: Option<Seq<u8>>) -> u32 {
    match stored {
        Some(text) => match parsed_spec(text) {
            Some(value) => value,
            None => 0,
        },
        None => 0,
    }
}

/// The decimal digits of a number, without leading zeros.
pub open spec fn decimal_spec(value: nat) -> Seq<u8>
    decreases value,
{
    if value < 10 {
        seq![(0x30 + value) as u8]
    } else {
        decimal_spec(value / 10).push((0x30 + value % 10) as u8)
    }
}

/// A run of digits stands for no less than any of its beginnings.
proof fn lemma_decimal_value_grows(digits: Seq<u8>, k: int)
    requires
        0 <= k <= digits.len(),
    ensures
        decimal_value(digits.take(k)) <= decimal_value(digits),
    decreases digits.len(),
{
    if k == digits.len() {
        assert(digits.take(k) =~= digits);
    } else {
        lemma_decimal_value_grows(digits.drop_last(), k);
        assert(digits.drop_last().take(k) =~= digits.take(k));
    }
}

/// Reads the number that the text holds, if it holds one.
pub fn parse_high_score(text: &[u8]) -> (parsed: Option<u32>)
    ensures
        parsed == parsed_spec(text@),
{
    let n: usize = text.len();
    let start: usize = if n > 0 && text[0] == 0x2b {
        1
    } else {
        0
    };
    let ghost digits: Seq<u8> = unsigned_part(text@);
    if start == n {
        return None;
    }
    let mut value: u64 = 0;
    let mut i: usize = start;
    proof {
        assert(digits.take(0) =~= Seq::<u8>::empty());
    }
    while i < n
        invariant
            start <= i <= n,
            n == text@.len(),
            digits == text@.subrange(start as int, n as int),
            digits == unsigned_part(text@),
            all_digits(digits.take(i - start)),
            value == decimal_value(digits.take(i - start)),
            value <= u32::MAX,
        decreases n - i,
    {
        let byte: u8 = text[i];
        proof {
            assert(digits[i - start] == byte);
            assert(digits.take(i - start + 1).drop_last() =~= digits.take(i - start));
        }
        if byte < 0x30 || byte > 0x39 {
            return None;
        }
        value = value * 10 + (byte - 0x30) as u64;
        if value > u32::MAX as u64 {
            proof {
                lemma_decimal_value_grows(digits, i - start + 1);
            }
            return None;
        }
        i = i + 1;
    }
    proof {
        assert(digits.take(n - start) =~= digits);
    }
    Some(value as u32)
}

/// The high score that a process starts with, given what the store held:
/// the number in it, or zero where there was no store or no number in it.
pub fn load_high_score(stored: Option<&[u8]>) -> (high_score: u32)
    ensures
        high_score == loaded_spec(
            match stored {
                Some(text) => Some(text@),
                None => None,
            },
        ),
{
    match stored {
        Some(text) => match parse_high_score(text) {
            Some(value) => value,
            None => 0,
        },
        None => 0,
    }
}

/// Appends the decimal digits of `value` to `text`.
fn push_decimal(value: u32, text: &mut Vec<u8>)
    ensures
        final(text)@ == old(text)@ + decimal_spec(value as nat),
    decreases value,
{
    if value >= 10 {
        push_decimal(value / 10, text);
    }
    text.push(0x30 + (value % 10) as u8);
    proof {
        if value >= 10 {
            assert(text@ =~= old(text)@ + decimal_spec(value as nat));
        } else {
            assert(text@ =~= old(text)@ + decimal_spec(value as nat));
        }
    }
}

/// The bytes to store for a high score: its decimal digits.
pub fn format_high_score(value: u32) -> (text: Vec<u8>)
    ensures
        text@ == decimal_spec(value as nat),
{
    let mut text: Vec<u8> = Vec::new();
    push_decimal(value, &mut text);
    assert(text@ =~= decimal_spec(value as nat));
    text
}

/// The decimal digits of a number are digits, at least one, and stand for
/// the number.
pub proof fn lemma_decimal_reads_back(value: nat)
    ensures
        decimal_spec(value).len() > 0,
        all_digits(decimal_spec(value)),
        decimal_value(decimal_spec(value)) == value,
    decreases value,
{
    if value >= 10 {
        lemma_decimal_reads_back(value / 10);
        let head = decimal_spec(value / 10);
        let last = (0x30 + value % 10) as u8;
        assert(head.push(last).drop_last() =~= head);
        assert(digit_value(last) == value % 10);
    } else {
        let only = (0x30 + value) as u8;
        assert(seq![only].drop_last() =~= Seq::<u8>::empty());
        assert(decimal_value(Seq::<u8>::empty()) == 0);
        assert(seq![only].last() == only);
    }
}

/// What is stored for a high score is read back as that high score; a
/// missing store and a store without a number are read as zero.
pub proof fn lemma_round_trip(value: u32, damaged: Seq<u8>)
    requires
        parsed_spec(damaged) is None,
    ensures
        parsed_spec(decimal_spec(value as nat)) == Some(value),
        loaded_spec(Some(decimal_spec(value as nat))) == value,
        loaded_spec(None) == 0,
        loaded_spec(Some(damaged)) == 0,
{
    lemma_decimal_reads_back(value as nat);
    let text = decimal_spec(value as nat);
    assert(is_digit(text[0]));
}

} // verus!
