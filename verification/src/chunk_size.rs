//! The size of the chunks in which streams are read, as a user writes it:
//! decimal digits, optionally followed by one of the letters `k`, `m` or `g`
//! in either case, which multiply by 1024, 1024² and 1024³.

use vstd::prelude::*;
use vstd::string::*;

verus! {

/// The chunk size that is used where none is given or the given one cannot
/// be used: 64 KiB.
pub const DEFAULT_CHUNK_SIZE: usize = 65536;

/// Whether a byte is one of the ASCII digits `0` to `9`.
pub open spec fn is_digit(byte: u8) -> bool {
    48 <= byte <= 57
}

/// Whether every byte of `bytes` is a digit.
pub open spec fn all_digits(bytes: Seq<u8>) -> bool {
    forall|i: int| 0 <= i < bytes.len() ==> is_digit(#[trigger] bytes[i])
}

/// The number that a sequence of digits denotes in base ten.
pub open spec fn digits_value(digits: Seq<u8>) -> nat
    decreases digits.len(),
{
    if digits.len() == 0 {
        0
    } else {
        digits_value(digits.drop_last()) * 10 + (digits.last() - 48) as nat
    }
}

/// The factor that a suffix letter stands for, if the byte is one.
pub open spec fn unit_factor(byte: u8) -> Option<nat> {
    if byte == 107 || byte == 75 {
        Some(1024)
    } else if byte == 109 || byte == 77 {
        Some(1024 * 1024)
    } else if byte == 103 || byte == 71 {
        Some(1024 * 1024 * 1024)
    } else {
        None
    }
}

/// The number of bytes that `text` denotes: the value of its digits, times
/// the factor of its suffix where it has one. Nothing is denoted by an empty
/// text, by one that does not start with a digit, or by one with anything
/// but digits before its last byte or anything but a digit or a suffix
/// letter as its last.
pub open spec fn chunk_size_of(text: Seq<u8>) -> Option<nat> {
    if text.len() == 0 {
        None
    } else if all_digits(text) {
        Some(digits_value(text))
    } else if text.len() >= 2 && all_digits(text.drop_last()) && unit_factor(text.last()) is Some {
        Some(digits_value(text.drop_last()) * unit_factor(text.last())->0)
    } else {
        None
    }
}

/// A denoted size as a `usize`, where it fits into one.
pub open spec fn fitting(size: Option<nat>) -> Option<usize> {
    match size {
        Some(n) => if n <= usize::MAX {
            Some(n as usize)
        } else {
            None
        },
        None => None,
    }
}

/// The chunk size to work with for what a user gave: the size that the text
/// denotes where that is a positive number that fits into a `usize`, and the
/// default in every other case.
pub open spec fn usable_chunk_size(text: Option<Seq<u8>>) -> usize {
    match text {
        Some(bytes) => match fitting(chunk_size_of(bytes)) {
            Some(n) => if n > 0 {
                n
            } else {
                DEFAULT_CHUNK_SIZE
            },
            None => DEFAULT_CHUNK_SIZE,
        },
        None => DEFAULT_CHUNK_SIZE,
    }
}

/// More digits never denote less: the value of a sequence of digits is at
/// least the value of each of its prefixes.
pub proof fn lemma_digits_value_grows(digits: Seq<u8>, upto: int)
    requires
        0 <= upto <= digits.len(),
        all_digits(digits),
    ensures
        digits_value(digits.take(upto)) <= digits_value(digits),
    decreases digits.len() - upto,
{
    if upto == digits.len() {
        assert(digits.take(upto) =~= digits);
    } else {
        let shorter = digits.drop_last();
        assert(is_digit(digits[digits.len() - 1]));
        assert(shorter.take(upto) =~= digits.take(upto));
        assert forall|i: int| 0 <= i < shorter.len() implies is_digit(#[trigger] shorter[i]) by {
            assert(shorter[i] == digits[i]);
        }
        lemma_digits_value_grows(shorter, upto);
    }
}

fn unit_of(byte: u8) -> (factor: Option<usize>)
    ensures
        match factor {
            Some(f) => unit_factor(byte) == Some(f as nat),
            None => unit_factor(byte) is None,
        },
{
    if byte == 107 || byte == 75 {
        Some(1024)
    } else if byte == 109 || byte == 77 {
        Some(1048576)
    } else if byte == 103 || byte == 71 {
        Some(1073741824)
    } else {
        None
    }
}

/// Reads a chunk size. Returns `None` where the text denotes none, or one
/// that does not fit into a `usize`.
pub fn parse_chunk_size(text: &str) -> (size: Option<usize>)
    ensures
        size == fitting(chunk_size_of(text.spec_bytes())),
{
    let bytes = text.as_bytes();
    let n = bytes.len();
    if n == 0 {
        return None;
    }
    let last = bytes[n - 1];
    let ghost whole = bytes@;
    let mut factor: usize = 1;
    let mut count = n;
    if !(48 <= last && last <= 57) {
        match unit_of(last) {
            Some(f) => {
                factor = f;
                count = n - 1;
            },
            None => {
                return None;
            },
        }
        if count == 0 {
            return None;
        }
    }
    let ghost digits = whole.take(count as int);
    assert(count < n ==> digits =~= whole.drop_last());
    assert(count == n ==> digits =~= whole);
    assert(!all_digits(digits) ==> chunk_size_of(whole) is None);
    assert(all_digits(digits) ==> chunk_size_of(whole) == Some(digits_value(digits) * (factor as nat)));
    let mut value: usize = 0;
    let mut i: usize = 0;
    assert(digits.take(0) =~= Seq::<u8>::empty());
    while i < count
        invariant
            i <= count <= n,
            n == bytes@.len(),
            whole == bytes@,
            whole == text.spec_bytes(),
            digits == whole.take(count as int),
            factor >= 1,
            !all_digits(digits) ==> chunk_size_of(whole) is None,
            all_digits(digits) ==> chunk_size_of(whole) == Some(digits_value(digits) * (factor as nat)),
            all_digits(digits.take(i as int)),
            value == digits_value(digits.take(i as int)),
        decreases count - i,
    {
        let byte = bytes[i];
        if !(48 <= byte && byte <= 57) {
            assert(!is_digit(digits[i as int]));
            return None;
        }
        let ghost next = digits.take(i + 1);
        assert(next.drop_last() =~= digits.take(i as int));
        assert(all_digits(next)) by {
            assert forall|j: int| 0 <= j < next.len() implies is_digit(#[trigger] next[j]) by {
                if j < i {
                    assert(next[j] == digits.take(i as int)[j]);
                }
            }
        }
        let digit: usize = (byte - 48) as usize;
        let grown = match value.checked_mul(10) {
            Some(tenfold) => tenfold.checked_add(digit),
            None => None,
        };
        match grown {
            Some(v) => {
                value = v;
            },
            None => {
                proof {
                    assert(digits_value(next) > usize::MAX);
                    if all_digits(digits) {
                        lemma_digits_value_grows(digits, i + 1);
                        assert(digits_value(digits) * factor >= digits_value(digits))
                            by (nonlinear_arith)
                            requires
                                factor >= 1,
                        ;
                    }
                }
                return None;
            },
        }
        i += 1;
    }
    assert(digits.take(count as int) =~= digits);
    value.checked_mul(factor)
}

/// The chunk size to work with for what a user gave, if anything: the size
/// read from the text where that is a positive number, and the default of
/// 64 KiB otherwise.
pub fn chunk_size_or_default(text: Option<&str>) -> (size: usize)
    ensures
        size > 0,
        size == usable_chunk_size(
            match text {
                Some(t) => Some(t.spec_bytes()),
                None => None,
            },
        ),
{
    match text {
        Some(t) => match parse_chunk_size(t) {
            Some(n) => if n > 0 {
                n
            } else {
                DEFAULT_CHUNK_SIZE
            },
            None => DEFAULT_CHUNK_SIZE,
        },
        None => DEFAULT_CHUNK_SIZE,
    }
}

} // verus!
