//! The date stamp `YYYY_MM_DD` that names a day's notes.

use crate::calendar::{date_from_days, date_of_day, Date};
use crate::text::{
    all_digits, digit_value, is_digit, lemma_digits_are_written_back, lemma_number_grows,
    lemma_zero_padded_reads_back, number_of, push_zero_padded, zero_padded,
};
use vstd::prelude::*;
use vstd::string::*;
use vstd::utf8::*;

verus! {

/// The length of a day in seconds.
pub const SECONDS_PER_DAY: u64 = 86_400;

/// Why no date stamp could be made.
#[derive(Clone, Copy, Debug, PartialEq, Eq, Structural)]
pub enum ClockError {
    /// The system clock stands before 1970-01-01.
    BeforeEpoch,
}

/// The stamp of `date`: the year in at least four digits, the month and the
/// day in two, joined by underscores.
pub open spec fn timestamp_text(date: Date) -> Seq<char> {
    zero_padded(date.year as nat, 4) + seq!['_'] + zero_padded(date.month as nat, 2) + seq!['_']
        + zero_padded(date.day as nat, 2)
}

/// The stamp of the day on which the instant `secs` seconds after
/// 1970-01-01T00:00:00 falls.
pub open spec fn timestamp_at(secs: nat) -> Seq<char> {
    timestamp_text(date_of_day(secs / 86_400))
}

/// Whether `text` is the stamp of some instant that a 64-bit count of
/// seconds can name.
pub open spec fn is_timestamp(text: Seq<char>) -> bool {
    exists|secs: u64| text == timestamp_at(secs as nat)
}

/// Writes the stamp of `date`.
pub fn timestamp_of_date(date: &Date) -> (text: String)
    ensures
        text@ == timestamp_text(*date),
{
    let mut text = String::new();
    proof {
        reveal_strlit("_");
    }
    push_zero_padded(&mut text, date.year, 4);
    text.append("_");
    push_zero_padded(&mut text, date.month, 2);
    text.append("_");
    push_zero_padded(&mut text, date.day, 2);
    text
}

/// Writes the stamp of the day on which the instant `secs` seconds after
/// 1970-01-01T00:00:00 falls.
pub fn timestamp_from_secs(secs: u64) -> (text: String)
    ensures
        text@ == timestamp_at(secs as nat),
        is_timestamp(text@),
{
    let date = date_from_days(secs / SECONDS_PER_DAY);
    let text = timestamp_of_date(&date);
    assert(text@ == timestamp_at(secs as nat));
    text
}

/// Turns a reading of the clock, in whole seconds since 1970-01-01T00:00:00
/// or `None` where the clock stands before that, into a stamp.
pub fn timestamp_from_clock(reading: Option<u64>) -> (stamp: Result<String, ClockError>)
    ensures
        match reading {
            Some(secs) => stamp matches Ok(text) && text@ == timestamp_at(secs as nat),
            None => stamp == Err::<String, ClockError>(ClockError::BeforeEpoch),
        },
{
    match reading {
        Some(secs) => Ok(timestamp_from_secs(secs)),
        None => Err(ClockError::BeforeEpoch),
    }
}

/// A point in time as the system clock gives it.
#[verifier::external_type_specification]
#[verifier::external_body]
pub struct ExSystemTime(std::time::SystemTime);

/// `std::time::SystemTime::now`, the current reading of the system clock.
/// Nothing is claimed of it.
pub assume_specification[ std::time::SystemTime::now ]() -> std::time::SystemTime;

/// `std::time::Duration::as_secs`, the whole seconds that a duration
/// holds. Nothing is claimed of them.
pub assume_specification[ std::time::Duration::as_secs ](duration: &std::time::Duration) -> u64;

/// `std::time::SystemTime::duration_since`, here the time that has passed
/// from `std::time::UNIX_EPOCH` to `time`; `None` where `time` lies before
/// the epoch. Nothing is claimed of the duration.
#[verifier::external_body]
fn since_epoch(time: std::time::SystemTime) -> (elapsed: Option<std::time::Duration>) {
    time.duration_since(std::time::UNIX_EPOCH).ok()
}

/// Reads the system clock in whole seconds since 1970-01-01T00:00:00;
/// `None` where the clock stands before that.
fn seconds_since_epoch() -> (reading: Option<u64>) {
    match since_epoch(std::time::SystemTime::now()) {
        Some(elapsed) => Some(elapsed.as_secs()),
        None => None,
    }
}

/// The stamp of the current day, by the system clock in UTC.
///
/// Whatever the clock says, a stamp that comes back is the stamp of some
/// instant; the clock fails only where it stands before 1970-01-01.
pub fn get_timestamp() -> (stamp: Result<String, ClockError>)
    ensures
        stamp matches Ok(text) ==> is_timestamp(text@),
        stamp matches Err(e) ==> e == ClockError::BeforeEpoch,
{
    timestamp_from_clock(seconds_since_epoch())
}

/// The date that `text` is the stamp of, if it is one: digits for the year,
/// four or more and then without a zero in front, two for the month and two
/// for the day, with an underscore before the month and before the day, and
/// together a date that exists.
pub open spec fn parsed_timestamp(text: Seq<char>) -> Option<Date> {
    let len = text.len() as int;
    let year = text.take(len - 6);
    let month = text.subrange(len - 5, len - 3);
    let day = text.skip(len - 2);
    let date = Date {
        year: number_of(year) as u64,
        month: number_of(month) as u64,
        day: number_of(day) as u64,
    };
    if len >= 10 && text[len - 6] == '_' && text[len - 3] == '_' && all_digits(year) && all_digits(
        month,
    ) && all_digits(day) && (len == 10 || text[0] != '0') && number_of(year) <= u64::MAX
        && date.valid() {
        Some(date)
    } else {
        None
    }
}

/// A stamp is read back as the date that it was written for.
pub proof fn lemma_timestamp_parses_back(date: Date)
    requires
        date.valid(),
    ensures
        parsed_timestamp(timestamp_text(date)) == Some(date),
{
    let year = zero_padded(date.year as nat, 4);
    let month = zero_padded(date.month as nat, 2);
    let day = zero_padded(date.day as nat, 2);
    let text = timestamp_text(date);
    lemma_zero_padded_reads_back(date.year as nat, 4);
    lemma_zero_padded_reads_back(date.month as nat, 2);
    lemma_zero_padded_reads_back(date.day as nat, 2);
    assert(month.len() == 2 && day.len() == 2) by {
        reveal_with_fuel(crate::text::decimal, 3);
    }
    let len = text.len() as int;
    assert(text.take(len - 6) =~= year);
    assert(text.subrange(len - 5, len - 3) =~= month);
    assert(text.skip(len - 2) =~= day);
}

/// Only stamps are read as dates: a text that is read as a date is that
/// date's stamp, character for character.
pub proof fn lemma_parsed_is_stamp(text: Seq<char>)
    requires
        parsed_timestamp(text).is_some(),
    ensures
        parsed_timestamp(text).unwrap().valid(),
        timestamp_text(parsed_timestamp(text).unwrap()) == text,
{
    let len = text.len() as int;
    let year = text.take(len - 6);
    let month = text.subrange(len - 5, len - 3);
    let day = text.skip(len - 2);
    lemma_digits_are_written_back(year, 4);
    lemma_digits_are_written_back(month, 2);
    lemma_digits_are_written_back(day, 2);
    lemma_two_digits_fit(month);
    lemma_two_digits_fit(day);
}

/// Whether `bytes` holds the characters of `text`, one byte for each, as it
/// does for text in ASCII.
pub open spec fn spells(bytes: Seq<u8>, text: Seq<char>) -> bool {
    &&& bytes.len() == text.len()
    &&& forall|i: int|
        0 <= i < text.len() ==> '\0' <= #[trigger] text[i] <= '\u{7f}' && text[i] as u8 == bytes[i]
}

/// The byte of an ASCII character is a digit's byte where the character is
/// a digit, and then gives the digit's value.
proof fn lemma_digit_byte(c: char, byte: u8)
    requires
        c <= '\u{7f}',
        c as u8 == byte,
    ensures
        is_digit(c) <==> 48 <= byte <= 57,
        is_digit(c) ==> digit_value(c) == byte - 48,
{
}

/// The value of the digits that `bytes` holds from `from` up to `to`, where
/// they are all digits and their value fits.
fn read_number(bytes: &[u8], from: usize, to: usize, Ghost(text): Ghost<Seq<char>>) -> (value:
    Option<u64>)
    requires
        from <= to <= bytes@.len(),
        spells(bytes@, text),
    ensures
        value == if all_digits(text.subrange(from as int, to as int)) && number_of(
            text.subrange(from as int, to as int),
        ) <= u64::MAX {
            Some(number_of(text.subrange(from as int, to as int)) as u64)
        } else {
            None
        },
{
    let ghost field = text.subrange(from as int, to as int);
    let mut value: u64 = 0;
    let mut at: usize = from;
    while at < to
        invariant
            from <= at <= to <= bytes@.len(),
            spells(bytes@, text),
            field == text.subrange(from as int, to as int),
            all_digits(field.take(at - from)),
            value == number_of(field.take(at - from)),
        decreases to - at,
    {
        let byte = bytes[at];
        let ghost seen = field.take(at - from + 1);
        proof {
            assert(seen.drop_last() =~= field.take(at - from));
            assert(seen.last() == text[at as int]);
            lemma_digit_byte(text[at as int], byte);
        }
        if byte < 48 || byte > 57 {
            return None;
        }
        let digit = (byte - 48) as u64;
        proof {
            if all_digits(field) {
                lemma_number_grows(field, at - from + 1);
            }
        }
        if value > (u64::MAX - digit) / 10 {
            return None;
        }
        value = value * 10 + digit;
        proof {
            assert(all_digits(seen));
        }
        at = at + 1;
    }
    proof {
        assert(field.take(to - from) =~= field);
    }
    Some(value)
}

/// Reads a stamp back into the date that it was written for. `None` for
/// any text that is not the stamp of a date.
pub fn parse_timestamp(text: &str) -> (date: Option<Date>)
    ensures
        date == parsed_timestamp(text@),
{
    let ghost chars = text@;
    if !text.is_ascii() {
        proof {
            lemma_stamps_are_plain(chars);
        }
        return None;
    }
    let bytes = text.as_bytes();
    proof {
        is_ascii_chars_encode_utf8(chars);
    }
    let len = bytes.len();
    if len < 10 {
        return None;
    }
    if bytes[len - 6] != 95 || bytes[len - 3] != 95 {
        return None;
    }
    if len > 10 && bytes[0] == 48 {
        return None;
    }
    let year = match read_number(bytes, 0, len - 6, Ghost(chars)) {
        Some(year) => year,
        None => {
            return None;
        },
    };
    let month = match read_number(bytes, len - 5, len - 3, Ghost(chars)) {
        Some(month) => month,
        None => {
            proof {
                lemma_two_digits_fit(chars.subrange(len - 5, len - 3));
            }
            return None;
        },
    };
    let day = match read_number(bytes, len - 2, len, Ghost(chars)) {
        Some(day) => day,
        None => {
            proof {
                lemma_two_digits_fit(chars.subrange(len - 2, len as int));
            }
            return None;
        },
    };
    let date = Date { year, month, day };
    if date.is_valid() {
        Some(date)
    } else {
        None
    }
}

/// Two digits make a number below a hundred.
proof fn lemma_two_digits_fit(field: Seq<char>)
    requires
        field.len() == 2,
    ensures
        all_digits(field) ==> number_of(field) <= 99,
{
    reveal_with_fuel(number_of, 3);
}

/// A text that is a stamp holds digits and underscores only.
proof fn lemma_stamps_are_plain(text: Seq<char>)
    requires
        !is_ascii_chars(text),
    ensures
        parsed_timestamp(text) is None,
{
    if parsed_timestamp(text) is Some {
        let len = text.len() as int;
        let year = text.take(len - 6);
        let month = text.subrange(len - 5, len - 3);
        let day = text.skip(len - 2);
        assert forall|i: int| 0 <= i < len implies '\0' <= #[trigger] text[i] <= '\u{7f}' by {
            if i < len - 6 {
                assert(is_digit(year[i]));
            } else if len - 6 < i < len - 3 {
                assert(is_digit(month[i - (len - 5)]));
            } else if len - 3 < i {
                assert(is_digit(day[i - (len - 2)]));
            }
        }
    }
}

} // verus!
