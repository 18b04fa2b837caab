//! Helpers on text: comparing strings and writing decimal digits.

use vstd::prelude::*;
use vstd::string::*;
use vstd::utf8::*;

verus! {

/// The character that writes the decimal digit `value` (0 to 9).
pub open spec fn digit(value: int) -> char {
    if value == 0 {
        '0'
    } else if value == 1 {
        '1'
    } else if value == 2 {
        '2'
    } else if value == 3 {
        '3'
    } else if value == 4 {
        '4'
    } else if value == 5 {
        '5'
    } else if value == 6 {
        '6'
    } else if value == 7 {
        '7'
    } else if value == 8 {
        '8'
    } else {
        '9'
    }
}

/// Whether `c` is one of the ten decimal digits.
pub open spec fn is_digit(c: char) -> bool {
    '0' <= c <= '9'
}

/// The number that the decimal digit `c` stands for.
pub open spec fn digit_value(c: char) -> int {
    c as int - '0' as int
}

/// What an optional string holds.
pub open spec fn text_of(text: Option<&str>) -> Option<Seq<char>> {
    match text {
        Some(inner) => Some(inner@),
        None => None,
    }
}

/// `count` copies of the character `c`.
pub open spec fn repeated(c: char, count: nat) -> Seq<char> {
    Seq::new(count, |i: int| c)
}

/// The decimal digits of `n`, most significant first, without leading
/// zeros; `0` is written as one digit.
pub open spec fn decimal(n: nat) -> Seq<char>
    decreases n,
{
    if n < 10 {
        seq![digit(n as int)]
    } else {
        decimal(n / 10).push(digit((n % 10) as int))
    }
}

/// The decimal digits of `n`, with zeros in front where there are fewer
/// than `width` of them.
pub open spec fn zero_padded(n: nat, width: nat) -> Seq<char> {
    let digits = decimal(n);
    if digits.len() >= width {
        digits
    } else {
        repeated('0', (width - digits.len()) as nat) + digits
    }
}

/// Whether two strings hold the same characters.
pub fn same_text(a: &str, b: &str) -> (same: bool)
    ensures
        same == (a@ == b@),
{
    let left = a.as_bytes();
    let right = b.as_bytes();
    if left.len() != right.len() {
        return false;
    }
    let mut i: usize = 0;
    while i < left.len()
        invariant
            i <= left@.len(),
            left@.len() == right@.len(),
            left@ == encode_utf8(a@),
            right@ == encode_utf8(b@),
            forall|j: int| 0 <= j < i ==> left@[j] == right@[j],
        decreases left@.len() - i,
    {
        if left[i] != right[i] {
            return false;
        }
        i = i + 1;
    }
    proof {
        assert(left@ =~= right@);
        encode_utf8_decode_utf8(a@);
        encode_utf8_decode_utf8(b@);
    }
    true
}

/// Appends the decimal digit `value` to `out`.
fn push_digit(out: &mut String, value: u64)
    requires
        value < 10,
    ensures
        final(out)@ == old(out)@.push(digit(value as int)),
{
    let digits = "0123456789";
    proof {
        reveal_strlit("0123456789");
    }
    let piece = digits.substring_ascii(value as usize, value as usize + 1);
    out.append(piece);
}

/// The number of decimal digits of `n`.
pub fn decimal_width(n: u64) -> (width: usize)
    ensures
        width == decimal(n as nat).len(),
        1 <= width <= 20,
    decreases n,
{
    if n < 10 {
        1
    } else {
        proof {
            lemma_decimal_width_bound(n as nat);
        }
        decimal_width(n / 10) + 1
    }
}

/// A number below `10^k` has at most `k` digits; stated for the 20 digits
/// that a 64-bit number can have.
proof fn lemma_decimal_width_bound(n: nat)
    requires
        n <= u64::MAX,
    ensures
        decimal(n).len() <= 20,
{
    reveal_with_fuel(decimal, 21);
}

/// Appends the decimal digits of `n` to `out`.
pub fn push_decimal(out: &mut String, n: u64)
    ensures
        final(out)@ == old(out)@ + decimal(n as nat),
    decreases n,
{
    if n < 10 {
        push_digit(out, n);
    } else {
        push_decimal(out, n / 10);
        push_digit(out, n % 10);
    }
}

/// Appends the decimal digits of `n` to `out`, with zeros in front where
/// there are fewer than `width` of them.
pub fn push_zero_padded(out: &mut String, n: u64, width: usize)
    ensures
        final(out)@ == old(out)@ + zero_padded(n as nat, width as nat),
{
    let have = decimal_width(n);
    let mut written: usize = have;
    while written < width
        invariant
            have <= written,
            have == decimal(n as nat).len(),
            written <= width || written == have,
            out@ == old(out)@ + repeated('0', (written - have) as nat),
        decreases width - written,
    {
        push_digit(out, 0);
        written = written + 1;
    }
    push_decimal(out, n);
}

/// Whether `text` holds decimal digits only.
pub open spec fn all_digits(text: Seq<char>) -> bool {
    forall|i: int| 0 <= i < text.len() ==> is_digit(#[trigger] text[i])
}

/// The number that the decimal digits `text` write; zero for no digits.
pub open spec fn number_of(text: Seq<char>) -> nat
    decreases text.len(),
{
    if text.len() == 0 {
        0
    } else {
        (number_of(text.drop_last()) * 10 + digit_value(text.last())) as nat
    }
}

/// The digits of a number are digits, the first of them a zero only for
/// zero itself, and they write the number.
pub proof fn lemma_decimal_reads_back(n: nat)
    ensures
        decimal(n).len() >= 1,
        all_digits(decimal(n)),
        number_of(decimal(n)) == n,
        n > 0 ==> decimal(n)[0] != '0',
    decreases n,
{
    if n < 10 {
        assert(number_of(decimal(n).drop_last()) == 0);
    } else {
        lemma_decimal_reads_back(n / 10);
        let front = decimal(n / 10);
        assert(decimal(n).drop_last() =~= front);
        assert(all_digits(decimal(n)));
    }
}

/// Zeros in front of digits do not change the number that they write.
pub proof fn lemma_leading_zeros(count: nat, digits: Seq<char>)
    ensures
        number_of(repeated('0', count) + digits) == number_of(digits),
    decreases digits.len(),
{
    let zeros = repeated('0', count);
    if digits.len() == 0 {
        lemma_zeros_write_zero(count);
    } else {
        assert((zeros + digits).drop_last() =~= zeros + digits.drop_last());
        lemma_leading_zeros(count, digits.drop_last());
    }
}

/// Zeros write zero.
proof fn lemma_zeros_write_zero(count: nat)
    ensures
        number_of(repeated('0', count)) == 0,
    decreases count,
{
    if count > 0 {
        assert(repeated('0', count).drop_last() =~= repeated('0', (count - 1) as nat));
        lemma_zeros_write_zero((count - 1) as nat);
    }
}

/// A number padded with zeros is digits throughout, as wide as asked for
/// or as the number needs, with a zero in front only where the padding or
/// the number zero puts it, and it writes the number.
pub proof fn lemma_zero_padded_reads_back(n: nat, width: nat)
    ensures
        zero_padded(n, width).len() >= width,
        zero_padded(n, width).len() >= 1,
        zero_padded(n, width).len() == width || zero_padded(n, width) == decimal(n),
        all_digits(zero_padded(n, width)),
        number_of(zero_padded(n, width)) == n,
        zero_padded(n, width).len() > width && n > 0 ==> zero_padded(n, width)[0] != '0',
{
    lemma_decimal_reads_back(n);
    let digits = decimal(n);
    if digits.len() < width {
        let zeros = repeated('0', (width - digits.len()) as nat);
        lemma_leading_zeros((width - digits.len()) as nat, digits);
        assert(all_digits(zeros + digits));
    }
}

/// Digits write a number no smaller than the one that fewer of them write.
pub proof fn lemma_number_grows(digits: Seq<char>, count: int)
    requires
        0 <= count <= digits.len(),
        all_digits(digits),
    ensures
        number_of(digits.take(count)) <= number_of(digits),
    decreases digits.len() - count,
{
    if count < digits.len() {
        lemma_number_grows(digits, count + 1);
        let longer = digits.take(count + 1);
        assert(longer.drop_last() =~= digits.take(count));
    } else {
        assert(digits.take(count) =~= digits);
    }
}

/// Digits that do not begin with a zero write a number above zero.
proof fn lemma_number_is_positive(digits: Seq<char>)
    requires
        digits.len() >= 1,
        all_digits(digits),
        digits[0] != '0',
    ensures
        number_of(digits) > 0,
    decreases digits.len(),
{
    if digits.len() > 1 {
        let front = digits.drop_last();
        assert(all_digits(front));
        lemma_number_is_positive(front);
    }
}

/// A number has no more digits than any digits that write it, and as many
/// where those do not begin with a zero.
proof fn lemma_decimal_is_shortest(digits: Seq<char>)
    requires
        digits.len() >= 1,
        all_digits(digits),
    ensures
        decimal(number_of(digits)).len() <= digits.len(),
        digits[0] != '0' ==> decimal(number_of(digits)).len() == digits.len(),
    decreases digits.len(),
{
    let front = digits.drop_last();
    assert(is_digit(digits[digits.len() - 1]));
    if digits.len() > 1 {
        assert(all_digits(front));
        lemma_decimal_is_shortest(front);
        if digits[0] != '0' {
            lemma_number_is_positive(front);
        }
    }
}

/// Digits of one length that write one number are the same digits.
proof fn lemma_number_tells_digits(first: Seq<char>, second: Seq<char>)
    requires
        first.len() == second.len(),
        all_digits(first),
        all_digits(second),
        number_of(first) == number_of(second),
    ensures
        first == second,
    decreases first.len(),
{
    if first.len() > 0 {
        let last = first.len() - 1;
        assert(all_digits(first.drop_last()) && all_digits(second.drop_last()));
        lemma_number_tells_digits(first.drop_last(), second.drop_last());
        assert(first =~= first.drop_last().push(first[last]));
    }
}

/// Digits are what their number is written as, padded to `width`, where
/// they are `width` digits, or more of them without a zero in front.
pub proof fn lemma_digits_are_written_back(digits: Seq<char>, width: nat)
    requires
        width >= 1,
        all_digits(digits),
        digits.len() == width || (digits.len() > width && digits[0] != '0'),
    ensures
        zero_padded(number_of(digits), width) == digits,
{
    let n = number_of(digits);
    lemma_decimal_is_shortest(digits);
    lemma_zero_padded_reads_back(n, width);
    lemma_number_tells_digits(zero_padded(n, width), digits);
}

} // verus!
