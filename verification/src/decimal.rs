use vstd::prelude::*;

verus! {

/// The decimal digit for `d`, where `0 <= d < 10`.
pub open spec fn digit(d: int) -> char {
    if d == 0 {
        '0'
    } else if d == 1 {
        '1'
    } else if d == 2 {
        '2'
    } else if d == 3 {
        '3'
    } else if d == 4 {
        '4'
    } else if d == 5 {
        '5'
    } else if d == 6 {
        '6'
    } else if d == 7 {
        '7'
    } else if d == 8 {
        '8'
    } else {
        '9'
    }
}

/// The number that a decimal digit stands for, if `c` is one.
pub open spec fn digit_value(c: char) -> Option<nat> {
    if c == '0' {
        Some(0)
    } else if c == '1' {
        Some(1)
    } else if c == '2' {
        Some(2)
    } else if c == '3' {
        Some(3)
    } else if c == '4' {
        Some(4)
    } else if c == '5' {
        Some(5)
    } else if c == '6' {
        Some(6)
    } else if c == '7' {
        Some(7)
    } else if c == '8' {
        Some(8)
    } else if c == '9' {
        Some(9)
    } else {
        None
    }
}

/// The minimal decimal text of a natural number: no leading zeros, and `0` for zero.
pub open spec fn nat_text(n: nat) -> Seq<char>
    decreases n,
{
    if n < 10 {
        seq![digit(n as int)]
    } else {
        nat_text(n / 10).push(digit((n % 10) as int))
    }
}

/// The minimal decimal text of an integer: a minus sign only when it is negative.
pub open spec fn int_text(i: int) -> Seq<char> {
    if i < 0 {
        seq!['-'] + nat_text((-i) as nat)
    } else {
        nat_text(i as nat)
    }
}

/// The natural number that a run of decimal digits stands for. The empty
/// text and text with any other character stand for none.
pub open spec fn nat_value(s: Seq<char>) -> Option<nat>
    decreases s.len(),
{
    if s.len() == 0 {
        None
    } else if s.len() == 1 {
        digit_value(s[0])
    } else {
        match (nat_value(s.drop_last()), digit_value(s.last())) {
            (Some(high), Some(low)) => Some(high * 10 + low),
            _ => None,
        }
    }
}

/// The integer that decimal text stands for: digits, with or without a minus sign before them.
pub open spec fn int_value(s: Seq<char>) -> Option<int> {
    if s.len() > 0 && s[0] == '-' {
        match nat_value(s.drop_first()) {
            Some(n) => Some(-(n as int)),
            None => None,
        }
    } else {
        match nat_value(s) {
            Some(n) => Some(n as int),
            None => None,
        }
    }
}

/// The decimal text of a natural number is never empty, holds digits only,
/// begins with `0` only for zero, and reads back as the number.
pub proof fn lemma_nat_text_round_trip(n: nat)
    ensures
        nat_text(n).len() >= 1,
        digit_value(nat_text(n)[0]) is Some,
        nat_text(n)[0] == '0' <==> n == 0,
        nat_text(n).len() == 1 <==> n < 10,
        nat_value(nat_text(n)) == Some(n),
    decreases n,
{
    if n >= 10 {
        let high = n / 10;
        let low = n % 10;
        lemma_nat_text_round_trip(high);
        let t = nat_text(high).push(digit(low as int));
        assert(t.drop_last() =~= nat_text(high));
        assert(t.last() == digit(low as int));
        assert(t[0] == nat_text(high)[0]);
        assert(digit_value(digit(low as int)) == Some(low));
        assert(high * 10 + low == n);
    } else {
        assert(digit_value(digit(n as int)) == Some(n));
    }
}

/// Integers round-trip exactly through their decimal text. The text bears a
/// minus sign exactly when the integer is negative, so zero is `0` and never
/// `-0`, and it has no leading zero.
pub proof fn lemma_int_text_round_trip(i: int)
    ensures
        int_value(int_text(i)) == Some(i),
        int_text(i).len() >= 1,
        int_text(i)[0] == '-' <==> i < 0,
        int_text(0) == seq!['0'],
        i > 0 ==> int_text(i)[0] != '0',
        i < 0 ==> int_text(i).len() >= 2 && int_text(i)[1] != '0',
{
    if i < 0 {
        let n = (-i) as nat;
        lemma_nat_text_round_trip(n);
        assert(int_text(i).drop_first() =~= nat_text(n));
        assert(int_text(i)[1] == nat_text(n)[0]);
    } else {
        lemma_nat_text_round_trip(i as nat);
        assert(digit_value('-') is None);
    }
    assert(int_text(0) =~= seq!['0']);
}

/// Different integers have different decimal texts.
pub proof fn lemma_int_text_injective(i: int, j: int)
    requires
        int_text(i) == int_text(j),
    ensures
        i == j,
{
    lemma_int_text_round_trip(i);
    lemma_int_text_round_trip(j);
}

/// `itoa::Buffer`: the scratch area that an integer is formatted into. Nothing
/// is read from inside it.
#[verifier::external_type_specification]
#[verifier::external_body]
pub struct ExItoaBuffer(itoa::Buffer);

/// `itoa::Buffer::new`: a fresh scratch area for one formatted integer.
/// Nothing is claimed of its contents.
pub assume_specification[ itoa::Buffer::new ]() -> (b: itoa::Buffer);

/// `itoa::Buffer::format` on an `i64`: the text handed back is the minimal
/// decimal text of `v`, with a minus sign exactly when `v` is negative.
#[verifier::external_body]
pub(crate) fn format_signed<'b>(scratch: &'b mut itoa::Buffer, v: i64) -> (s: &'b str)
    ensures
        s@ == int_text(v as int),
{
    scratch.format(v)
}

/// `itoa::Buffer::format` on a `u64`: the text handed back is the minimal
/// decimal text of `v`.
#[verifier::external_body]
pub(crate) fn format_unsigned<'b>(scratch: &'b mut itoa::Buffer, v: u64) -> (s: &'b str)
    ensures
        s@ == int_text(v as int),
{
    scratch.format(v)
}

} // verus!
