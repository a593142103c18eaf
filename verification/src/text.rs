//! Numbers written out in digits.

use vstd::prelude::*;
use vstd::string::*;

verus! {

/// The digit that stands for `d`, for `d` below 16; letters are upper case.
pub open spec fn digit_char(d: nat) -> char {
    if d == 0 {
        '0'
    } else if d == 1 {
        '1'
    } else if d == 2 {
        '2'
    } else if d == 3 {
        '3'
    } else if d == 4 {
        '4'
    } else if d == 5 {
        '5'
    } else if d == 6 {
        '6'
    } else if d == 7 {
        '7'
    } else if d == 8 {
        '8'
    } else if d == 9 {
        '9'
    } else if d == 10 {
        'A'
    } else if d == 11 {
        'B'
    } else if d == 12 {
        'C'
    } else if d == 13 {
        'D'
    } else if d == 14 {
        'E'
    } else {
        'F'
    }
}

/// The number that a digit stands for; 0 for any other character.
pub open spec fn digit_value(c: char) -> nat {
    if c == '1' {
        1
    } else if c == '2' {
        2
    } else if c == '3' {
        3
    } else if c == '4' {
        4
    } else if c == '5' {
        5
    } else if c == '6' {
        6
    } else if c == '7' {
        7
    } else if c == '8' {
        8
    } else if c == '9' {
        9
    } else if c == 'A' {
        10
    } else if c == 'B' {
        11
    } else if c == 'C' {
        12
    } else if c == 'D' {
        13
    } else if c == 'E' {
        14
    } else if c == 'F' {
        15
    } else {
        0
    }
}

/// `n` written to the base `radix`, most significant digit first, without
/// leading zeros; "0" for 0.
pub open spec fn radix_text(n: nat, radix: nat) -> Seq<char>
    recommends
        2 <= radix <= 16,
    decreases n,
    when radix >= 2
    via radix_text_ends
{
    if n < radix {
        seq![digit_char(n)]
    } else {
        radix_text(n / radix, radix).push(digit_char(n % radix))
    }
}

#[via_fn]
proof fn radix_text_ends(n: nat, radix: nat) {
    if n >= radix {
        fewer_digits_left(n, radix);
    }
}

/// What is left of a number after its last digit is smaller than the
/// number.
proof fn fewer_digits_left(n: nat, radix: nat)
    by (nonlinear_arith)
    requires
        radix >= 2,
        n >= radix,
    ensures
        n / radix < n,
{
}

/// The number that a text of digits to the base `radix` stands for.
pub open spec fn radix_value(text: Seq<char>, radix: nat) -> nat
    decreases text.len(),
{
    if text.len() == 0 {
        0
    } else {
        radix_value(text.drop_last(), radix) * radix + digit_value(text.last())
    }
}

/// A number can be read back from its digits.
pub proof fn radix_text_round_trip(n: nat, radix: nat)
    requires
        2 <= radix <= 16,
    ensures
        radix_text(n, radix).len() >= 1,
        radix_value(radix_text(n, radix), radix) == n,
    decreases n,
{
    let text = radix_text(n, radix);
    if n < radix {
        assert(text.drop_last() == Seq::<char>::empty());
        assert(radix_value(text.drop_last(), radix) == 0);
        assert(text.last() == digit_char(n));
        assert(0 * radix == 0);
    } else {
        let init = radix_text(n / radix, radix);
        fewer_digits_left(n, radix);
        radix_text_round_trip(n / radix, radix);
        assert(text.drop_last() == init);
        assert(text.last() == digit_char(n % radix));
        assert(n % radix < 16);
        assert((n / radix) * radix + n % radix == n) by (nonlinear_arith)
            requires
                radix > 0,
        ;
    }
}

/// The digit for `d` as a text of one character.
fn digit_str(d: u64) -> (text: &'static str)
    requires
        d < 16,
    ensures
        text@ == seq![digit_char(d as nat)],
{
    proof {
        reveal_strlit("0");
        reveal_strlit("1");
        reveal_strlit("2");
        reveal_strlit("3");
        reveal_strlit("4");
        reveal_strlit("5");
        reveal_strlit("6");
        reveal_strlit("7");
        reveal_strlit("8");
        reveal_strlit("9");
        reveal_strlit("A");
        reveal_strlit("B");
        reveal_strlit("C");
        reveal_strlit("D");
        reveal_strlit("E");
        reveal_strlit("F");
    }
    let text = match d {
        0 => "0",
        1 => "1",
        2 => "2",
        3 => "3",
        4 => "4",
        5 => "5",
        6 => "6",
        7 => "7",
        8 => "8",
        9 => "9",
        10 => "A",
        11 => "B",
        12 => "C",
        13 => "D",
        14 => "E",
        _ => "F",
    };
    assert(text@ =~= seq![digit_char(d as nat)]);
    text
}

/// Appends `n`, written to the base `radix`, to `text`.
pub fn append_radix(text: &mut String, n: u64, radix: u64)
    requires
        2 <= radix <= 16,
    ensures
        final(text)@ == old(text)@ + radix_text(n as nat, radix as nat),
    decreases n,
{
    if n >= radix {
        proof {
            fewer_digits_left(n as nat, radix as nat);
        }
        append_radix(text, n / radix, radix);
    }
    let ghost leading = text@;
    text.append(digit_str(n % radix));
    proof {
        let last = digit_char((n % radix) as nat);
        assert(text@ == leading + seq![last]);
        if n >= radix {
            let init = radix_text((n / radix) as nat, radix as nat);
            assert(leading == old(text)@ + init);
            assert(radix_text(n as nat, radix as nat) == init.push(last));
            assert((old(text)@ + init) + seq![last] =~= old(text)@ + init.push(last));
        } else {
            assert(leading == old(text)@);
            assert(n % radix == n) by (nonlinear_arith)
                requires
                    0 <= n < radix,
            ;
        }
    }
}

} // verus!
