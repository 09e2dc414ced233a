//! Rendering dates and counters as text: `YYYY-MM-DD` day keys, ISO week
//! labels, and decimal numbers.

use vstd::prelude::*;

use vstd::std_specs::iter::IteratorSpec;

use crate::calendar::{date_valid, iso_week_number, iso_week_year, iso_week_parts, Date};

verus! {

broadcast use vstd::string::next_postcondition, vstd::string::axiom_spec_iter;

/// Collects the characters of a text into a vector.
pub fn str_to_chars(s: &str) -> (v: Vec<char>)
    ensures
        v@ == s@,
{
    let mut it = s.chars();
    let mut v: Vec<char> = Vec::new();
    loop
        invariant
            it.obeys_prophetic_iter_laws(),
            v@ + it.remaining() == s@,
        ensures
            v@ == s@,
        decreases s@.len() - v@.len(),
    {
        let ghost prev = v@;
        let ghost rem = it.remaining();
        match it.next() {
            Some(c) => {
                v.push(c);
                proof {
                    assert(prev.push(c) + rem.drop_first() =~= prev + rem);
                }
            },
            None => {
                proof {
                    assert(v@ + it.remaining() =~= v@);
                }
                break ;
            },
        }
    }
    v
}

/// The decimal digit character for a value below ten.
pub open spec fn digit_char(d: int) -> char {
    if d == 0 {
        '0'
    } else if d == 1 {
        '1'
    } else if d == 2 {
        '2'
    } else if d == 3 {
        '3'
    } else if d == 4 {
        '4'
    } else if d == 5 {
        '5'
    } else if d == 6 {
        '6'
    } else if d == 7 {
        '7'
    } else if d == 8 {
        '8'
    } else {
        '9'
    }
}

/// The decimal digits of a nonnegative value, most significant first,
/// without leading zeros.
pub open spec fn dec_chars(n: int) -> Seq<char>
    decreases n,
{
    if n < 10 {
        seq![digit_char(n)]
    } else {
        dec_chars(n / 10) + seq![digit_char(n % 10)]
    }
}

/// The decimal digits of a signed value: a minus sign before the digits of
/// its magnitude when negative.
pub open spec fn int_chars(n: int) -> Seq<char> {
    if n < 0 {
        seq!['-'] + dec_chars(-n)
    } else {
        dec_chars(n)
    }
}

/// A value below one hundred as exactly two digits.
pub open spec fn pad2_chars(n: int) -> Seq<char> {
    seq![digit_char(n / 10), digit_char(n % 10)]
}

/// A value below ten thousand as exactly four digits.
pub open spec fn pad4_chars(n: int) -> Seq<char> {
    seq![
        digit_char(n / 1000),
        digit_char((n / 100) % 10),
        digit_char((n / 10) % 10),
        digit_char(n % 10),
    ]
}

/// The `YYYY-MM-DD` key of a date: lexicographic order on keys is
/// chronological order on the dates they name.
pub open spec fn date_key_chars(d: Date) -> Seq<char> {
    pad4_chars(d.year as int) + seq!['-'] + pad2_chars(d.month as int) + seq!['-'] + pad2_chars(
        d.day as int,
    )
}

/// The `YYYY-Www` label of the ISO week of a date, under the ISO
/// week-numbering year.
pub open spec fn week_label_chars(d: Date) -> Seq<char> {
    dec_chars(iso_week_year(d)) + seq!['-', 'W'] + pad2_chars(iso_week_number(d))
}

/// Appends the digit character of a value below ten.
fn append_digit(s: &mut String, d: u8)
    requires
        d < 10,
    ensures
        final(s)@ == old(s)@ + seq![digit_char(d as int)],
{
    proof {
        reveal_strlit("0");
        reveal_strlit("1");
        reveal_strlit("2");
        reveal_strlit("3");
        reveal_strlit("4");
        reveal_strlit("5");
        reveal_strlit("6");
        reveal_strlit("7");
        reveal_strlit("8");
        reveal_strlit("9");
    }
    match d {
        0 => s.append("0"),
        1 => s.append("1"),
        2 => s.append("2"),
        3 => s.append("3"),
        4 => s.append("4"),
        5 => s.append("5"),
        6 => s.append("6"),
        7 => s.append("7"),
        8 => s.append("8"),
        _ => s.append("9"),
    }
}

/// Appends the decimal digits of a 64-bit value.
fn append_u64(s: &mut String, n: u64)
    ensures
        final(s)@ == old(s)@ + dec_chars(n as int),
    decreases n,
{
    if n < 10 {
        append_digit(s, n as u8);
    } else {
        proof {
            vstd::arithmetic::div_mod::lemma_div_decreases(n as int, 10);
            vstd::arithmetic::div_mod::lemma_div_pos_is_pos(n as int, 10);
        }
        append_u64(s, n / 10);
        append_digit(s, (n % 10) as u8);
    }
}

/// Appends a value below one hundred as exactly two digits.
fn append_pad2(s: &mut String, n: u8)
    requires
        n < 100,
    ensures
        final(s)@ == old(s)@ + pad2_chars(n as int),
{
    append_digit(s, n / 10);
    append_digit(s, n % 10);
}

/// Appends a value below ten thousand as exactly four digits.
fn append_pad4(s: &mut String, n: u16)
    requires
        n < 10000,
    ensures
        final(s)@ == old(s)@ + pad4_chars(n as int),
{
    append_digit(s, (n / 1000) as u8);
    append_digit(s, ((n / 100) % 10) as u8);
    append_digit(s, ((n / 10) % 10) as u8);
    append_digit(s, (n % 10) as u8);
}

/// Renders a 64-bit counter in decimal.
pub fn u64_string(n: u64) -> (r: String)
    ensures
        r@ == dec_chars(n as int),
{
    let mut s = String::new();
    append_u64(&mut s, n);
    proof {
        assert(s@ =~= dec_chars(n as int));
    }
    s
}

/// Renders a signed 64-bit value in decimal, with a leading minus sign
/// when negative.
pub fn i64_string(n: i64) -> (r: String)
    ensures
        r@ == int_chars(n as int),
{
    if n >= 0 {
        u64_string(n as u64)
    } else {
        let magnitude: u64 = ((-(n + 1)) as u64) + 1;
        let mut s = String::new();
        proof {
            reveal_strlit("-");
        }
        s.append("-");
        append_u64(&mut s, magnitude);
        proof {
            assert(s@ =~= int_chars(n as int));
        }
        s
    }
}

/// Renders the `YYYY-MM-DD` key of a valid date.
pub fn date_key(d: Date) -> (r: String)
    requires
        date_valid(d),
    ensures
        r@ == date_key_chars(d),
{
    let mut s = String::new();
    append_pad4(&mut s, d.year as u16);
    proof {
        reveal_strlit("-");
    }
    s.append("-");
    append_pad2(&mut s, d.month);
    s.append("-");
    append_pad2(&mut s, d.day);
    proof {
        assert(s@ =~= date_key_chars(d));
    }
    s
}

/// Renders the ISO week label of a valid date, as the week-numbering year,
/// a `-W` separator, and the two-digit week number.
pub fn week_label(d: Date) -> (r: String)
    requires
        date_valid(d),
        d.year <= 9998,
    ensures
        r@ == week_label_chars(d),
{
    let (year, week) = iso_week_parts(d);
    let mut s = String::new();
    append_u64(&mut s, year as u64);
    proof {
        reveal_strlit("-W");
    }
    s.append("-W");
    append_pad2(&mut s, week);
    proof {
        assert(s@ =~= week_label_chars(d));
    }
    s
}

} // verus!
