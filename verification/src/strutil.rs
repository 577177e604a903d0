//! Small string utilities shared by the migration engine: conversion between
//! strings and character vectors, decimal rendering of integers, and the
//! lexicographic order on character sequences.
use vstd::prelude::*;
use vstd::string::StrSliceExecFns;

verus! {

/// Relies on String::push: appends one character at the end of the string.
pub assume_specification[ String::push ](s: &mut String, ch: char)
    ensures
        final(s)@ == old(s)@.push(ch),
;

/// Collects the characters of a string slice into a vector.
pub fn str_chars(s: &str) -> (r: Vec<char>)
    ensures
        r@ == s@,
{
    let n = s.unicode_len();
    let mut r: Vec<char> = Vec::new();
    let mut i: usize = 0;
    while i < n
        invariant
            n == s@.len(),
            i <= n,
            r@ == s@.subrange(0, i as int),
        decreases n - i,
    {
        r.push(s.get_char(i));
        i = i + 1;
        assert(r@ =~= s@.subrange(0, i as int));
    }
    assert(r@ =~= s@);
    r
}

/// Builds a string out of a vector of characters.
pub fn chars_to_string(v: &Vec<char>) -> (r: String)
    ensures
        r@ == v@,
{
    let mut r = String::new();
    let mut i: usize = 0;
    while i < v.len()
        invariant
            i <= v@.len(),
            r@ == v@.subrange(0, i as int),
        decreases v@.len() - i,
    {
        r.push(v[i]);
        i = i + 1;
        assert(r@ =~= v@.subrange(0, i as int));
    }
    assert(r@ =~= v@);
    r
}

/// The character for one decimal digit.
pub open spec fn spec_digit_char(d: int) -> char {
    if d == 0 {
        '0'
    } else if d == 1 {
        '1'
    } else if d == 2 {
        '2'
    } else if d == 3 {
        '3'
    } else if d == 4 {
        '4'
    } else if d == 5 {
        '5'
    } else if d == 6 {
        '6'
    } else if d == 7 {
        '7'
    } else if d == 8 {
        '8'
    } else {
        '9'
    }
}

/// The decimal rendering of a natural number, most significant digit first.
pub open spec fn spec_nat_decimal(n: nat) -> Seq<char>
    decreases n,
{
    if n < 10 {
        seq![spec_digit_char(n as int)]
    } else {
        spec_nat_decimal(n / 10) + seq![spec_digit_char((n % 10) as int)]
    }
}

/// The decimal rendering of a signed 32-bit integer, with a leading '-'
/// for negative values.
pub open spec fn spec_i32_decimal(x: i32) -> Seq<char> {
    if x < 0 {
        seq!['-'] + spec_nat_decimal((-(x as int)) as nat)
    } else {
        spec_nat_decimal(x as nat)
    }
}

fn digit_char(d: u32) -> (c: char)
    requires
        d < 10,
    ensures
        c == spec_digit_char(d as int),
{
    if d == 0 {
        '0'
    } else if d == 1 {
        '1'
    } else if d == 2 {
        '2'
    } else if d == 3 {
        '3'
    } else if d == 4 {
        '4'
    } else if d == 5 {
        '5'
    } else if d == 6 {
        '6'
    } else if d == 7 {
        '7'
    } else if d == 8 {
        '8'
    } else {
        '9'
    }
}

/// Renders an unsigned 32-bit integer in decimal.
pub fn u32_decimal(x: u32) -> (r: String)
    ensures
        r@ == spec_nat_decimal(x as nat),
{
    let mut digits: Vec<char> = Vec::new();
    let mut m: u32 = x;
    while m >= 10
        invariant
            spec_nat_decimal(x as nat) == spec_nat_decimal(m as nat) + digits@.reverse(),
        decreases m,
    {
        let d = m % 10;
        let ghost old_digits = digits@;
        digits.push(digit_char(d));
        m = m / 10;
        proof {
            assert(digits@.reverse() =~= seq![spec_digit_char(d as int)] + old_digits.reverse());
            assert(spec_nat_decimal(m as nat) + (seq![spec_digit_char(d as int)]
                + old_digits.reverse()) =~= (spec_nat_decimal(m as nat) + seq![
                spec_digit_char(d as int),
            ]) + old_digits.reverse());
        }
    }
    let ghost old_digits = digits@;
    digits.push(digit_char(m));
    proof {
        assert(digits@.reverse() =~= seq![spec_digit_char(m as int)] + old_digits.reverse());
        assert(spec_nat_decimal(m as nat) =~= seq![spec_digit_char(m as int)]);
    }
    let mut out: Vec<char> = Vec::new();
    let mut i: usize = digits.len();
    while i > 0
        invariant
            i <= digits@.len(),
            out@ == digits@.subrange(i as int, digits@.len() as int).reverse(),
        decreases i,
    {
        i = i - 1;
        out.push(digits[i]);
        assert(out@ =~= digits@.subrange(i as int, digits@.len() as int).reverse());
    }
    assert(out@ =~= digits@.reverse());
    chars_to_string(&out)
}

/// Renders a signed 32-bit integer in decimal.
pub fn i32_decimal(x: i32) -> (r: String)
    ensures
        r@ == spec_i32_decimal(x),
{
    if x >= 0 {
        u32_decimal(x as u32)
    } else {
        let m: u32 = if x == i32::MIN {
            0x8000_0000u32
        } else {
            (-x) as u32
        };
        assert(m as int == -(x as int));
        let digits = u32_decimal(m);
        let mut out = String::new();
        out.push('-');
        let mut i: usize = 0;
        let dv = str_chars(digits.as_str());
        while i < dv.len()
            invariant
                i <= dv@.len(),
                out@ == seq!['-'] + dv@.subrange(0, i as int),
            decreases dv@.len() - i,
        {
            out.push(dv[i]);
            i = i + 1;
            assert(out@ =~= seq!['-'] + dv@.subrange(0, i as int));
        }
        assert(out@ =~= seq!['-'] + dv@);
        out
    }
}

/// The lexicographic order on character sequences, by Unicode scalar value.
pub open spec fn lex_le(a: Seq<char>, b: Seq<char>) -> bool
    decreases a.len(),
{
    if a.len() == 0 {
        true
    } else if b.len() == 0 {
        false
    } else if a[0] == b[0] {
        lex_le(a.drop_first(), b.drop_first())
    } else {
        (a[0] as int) < (b[0] as int)
    }
}

/// The lexicographic order relates every pair of sequences.
pub proof fn lemma_lex_le_total(a: Seq<char>, b: Seq<char>)
    ensures
        lex_le(a, b) || lex_le(b, a),
    decreases a.len(),
{
    if a.len() == 0 || b.len() == 0 {
    } else if a[0] == b[0] {
        lemma_lex_le_total(a.drop_first(), b.drop_first());
    }
}

/// The lexicographic order is transitive.
pub proof fn lemma_lex_le_trans(a: Seq<char>, b: Seq<char>, c: Seq<char>)
    requires
        lex_le(a, b),
        lex_le(b, c),
    ensures
        lex_le(a, c),
    decreases a.len(),
{
    if a.len() == 0 {
    } else if b.len() == 0 {
    } else if c.len() == 0 {
    } else {
        if a[0] == b[0] && b[0] == c[0] {
            lemma_lex_le_trans(a.drop_first(), b.drop_first(), c.drop_first());
        }
    }
}

/// Compares two strings in the lexicographic order on their characters.
pub fn str_lex_le(a: &str, b: &str) -> (r: bool)
    ensures
        r == lex_le(a@, b@),
{
    let av = str_chars(a);
    let bv = str_chars(b);
    let mut i: usize = 0;
    proof {
        assert(av@.skip(0) =~= av@);
        assert(bv@.skip(0) =~= bv@);
    }
    loop
        invariant
            av@ == a@,
            bv@ == b@,
            i <= av@.len(),
            i <= bv@.len(),
            lex_le(a@, b@) == lex_le(av@.skip(i as int), bv@.skip(i as int)),
        decreases av@.len() - i,
    {
        if i >= av.len() {
            assert(av@.skip(i as int).len() == 0);
            return true;
        }
        if i >= bv.len() {
            assert(bv@.skip(i as int).len() == 0);
            assert(av@.skip(i as int).len() > 0);
            return false;
        }
        let ca = av[i];
        let cb = bv[i];
        assert(av@.skip(i as int)[0] == av@[i as int]);
        assert(bv@.skip(i as int)[0] == bv@[i as int]);
        if ca != cb {
            return ca < cb;
        }
        proof {
            assert(av@.skip(i as int).drop_first() =~= av@.skip(i as int + 1));
            assert(bv@.skip(i as int).drop_first() =~= bv@.skip(i as int + 1));
        }
        i = i + 1;
    }
}

} // verus!
