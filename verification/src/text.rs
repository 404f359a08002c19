//! Character-level building blocks for the XML writers: decimal and
//! hexadecimal number formatting and string appends.

use vstd::prelude::*;
use vstd::string::*;
use vstd::utf8::encode_utf8;

verus! {

/// The ASCII digit for `d` (for `d < 10`).
pub open spec fn digit_char(d: nat) -> char {
    if d == 0 { '0' }
    else if d == 1 { '1' }
    else if d == 2 { '2' }
    else if d == 3 { '3' }
    else if d == 4 { '4' }
    else if d == 5 { '5' }
    else if d == 6 { '6' }
    else if d == 7 { '7' }
    else if d == 8 { '8' }
    else { '9' }
}

/// Decimal notation of a natural number, most significant digit first,
/// without leading zeros.
pub open spec fn dec_nat(n: nat) -> Seq<char>
    decreases n,
{
    if n < 10 {
        seq![digit_char(n)]
    } else {
        dec_nat(n / 10).push(digit_char(n % 10))
    }
}

/// Decimal notation of an integer: a minus sign before negative numbers.
pub open spec fn dec_int(n: int) -> Seq<char> {
    if n < 0 {
        seq!['-'] + dec_nat((-n) as nat)
    } else {
        dec_nat(n as nat)
    }
}

/// Appends one character (std's `String::push`).
#[verifier::external_body]
pub(crate) fn push_char(s: &mut String, c: char)
    ensures
        final(s)@ == old(s)@.push(c),
{
    s.push(c);
}

/// Regrouping of three concatenated character sequences.
pub proof fn lemma_concat3(a: Seq<char>, b: Seq<char>, c: Seq<char>)
    ensures
        a + b + c == a + (b + c),
{
    assert(a + b + c =~= a + (b + c));
}

/// A new string holding `t`.
pub fn string_of(t: &str) -> (s: String)
    ensures
        s@ == t@,
{
    String::from_str(t)
}

/// Appends a string slice.
pub fn push_str(s: &mut String, t: &str)
    ensures
        final(s)@ == old(s)@ + t@,
{
    s.append(t);
}

fn digit(d: u64) -> (c: char)
    requires
        d < 10,
    ensures
        c == digit_char(d as nat),
{
    match d {
        0 => '0',
        1 => '1',
        2 => '2',
        3 => '3',
        4 => '4',
        5 => '5',
        6 => '6',
        7 => '7',
        8 => '8',
        _ => '9',
    }
}

/// Appends the decimal notation of `n`.
pub fn push_u64(out: &mut String, n: u64)
    ensures
        final(out)@ == old(out)@ + dec_nat(n as nat),
    decreases n,
{
    if n >= 10 {
        push_u64(out, n / 10);
        let ghost mid = out@;
        push_char(out, digit(n % 10));
        assert(out@ =~= old(out)@ + dec_nat(n as nat));
    } else {
        push_char(out, digit(n));
        assert(out@ =~= old(out)@ + dec_nat(n as nat));
    }
}

/// Appends the decimal notation of `n`, with a minus sign when negative.
pub fn push_i64(out: &mut String, n: i64)
    ensures
        final(out)@ == old(out)@ + dec_int(n as int),
{
    if n < 0 {
        push_char(out, '-');
        let m: u64 = if n == i64::MIN { 9223372036854775808u64 } else { (-n) as u64 };
        push_u64(out, m);
        assert(out@ =~= old(out)@ + dec_int(n as int));
    } else {
        push_u64(out, n as u64);
    }
}


/// The UTF-8 bytes of a string.
pub fn string_into_bytes(s: String) -> (b: Vec<u8>)
    ensures
        b@ == encode_utf8(s@),
{
    let bytes = s.as_str().as_bytes();
    vstd::slice::slice_to_vec(bytes)
}


/// Decimal notation is made of ASCII digits; it has one digit exactly for
/// numbers below ten.
pub proof fn lemma_dec_nat_digits(n: nat)
    ensures
        dec_nat(n).len() >= 1,
        n < 10 <==> dec_nat(n).len() == 1,
        forall|k: int| 0 <= k < dec_nat(n).len() ==> '0' <= #[trigger] dec_nat(n)[k] <= '9',
    decreases n,
{
    if n >= 10 {
        lemma_dec_nat_digits(n / 10);
    }
}

/// Distinct numbers have distinct decimal notations.
pub proof fn lemma_dec_nat_injective(a: nat, b: nat)
    requires
        dec_nat(a) == dec_nat(b),
    ensures
        a == b,
    decreases a,
{
    lemma_dec_nat_digits(a);
    lemma_dec_nat_digits(b);
    if a >= 10 && b >= 10 {
        assert(dec_nat(a / 10) == dec_nat(a).drop_last());
        assert(dec_nat(b / 10) == dec_nat(b).drop_last());
        lemma_dec_nat_injective(a / 10, b / 10);
        assert(dec_nat(a).last() == digit_char(a % 10));
        assert(dec_nat(b).last() == digit_char(b % 10));
        lemma_digit_char_injective(a % 10, b % 10);
    } else if a < 10 && b < 10 {
        assert(dec_nat(a)[0] == digit_char(a));
        assert(dec_nat(b)[0] == digit_char(b));
        lemma_digit_char_injective(a, b);
    }
}

proof fn lemma_digit_char_injective(x: nat, y: nat)
    requires
        x < 10,
        y < 10,
        digit_char(x) == digit_char(y),
    ensures
        x == y,
{
}


/// `t` occurs in `s` as a contiguous piece.
pub open spec fn contains_text(s: Seq<char>, t: Seq<char>) -> bool {
    exists|i: int| 0 <= i && i + t.len() <= s.len() && #[trigger] s.subrange(i, i + t.len()) == t
}

/// A piece occurs in a text that is built around it.
pub proof fn lemma_contains_mid(a: Seq<char>, t: Seq<char>, b: Seq<char>)
    ensures
        contains_text(a + t + b, t),
{
    let s = a + t + b;
    assert(s.subrange(a.len() as int, (a.len() + t.len()) as int) =~= t);
}

/// What occurs in a text still occurs once more is put around it.
pub proof fn lemma_contains_extend(s: Seq<char>, t: Seq<char>, a: Seq<char>, b: Seq<char>)
    requires
        contains_text(s, t),
    ensures
        contains_text(a + s + b, t),
{
    let i = choose|i: int| 0 <= i && i + t.len() <= s.len() && #[trigger] s.subrange(i, i + t.len()) == t;
    let u = a + s + b;
    assert(u.subrange(a.len() + i, a.len() + i + t.len()) =~= s.subrange(i, i + t.len()));
}

/// What occurs in a text still occurs once more is appended to it.
pub proof fn lemma_contains_append(s: Seq<char>, t: Seq<char>, y: Seq<char>)
    requires
        contains_text(s, t),
    ensures
        contains_text(s + y, t),
{
    lemma_contains_extend(s, t, Seq::empty(), y);
    assert(Seq::<char>::empty() + s + y =~= s + y);
}

/// The last piece of a text built piece by piece occurs in it.
pub proof fn lemma_contains_last(a: Seq<char>, p: Seq<char>)
    ensures
        contains_text(a + p, p),
{
    lemma_contains_mid(a, p, Seq::empty());
    lemma_empty_right(a + p);
}

proof fn lemma_empty_right(s: Seq<char>)
    ensures
        s + Seq::<char>::empty() == s,
{
    assert(s + Seq::<char>::empty() =~= s);
}

/// The last five pieces of a text built piece by piece occur in it, in
/// order.
pub proof fn lemma_contains_last5(a: Seq<char>, p: Seq<char>, q: Seq<char>, r: Seq<char>, u: Seq<char>, v: Seq<char>)
    ensures
        contains_text(a + p + q + r + u + v, p + q + r + u + v),
{
    lemma_contains_last(a, p + q + r + u + v);
    lemma_concat3(a, p + q + r + u, v);
    lemma_concat3(a, p + q + r, u);
    lemma_concat3(a, p + q, r);
    lemma_concat3(a, p, q);
}

/// The last three pieces of a text built piece by piece occur in it, in
/// order.
pub proof fn lemma_contains_last3(a: Seq<char>, p: Seq<char>, q: Seq<char>, r: Seq<char>)
    ensures
        contains_text(a + p + q + r, p + q + r),
{
    lemma_contains_last(a, p + q + r);
    lemma_concat3(a, p + q, r);
    lemma_concat3(a, p, q);
}
} // verus!
