//! String building: decimal formatting, char pushes and the config-value
//! parsing that the plugin's settings go through.

use vstd::prelude::*;
use vstd::string::StringExecFns;

verus! {

/// Appends `c` to `s` (`String::push`).
#[verifier::external_body]
pub fn push_char(s: &mut String, c: char)
    ensures
        final(s)@ == old(s)@.push(c),
{
    s.push(c);
}

/// Appends `t` to `s`.
pub fn push_str(s: &mut String, t: &str)
    ensures
        final(s)@ == old(s)@ + t@,
{
    s.append(t);
}

/// Whether two string slices hold the same characters.
pub fn str_eq(a: &str, b: &str) -> (r: bool)
    ensures
        r == (a@ == b@),
{
    a.to_owned().eq(&b.to_owned())
}

/// The character of the decimal digit `d`.
pub open spec fn digit_char(d: int) -> char {
    (d + 48) as char
}

/// The decimal digits of `n`, most significant first, without leading zeros.
pub open spec fn dec_digits(n: nat) -> Seq<char>
    decreases n,
{
    if n < 10 {
        seq![digit_char(n as int)]
    } else {
        dec_digits(n / 10).push(digit_char((n % 10) as int))
    }
}

/// How `i64`'s `Display` writes `n`: a minus sign for a negative value, then
/// the digits of its magnitude.
pub open spec fn i64_text(n: i64) -> Seq<char> {
    if n < 0 {
        seq!['-'] + dec_digits((-n) as nat)
    } else {
        dec_digits(n as nat)
    }
}

fn digit(d: u64) -> (c: char)
    requires
        d < 10,
    ensures
        c == digit_char(d as int),
{
    let b: u8 = d as u8 + 48;
    b as char
}

/// Appends the decimal digits of `n` to `s`.
pub fn push_u64(s: &mut String, n: u64)
    ensures
        final(s)@ == old(s)@ + dec_digits(n as nat),
    decreases n,
{
    if n >= 10 {
        push_u64(s, n / 10);
    }
    let c = digit(n % 10);
    push_char(s, c);
}

/// Appends the decimal digits of `n` to `s`.
pub fn push_u128(s: &mut String, n: u128)
    ensures
        final(s)@ == old(s)@ + dec_digits(n as nat),
    decreases n,
{
    if n >= 10 {
        push_u128(s, n / 10);
    }
    let d: u64 = (n % 10) as u64;
    let c = digit(d);
    push_char(s, c);
}

/// Appends `n` as `i64`'s `Display` writes it.
pub fn push_i64(s: &mut String, n: i64)
    ensures
        final(s)@ == old(s)@ + i64_text(n),
{
    if n < 0 {
        push_char(s, '-');
        let m: i128 = 0 - (n as i128);
        push_u64(s, m as u64);
        assert(old(s)@.push('-') + dec_digits((-n) as nat) =~= old(s)@ + (seq!['-'] + dec_digits((-n) as nat)));
    } else {
        push_u64(s, n as u64);
    }
}

/// `n` as `i64`'s `Display` writes it.
pub fn i64_to_string(n: i64) -> (r: String)
    ensures
        r@ == i64_text(n),
{
    let mut s = String::new();
    push_i64(&mut s, n);
    assert(Seq::<char>::empty() + i64_text(n) =~= i64_text(n));
    s
}

} // verus!
