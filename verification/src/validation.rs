//! What a registration demands of an email, a phone number and a password.

use crate::text::{matches_at, to_chars};
use vstd::prelude::*;

verus! {

/// A character that the part of an email before the `@` may hold.
pub open spec fn is_local_char(c: char) -> bool {
    ('a' <= c && c <= 'z') || ('0' <= c && c <= '9') || c == '_' || c == '+' || c == '.'
}

/// A decimal digit.
pub open spec fn is_decimal_digit(c: char) -> bool {
    '0' <= c && c <= '9'
}

/// A character that may part the groups of a phone number.
pub open spec fn is_separator(c: char) -> bool {
    c == '-' || c == '.' || c == ' '
}

/// A character that counts as a symbol in a password.
pub open spec fn is_symbol(c: char) -> bool {
    c == '@' || c == '$' || c == '!' || c == '%' || c == '*' || c == '?' || c == '&'
}

/// An email of the institution: a name of lower-case letters, digits, `_`,
/// `+` and `.`, which neither begins nor ends with `.`, and then
/// `@aubg.edu`.
pub open spec fn is_institutional_email(s: Seq<char>) -> bool {
    let domain = "@aubg.edu"@;
    let n = s.len() - domain.len();
    &&& n >= 1
    &&& s.subrange(n, s.len() as int) == domain
    &&& forall|i: int| 0 <= i < n ==> is_local_char(#[trigger] s[i])
    &&& s[0] != '.'
    &&& s[n - 1] != '.'
}

/// `count` digits stand in `s` from position `from` on.
pub open spec fn digits_at(s: Seq<char>, from: int, count: int) -> bool {
    from + count <= s.len() && forall|i: int|
        from <= i < from + count ==> is_decimal_digit(#[trigger] s[i])
}

/// The position after a separator at `at`, or `at` itself where none stands
/// there.
pub open spec fn past_separator(s: Seq<char>, at: int) -> int {
    if 0 <= at < s.len() && is_separator(s[at]) {
        at + 1
    } else {
        at
    }
}

/// A phone number: an optional `+`, two digits, four digits and four digits,
/// where one `-`, `.` or blank may stand before each group of four.
pub open spec fn is_phone_number(s: Seq<char>) -> bool {
    let first: int = if s.len() > 0 && s[0] == '+' {
        1
    } else {
        0
    };
    let second = past_separator(s, first + 2);
    let third = past_separator(s, second + 4);
    &&& digits_at(s, first, 2)
    &&& digits_at(s, second, 4)
    &&& digits_at(s, third, 4)
    &&& third + 4 == s.len()
}

/// A password that is strong enough: at least eight characters, among them
/// a lower-case letter, an upper-case letter, a digit and one of the symbols
/// `@$!%*?&`.
pub open spec fn is_strong_password(s: Seq<char>) -> bool {
    &&& s.len() >= 8
    &&& exists|i: int| 0 <= i < s.len() && 'a' <= #[trigger] s[i] && s[i] <= 'z'
    &&& exists|i: int| 0 <= i < s.len() && 'A' <= #[trigger] s[i] && s[i] <= 'Z'
    &&& exists|i: int| 0 <= i < s.len() && is_decimal_digit(#[trigger] s[i])
    &&& exists|i: int| 0 <= i < s.len() && is_symbol(#[trigger] s[i])
}

fn local_char(c: char) -> (r: bool)
    ensures
        r == is_local_char(c),
{
    ('a' <= c && c <= 'z') || ('0' <= c && c <= '9') || c == '_' || c == '+' || c == '.'
}

fn decimal_digit(c: char) -> (r: bool)
    ensures
        r == is_decimal_digit(c),
{
    '0' <= c && c <= '9'
}

fn separator(c: char) -> (r: bool)
    ensures
        r == is_separator(c),
{
    c == '-' || c == '.' || c == ' '
}

fn symbol(c: char) -> (r: bool)
    ensures
        r == is_symbol(c),
{
    c == '@' || c == '$' || c == '!' || c == '%' || c == '*' || c == '?' || c == '&'
}

/// Whether a string is an email of the institution.
#[verifier::loop_isolation(false)]
pub fn valid_email(email: &str) -> (r: bool)
    ensures
        r == is_institutional_email(email@),
{
    let s = to_chars(email);
    let domain = to_chars("@aubg.edu");
    if s.len() <= domain.len() {
        return false;
    }
    let n: usize = s.len() - domain.len();
    if !matches_at(&s, &domain, n) {
        return false;
    }
    if s[0] == '.' || s[n - 1] == '.' {
        return false;
    }
    let mut i: usize = 0;
    while i < n
        invariant
            i <= n,
            n <= s.len(),
            forall|j: int| 0 <= j < i ==> is_local_char(#[trigger] s@[j]),
        decreases n - i,
    {
        if !local_char(s[i]) {
            return false;
        }
        i += 1;
    }
    true
}

/// Whether `count` digits stand in `s` from position `from` on.
fn has_digits_at(s: &Vec<char>, from: usize, count: usize) -> (r: bool)
    requires
        from + count <= usize::MAX,
    ensures
        r == digits_at(s@, from as int, count as int),
{
    if from + count > s.len() {
        return false;
    }
    let mut i: usize = from;
    while i < from + count
        invariant
            from <= i <= from + count,
            from + count <= s.len(),
            forall|j: int| from <= j < i ==> is_decimal_digit(#[trigger] s@[j]),
        decreases from + count - i,
    {
        if !decimal_digit(s[i]) {
            return false;
        }
        i += 1;
    }
    true
}

/// Whether a string is a phone number.
pub fn valid_phone(phone: &str) -> (r: bool)
    ensures
        r == is_phone_number(phone@),
{
    let s = to_chars(phone);
    if s.len() > 13 {
        return false;
    }
    let first: usize = if s.len() > 0 && s[0] == '+' {
        1
    } else {
        0
    };
    if !has_digits_at(&s, first, 2) {
        return false;
    }
    let mut second: usize = first + 2;
    if second < s.len() && separator(s[second]) {
        second += 1;
    }
    if !has_digits_at(&s, second, 4) {
        return false;
    }
    let mut third: usize = second + 4;
    if third < s.len() && separator(s[third]) {
        third += 1;
    }
    if !has_digits_at(&s, third, 4) {
        return false;
    }
    third + 4 == s.len()
}

/// Whether a password is strong enough.
pub fn strong_password(password: &str) -> (r: bool)
    ensures
        r == is_strong_password(password@),
{
    let s = to_chars(password);
    let mut lower = false;
    let mut upper = false;
    let mut digit = false;
    let mut sign = false;
    let mut i: usize = 0;
    while i < s.len()
        invariant
            i <= s.len(),
            lower == exists|j: int| 0 <= j < i && 'a' <= #[trigger] s@[j] && s@[j] <= 'z',
            upper == exists|j: int| 0 <= j < i && 'A' <= #[trigger] s@[j] && s@[j] <= 'Z',
            digit == exists|j: int| 0 <= j < i && is_decimal_digit(#[trigger] s@[j]),
            sign == exists|j: int| 0 <= j < i && is_symbol(#[trigger] s@[j]),
        decreases s.len() - i,
    {
        let c = s[i];
        if 'a' <= c && c <= 'z' {
            lower = true;
        }
        if 'A' <= c && c <= 'Z' {
            upper = true;
        }
        if decimal_digit(c) {
            digit = true;
        }
        if symbol(c) {
            sign = true;
        }
        i += 1;
    }
    s.len() >= 8 && lower && upper && digit && sign
}

} // verus!
