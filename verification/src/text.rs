//! Text: decimal numbers written and read, substrings, prefixes, and lower
//! case by the standard library.

use vstd::prelude::*;
use vstd::std_specs::iter::IteratorSpec;
use vstd::string::*;

verus! {

/// `needle` occurs in `hay` as a contiguous run of characters.
pub open spec fn is_substring(needle: Seq<char>, hay: Seq<char>) -> bool {
    exists|i: int|
        0 <= i && i + needle.len() <= hay.len() && #[trigger] hay.subrange(
            i,
            i + needle.len(),
        ) == needle
}

/// `s` begins with `prefix`.
pub open spec fn has_prefix(s: Seq<char>, prefix: Seq<char>) -> bool {
    prefix.len() <= s.len() && s.subrange(0, prefix.len() as int) == prefix
}

/// The character that stands for one decimal digit.
pub open spec fn digit_char(d: int) -> char {
    if d == 0 {
        '0'
    } else if d == 1 {
        '1'
    } else if d == 2 {
        '2'
    } else if d == 3 {
        '3'
    } else if d == 4 {
        '4'
    } else if d == 5 {
        '5'
    } else if d == 6 {
        '6'
    } else if d == 7 {
        '7'
    } else if d == 8 {
        '8'
    } else {
        '9'
    }
}

/// The decimal digits of a natural number, most significant first, with no
/// leading zero.
pub open spec fn digits(n: nat) -> Seq<char>
    decreases n,
{
    if n < 10 {
        seq![digit_char(n as int)]
    } else {
        digits(n / 10).push(digit_char((n % 10) as int))
    }
}

/// The decimal text of an integer: a minus sign for a negative one, then its
/// digits.
pub open spec fn decimal(n: int) -> Seq<char> {
    if n < 0 {
        seq!['-'] + digits((-n) as nat)
    } else {
        digits(n as nat)
    }
}

/// The empty text occurs in every text.
pub proof fn lemma_empty_is_substring(hay: Seq<char>)
    ensures
        is_substring(Seq::empty(), hay),
{
    let needle = Seq::<char>::empty();
    assert(hay.subrange(0int, 0int + needle.len()) =~= needle);
}

/// The characters of a string, in order.
pub fn to_chars(s: &str) -> (r: Vec<char>)
    ensures
        r@ == s@,
{
    broadcast use vstd::string::group_string_axioms;

    let mut out: Vec<char> = Vec::new();
    let mut it = s.chars();
    loop
        invariant
            out@ + it.remaining() == s@,
            it.decrease() is Some,
        decreases it.decrease()->0,
    {
        match it.next() {
            Some(c) => {
                out.push(c);
            },
            None => {
                return out;
            },
        }
    }
}

/// Whether two strings hold the same characters.
pub fn same_text(a: &str, b: &str) -> (r: bool)
    ensures
        r == (a@ == b@),
{
    let x = String::from_str(a);
    let y = String::from_str(b);
    x == y
}

/// Whether `hay` holds `needle` from position `at` on.
pub(crate) fn matches_at(hay: &Vec<char>, needle: &Vec<char>, at: usize) -> (r: bool)
    requires
        at + needle.len() <= hay.len(),
    ensures
        r == (hay@.subrange(at as int, at + needle.len()) == needle@),
{
    let mut k: usize = 0;
    while k < needle.len()
        invariant
            k <= needle.len(),
            at + needle.len() <= hay.len(),
            forall|j: int| 0 <= j < k ==> hay@[at + j] == needle@[j],
        decreases needle.len() - k,
    {
        if hay[at + k] != needle[k] {
            assert(hay@.subrange(at as int, at + needle.len())[k as int] != needle@[k as int]);
            return false;
        }
        k += 1;
    }
    assert(hay@.subrange(at as int, at + needle.len()) =~= needle@);
    true
}

/// Whether `s` begins with `prefix`.
pub fn starts_with(s: &str, prefix: &str) -> (r: bool)
    ensures
        r == has_prefix(s@, prefix@),
{
    let hay = to_chars(s);
    let head = to_chars(prefix);
    if head.len() > hay.len() {
        return false;
    }
    matches_at(&hay, &head, 0)
}

/// Whether `needle` occurs anywhere in `hay`. The empty string occurs in
/// every string.
pub fn contains(hay: &str, needle: &str) -> (r: bool)
    ensures
        r == is_substring(needle@, hay@),
{
    let h = to_chars(hay);
    let n = to_chars(needle);
    if n.len() > h.len() {
        return false;
    }
    let last: usize = h.len() - n.len();
    let mut i: usize = 0;
    loop
        invariant
            i <= last,
            last + n.len() == h.len(),
            h@ == hay@,
            n@ == needle@,
            forall|j: int| 0 <= j < i ==> #[trigger] h@.subrange(j, j + n.len()) != n@,
        decreases last - i,
    {
        if matches_at(&h, &n, i) {
            return true;
        }
        if i == last {
            return false;
        }
        i += 1;
    }
}

/// The one-character string for a decimal digit.
pub(crate) fn digit_str(d: u64) -> (r: &'static str)
    requires
        d < 10,
    ensures
        r@ == seq![digit_char(d as int)],
{
    proof {
        reveal_strlit("0");
        reveal_strlit("1");
        reveal_strlit("2");
        reveal_strlit("3");
        reveal_strlit("4");
        reveal_strlit("5");
        reveal_strlit("6");
        reveal_strlit("7");
        reveal_strlit("8");
        reveal_strlit("9");
    }
    let r = if d == 0 {
        "0"
    } else if d == 1 {
        "1"
    } else if d == 2 {
        "2"
    } else if d == 3 {
        "3"
    } else if d == 4 {
        "4"
    } else if d == 5 {
        "5"
    } else if d == 6 {
        "6"
    } else if d == 7 {
        "7"
    } else if d == 8 {
        "8"
    } else {
        "9"
    };
    assert(r@ =~= seq![digit_char(d as int)]);
    r
}

/// Appends the digits of `n` to `out`.
fn push_digits(out: &mut String, n: u64)
    ensures
        final(out)@ == old(out)@ + digits(n as nat),
    decreases n,
{
    if n >= 10 {
        push_digits(out, n / 10);
    }
    out.append(digit_str(n % 10));
    assert(out@ =~= old(out)@ + digits(n as nat));
}

/// The decimal text of `n`.
pub fn render_int(n: i64) -> (r: String)
    ensures
        r@ == decimal(n as int),
{
    let mut out = String::new();
    if n < 0 {
        proof {
            reveal_strlit("-");
        }
        out.append("-");
        let magnitude: u64 = if n == i64::MIN {
            9223372036854775808u64
        } else {
            (-n) as u64
        };
        push_digits(&mut out, magnitude);
        assert(out@ =~= decimal(n as int));
    } else {
        push_digits(&mut out, n as u64);
        assert(out@ =~= decimal(n as int));
    }
    out
}

/// The digit that a character stands for, where it is a decimal digit.
pub open spec fn digit_value(c: char) -> int {
    if c == '0' {
        0
    } else if c == '1' {
        1
    } else if c == '2' {
        2
    } else if c == '3' {
        3
    } else if c == '4' {
        4
    } else if c == '5' {
        5
    } else if c == '6' {
        6
    } else if c == '7' {
        7
    } else if c == '8' {
        8
    } else {
        9
    }
}

/// Every character is a decimal digit.
pub open spec fn all_digits(s: Seq<char>) -> bool {
    forall|i: int| 0 <= i < s.len() ==> '0' <= #[trigger] s[i] && s[i] <= '9'
}

/// The number that a run of decimal digits stands for.
pub open spec fn digits_value(s: Seq<char>) -> int
    decreases s.len(),
{
    if s.len() == 0 {
        0
    } else {
        digits_value(s.drop_last()) * 10 + digit_value(s.last())
    }
}

/// The characters after a sign, where the text begins with one.
pub open spec fn unsigned_part(s: Seq<char>) -> Seq<char> {
    if s.len() > 0 && (s[0] == '-' || s[0] == '+') {
        s.skip(1)
    } else {
        s
    }
}

/// The integer that a text stands for: an optional `+` or `-`, then one or
/// more decimal digits, and a value that a 32-bit integer holds. `None` for
/// every other text.
pub open spec fn parsed_int(s: Seq<char>) -> Option<int> {
    let body = unsigned_part(s);
    let value = if s.len() > 0 && s[0] == '-' {
        -digits_value(body)
    } else {
        digits_value(body)
    };
    if body.len() > 0 && all_digits(body) && i32::MIN <= value <= i32::MAX {
        Some(value)
    } else {
        None
    }
}

/// The truth value that a text stands for: `true` or `false`, and nothing
/// else.
pub open spec fn parsed_flag(s: Seq<char>) -> Option<bool> {
    if s == "true"@ {
        Some(true)
    } else if s == "false"@ {
        Some(false)
    } else {
        None
    }
}

/// A run of digits stands for no less than any run that it begins with.
pub proof fn lemma_digits_value_grows(s: Seq<char>, k: int)
    requires
        0 <= k <= s.len(),
    ensures
        0 <= digits_value(s.take(k)) <= digits_value(s),
    decreases s.len() - k,
{
    lemma_digits_value_positive(s.take(k));
    if k < s.len() {
        lemma_digits_value_grows(s, k + 1);
        assert(s.take(k + 1).drop_last() =~= s.take(k));
    } else {
        assert(s.take(k) =~= s);
    }
}

/// A run of digits stands for no negative number.
pub proof fn lemma_digits_value_positive(s: Seq<char>)
    ensures
        0 <= digits_value(s),
    decreases s.len(),
{
    if s.len() > 0 {
        lemma_digits_value_positive(s.drop_last());
    }
}

/// The integer that a text stands for, as `parsed_int` says.
#[verifier::loop_isolation(false)]
pub fn parse_int(text: &str) -> (r: Option<i32>)
    ensures
        match parsed_int(text@) {
            Some(n) => r == Some(n as i32),
            None => r is None,
        },
{
    let s = to_chars(text);
    let negative = s.len() > 0 && s[0] == '-';
    let start: usize = if s.len() > 0 && (s[0] == '-' || s[0] == '+') {
        1
    } else {
        0
    };
    if start == s.len() {
        return None;
    }
    let ghost body = unsigned_part(s@);
    assert(body =~= s@.skip(start as int));
    let mut value: i64 = 0;
    let mut i: usize = start;
    while i < s.len()
        invariant
            start <= i <= s.len(),
            body == s@.skip(start as int),
            all_digits(body.take(i - start)),
            value == digits_value(body.take(i - start)),
            0 <= value <= 0x8000_0000,
        decreases s.len() - i,
    {
        let c = s[i];
        assert(body[i - start] == c);
        assert(body.take(i - start + 1).drop_last() =~= body.take(i - start));
        if !('0' <= c && c <= '9') {
            assert(!all_digits(body));
            return None;
        }
        assert(all_digits(body.take(i - start + 1)));
        let d: i64 = if c == '0' {
            0
        } else if c == '1' {
            1
        } else if c == '2' {
            2
        } else if c == '3' {
            3
        } else if c == '4' {
            4
        } else if c == '5' {
            5
        } else if c == '6' {
            6
        } else if c == '7' {
            7
        } else if c == '8' {
            8
        } else {
            9
        };
        value = value * 10 + d;
        if value > 0x8000_0000 {
            proof {
                lemma_digits_value_grows(body, i - start + 1);
            }
            return None;
        }
        i += 1;
    }
    assert(body.take(i - start) =~= body);
    if negative {
        Some((-value) as i32)
    } else if value > 0x7fff_ffff {
        None
    } else {
        Some(value as i32)
    }
}

/// The truth value that a text stands for, as `parsed_flag` says.
pub fn parse_flag(text: &str) -> (r: Option<bool>)
    ensures
        r == parsed_flag(text@),
{
    if same_text(text, "true") {
        Some(true)
    } else if same_text(text, "false") {
        Some(false)
    } else {
        None
    }
}

/// What `str::to_lowercase` returns for a string with these characters.
pub uninterp spec fn lowercase(s: Seq<char>) -> Seq<char>;

/// The lowercase form of a string, by `str::to_lowercase` of the standard
/// library: lowercase as Unicode defines it, which may change the number of
/// characters. The contract only names the result.
#[verifier::external_body]
pub(crate) fn to_lowercase(s: &str) -> (r: String)
    ensures
        r@ == lowercase(s@),
{
    s.to_lowercase()
}

} // verus!
