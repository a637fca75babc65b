//! Shape checks on version strings: `vD.DD.D[D]` for a semantic version and
//! `vD.DD` for a series, where `D` is an ASCII decimal digit.
use vstd::prelude::*;

verus! {

pub open spec fn is_digit(c: char) -> bool {
    '0' <= c && c <= '9'
}

/// `v`, one digit, `.`, two digits, `.`, one or two digits.
pub open spec fn semver_shape(s: Seq<char>) -> bool {
    (s.len() == 7 || s.len() == 8) && s[0] == 'v' && is_digit(s[1]) && s[2] == '.'
        && is_digit(s[3]) && is_digit(s[4]) && s[5] == '.' && is_digit(s[6]) && (s.len() == 8
        ==> is_digit(s[7]))
}

/// `v`, one digit, `.`, two digits.
pub open spec fn series_shape(s: Seq<char>) -> bool {
    s.len() == 5 && s[0] == 'v' && is_digit(s[1]) && s[2] == '.' && is_digit(s[3]) && is_digit(
        s[4],
    )
}

fn digit_char(c: char) -> (r: bool)
    ensures
        r == is_digit(c),
{
    '0' <= c && c <= '9'
}

/// Accepts exactly the strings of the shape `vD.DD.D` or `vD.DD.DD`.
pub fn is_semver(s: &str) -> (r: bool)
    ensures
        r == semver_shape(s@),
{
    let n = s.unicode_len();
    if n != 7 && n != 8 {
        return false;
    }
    let tail_ok = if n == 8 {
        digit_char(s.get_char(7))
    } else {
        true
    };
    s.get_char(0) == 'v' && digit_char(s.get_char(1)) && s.get_char(2) == '.' && digit_char(
        s.get_char(3),
    ) && digit_char(s.get_char(4)) && s.get_char(5) == '.' && digit_char(s.get_char(6)) && tail_ok
}

/// Accepts exactly the strings of the shape `vD.DD`.
pub fn is_series(s: &str) -> (r: bool)
    ensures
        r == series_shape(s@),
{
    let n = s.unicode_len();
    if n != 5 {
        return false;
    }
    s.get_char(0) == 'v' && digit_char(s.get_char(1)) && s.get_char(2) == '.' && digit_char(
        s.get_char(3),
    ) && digit_char(s.get_char(4))
}

/// Character-wise equality of two strings.
pub fn same_text(a: &str, b: &str) -> (r: bool)
    ensures
        r == (a@ == b@),
{
    let n = a.unicode_len();
    if n != b.unicode_len() {
        return false;
    }
    let mut i: usize = 0;
    while i < n
        invariant
            n == a@.len(),
            n == b@.len(),
            i <= n,
            a@.subrange(0, i as int) == b@.subrange(0, i as int),
        decreases n - i,
    {
        if a.get_char(i) != b.get_char(i) {
            return false;
        }
        assert(a@.subrange(0, i + 1) == a@.subrange(0, i as int).push(a@[i as int]));
        assert(b@.subrange(0, i + 1) == b@.subrange(0, i as int).push(b@[i as int]));
        i = i + 1;
    }
    assert(a@ == a@.subrange(0, n as int));
    assert(b@ == b@.subrange(0, n as int));
    true
}

} // verus!
