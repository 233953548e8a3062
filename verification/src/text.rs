//! Text helpers shared by the panels: `str::trim` on typed input.

use vstd::prelude::*;

verus! {

/// Unicode `White_Space` characters, the set `char::is_whitespace` and
/// `str::trim` use.
pub open spec fn is_white_space(c: char) -> bool {
    let u = c as u32;
    (0x09 <= u <= 0x0D) || u == 0x20 || u == 0x85 || u == 0xA0 || u == 0x1680 || (0x2000 <= u
        <= 0x200A) || u == 0x2028 || u == 0x2029 || u == 0x202F || u == 0x205F || u == 0x3000
}

/// Whether `c` is a Unicode white-space character.
pub fn is_white_space_char(c: char) -> (b: bool)
    ensures
        b == is_white_space(c),
{
    let u = c as u32;
    (0x09 <= u && u <= 0x0D) || u == 0x20 || u == 0x85 || u == 0xA0 || u == 0x1680 || (0x2000 <= u
        && u <= 0x200A) || u == 0x2028 || u == 0x2029 || u == 0x202F || u == 0x205F || u == 0x3000
}

/// Index of the first character at or after `i` that is not white space
/// (the length if there is none).
pub open spec fn lead_from(s: Seq<char>, i: int) -> int
    decreases s.len() - i,
{
    if i >= s.len() {
        s.len() as int
    } else if is_white_space(s[i]) {
        lead_from(s, i + 1)
    } else {
        i
    }
}

/// End of `s[a..j]` once trailing white space is dropped.
pub open spec fn trail_from(s: Seq<char>, a: int, j: int) -> int
    decreases j - a,
{
    if j <= a {
        a
    } else if is_white_space(s[j - 1]) {
        trail_from(s, a, j - 1)
    } else {
        j
    }
}

/// `s` without its leading and trailing white space, as `str::trim` gives it.
pub open spec fn spec_trim(s: Seq<char>) -> Seq<char> {
    let a = lead_from(s, 0);
    s.subrange(a, trail_from(s, a, s.len() as int))
}

/// Bounds of `input.trim()` within `input`, in characters.
pub fn trim_range(input: &str) -> (r: (usize, usize))
    ensures
        r.0 <= r.1 <= input@.len(),
        r.0 == lead_from(input@, 0),
        r.1 == trail_from(input@, r.0 as int, input@.len() as int),
        input@.subrange(r.0 as int, r.1 as int) == spec_trim(input@),
{
    let ghost s = input@;
    let n = input.unicode_len();
    let mut a: usize = 0;
    while a < n && is_white_space_char(input.get_char(a))
        invariant
            s == input@,
            n == s.len(),
            a <= n,
            lead_from(s, 0) == lead_from(s, a as int),
        decreases n - a,
    {
        a = a + 1;
    }
    let mut b: usize = n;
    while b > a && is_white_space_char(input.get_char(b - 1))
        invariant
            s == input@,
            n == s.len(),
            a <= b <= n,
            lead_from(s, 0) == a,
            trail_from(s, a as int, n as int) == trail_from(s, a as int, b as int),
        decreases b,
    {
        b = b - 1;
    }
    (a, b)
}

/// `input.trim()` as a new string.
pub fn trimmed(input: &str) -> (t: String)
    ensures
        t@ == spec_trim(input@),
{
    let (a, b) = trim_range(input);
    String::from_str(input.substring_char(a, b))
}

} // verus!
