//! Parser for one line of `git blame -w -f` output.
//!
//! The grammar read here, position by position:
//! eight hash characters (ASCII hex digits or `^`), one whitespace character,
//! a filename token (no whitespace, no `(`), optional whitespace, `(`, the
//! author token (at least one character), whitespace, a date `DDDD-DD-DD`,
//! whitespace, a time `DD:DD:DD`, whitespace, an offset `+DDDD` or `-DDDD`,
//! whitespace, a line number of one or more digits, `)`, one space, and the
//! source line's content up to the end. Digits are ASCII digits. The author
//! token ends at the first position from which the rest of the line has this
//! shape.
use crate::text::{chars_of, is_whitespace, is_ws, trim, trim_string};
use vstd::prelude::*;

verus! {

pub open spec fn is_hash_char(c: char) -> bool {
    c == '^' || ('0' <= c && c <= '9') || ('a' <= c && c <= 'f') || ('A' <= c && c <= 'F')
}

pub open spec fn is_digit(c: char) -> bool {
    '0' <= c && c <= '9'
}

/// The first index from `i` on that holds no whitespace (or the length).
pub open spec fn skip_ws(s: Seq<char>, i: int) -> int
    decreases s.len() - i,
{
    if 0 <= i < s.len() && is_ws(s[i]) {
        skip_ws(s, i + 1)
    } else {
        i
    }
}

/// The first index from `i` on that holds no digit (or the length).
pub open spec fn skip_digits(s: Seq<char>, i: int) -> int
    decreases s.len() - i,
{
    if 0 <= i < s.len() && is_digit(s[i]) {
        skip_digits(s, i + 1)
    } else {
        i
    }
}

/// The first index from `i` on that holds whitespace or `(` (or the length).
pub open spec fn skip_name(s: Seq<char>, i: int) -> int
    decreases s.len() - i,
{
    if 0 <= i < s.len() && !is_ws(s[i]) && s[i] != '(' {
        skip_name(s, i + 1)
    } else {
        i
    }
}

/// `n` ASCII digits stand at `i..i + n`.
pub open spec fn digits_at(s: Seq<char>, i: int, n: int) -> bool {
    0 <= i && i + n <= s.len() && forall|k: int| i <= k < i + n ==> #[trigger] is_digit(s[k])
}

pub open spec fn date_at(s: Seq<char>, i: int) -> bool {
    digits_at(s, i, 4) && i + 10 <= s.len() && s[i + 4] == '-' && digits_at(s, i + 5, 2)
        && s[i + 7] == '-' && digits_at(s, i + 8, 2)
}

pub open spec fn time_at(s: Seq<char>, i: int) -> bool {
    digits_at(s, i, 2) && i + 8 <= s.len() && s[i + 2] == ':' && digits_at(s, i + 3, 2)
        && s[i + 5] == ':' && digits_at(s, i + 6, 2)
}

pub open spec fn offset_at(s: Seq<char>, i: int) -> bool {
    0 <= i < s.len() && (s[i] == '+' || s[i] == '-') && digits_at(s, i + 1, 4)
}

/// Where the content starts, when the rest of the line from `p` on reads
/// whitespace, date, time, offset, line number, `)` and one space.
pub open spec fn tail_at(s: Seq<char>, p: int) -> Option<int> {
    let q = skip_ws(s, p);
    let r = skip_ws(s, q + 10);
    let t = skip_ws(s, r + 8);
    let u = skip_ws(s, t + 5);
    let n = skip_digits(s, u);
    if q > p && date_at(s, q) && r > q + 10 && time_at(s, r) && t > r + 8 && offset_at(s, t)
        && u > t + 5 && n > u && n + 2 <= s.len() && s[n] == ')' && s[n + 1] == ' ' {
        Some(n + 2)
    } else {
        None
    }
}

/// The first `p` from `i` on (below the length) at which `tail_at` holds,
/// with the content start found there.
pub open spec fn first_tail(s: Seq<char>, i: int) -> Option<(int, int)>
    decreases s.len() - i,
{
    if i < 0 || i >= s.len() {
        None
    } else if tail_at(s, i) is Some {
        Some((i, tail_at(s, i)->0))
    } else {
        first_tail(s, i + 1)
    }
}

/// Where the author token starts: just after the `(` that follows hash and
/// filename.
pub open spec fn author_start(s: Seq<char>) -> Option<int> {
    let g = skip_ws(s, skip_name(s, 9));
    if s.len() >= 9 && (forall|k: int| 0 <= k < 8 ==> #[trigger] is_hash_char(s[k])) && is_ws(s[8])
        && g < s.len() && s[g] == '(' {
        Some(g + 1)
    } else {
        None
    }
}

/// The raw author token and the content of a well-formed line.
pub open spec fn blame_parts(s: Seq<char>) -> Option<(Seq<char>, Seq<char>)> {
    match author_start(s) {
        Some(a) => match first_tail(s, a + 1) {
            Some((p, c)) => Some((s.subrange(a, p), s.subrange(c, s.len() as int))),
            None => None,
        },
        None => None,
    }
}

/// The author token, trimmed, and the content of a well-formed line.
pub open spec fn blame_fields(s: Seq<char>) -> Option<(Seq<char>, Seq<char>)> {
    match blame_parts(s) {
        Some((a, c)) => Some((trim(a), c)),
        None => None,
    }
}

/// Whether the line counts, and for whom: the trimmed author of a well-formed
/// line whose content is not blank.
pub open spec fn counted_author(s: Seq<char>) -> Option<Seq<char>> {
    match blame_fields(s) {
        Some((a, c)) => if trim(c).len() > 0 {
            Some(a)
        } else {
            None
        },
        None => None,
    }
}

fn hash_char(c: char) -> (r: bool)
    ensures
        r == is_hash_char(c),
{
    c == '^' || ('0' <= c && c <= '9') || ('a' <= c && c <= 'f') || ('A' <= c && c <= 'F')
}

fn digit(c: char) -> (r: bool)
    ensures
        r == is_digit(c),
{
    '0' <= c && c <= '9'
}

fn skip_ws_exec(v: &Vec<char>, i: usize) -> (r: usize)
    requires
        i <= v@.len(),
    ensures
        r == skip_ws(v@, i as int),
        i <= r <= v@.len(),
{
    let mut j = i;
    while j < v.len() && is_whitespace(v[j])
        invariant
            i <= j <= v@.len(),
            skip_ws(v@, i as int) == skip_ws(v@, j as int),
        decreases v@.len() - j,
    {
        j = j + 1;
    }
    j
}

fn skip_digits_exec(v: &Vec<char>, i: usize) -> (r: usize)
    requires
        i <= v@.len(),
    ensures
        r == skip_digits(v@, i as int),
        i <= r <= v@.len(),
{
    let mut j = i;
    while j < v.len() && digit(v[j])
        invariant
            i <= j <= v@.len(),
            skip_digits(v@, i as int) == skip_digits(v@, j as int),
        decreases v@.len() - j,
    {
        j = j + 1;
    }
    j
}

fn skip_name_exec(v: &Vec<char>, i: usize) -> (r: usize)
    requires
        i <= v@.len(),
    ensures
        r == skip_name(v@, i as int),
        i <= r <= v@.len(),
{
    let mut j = i;
    while j < v.len() && !is_whitespace(v[j]) && v[j] != '('
        invariant
            i <= j <= v@.len(),
            skip_name(v@, i as int) == skip_name(v@, j as int),
        decreases v@.len() - j,
    {
        j = j + 1;
    }
    j
}

fn digits_at_exec(v: &Vec<char>, i: usize, n: usize) -> (r: bool)
    ensures
        r == digits_at(v@, i as int, n as int),
{
    if i > v.len() || n > v.len() - i {
        return false;
    }
    let mut k: usize = 0;
    while k < n
        invariant
            i + n <= v@.len(),
            v@.len() <= usize::MAX,
            k <= n,
            forall|m: int| i <= m < i + k ==> #[trigger] is_digit(v@[m]),
        decreases n - k,
    {
        if !digit(v[i + k]) {
            return false;
        }
        k = k + 1;
    }
    true
}

fn tail_at_exec(v: &Vec<char>, p: usize) -> (r: Option<usize>)
    requires
        p <= v@.len(),
    ensures
        r matches Some(c) ==> tail_at(v@, p as int) == Some(c as int) && c <= v@.len(),
        r is None ==> tail_at(v@, p as int) is None,
{
    let len = v.len();
    let q = skip_ws_exec(v, p);
    if !(q > p && len - q >= 10) {
        return None;
    }
    if !(digits_at_exec(v, q, 4) && v[q + 4] == '-' && digits_at_exec(v, q + 5, 2) && v[q + 7]
        == '-' && digits_at_exec(v, q + 8, 2)) {
        return None;
    }
    let r = skip_ws_exec(v, q + 10);
    if !(r > q + 10 && len - r >= 8) {
        return None;
    }
    if !(digits_at_exec(v, r, 2) && v[r + 2] == ':' && digits_at_exec(v, r + 3, 2) && v[r + 5]
        == ':' && digits_at_exec(v, r + 6, 2)) {
        return None;
    }
    let t = skip_ws_exec(v, r + 8);
    if !(t > r + 8 && t < len && (v[t] == '+' || v[t] == '-') && digits_at_exec(v, t + 1, 4)) {
        return None;
    }
    let u = skip_ws_exec(v, t + 5);
    if !(u > t + 5) {
        return None;
    }
    let n = skip_digits_exec(v, u);
    if !(n > u && len - n >= 2 && v[n] == ')' && v[n + 1] == ' ') {
        return None;
    }
    Some(n + 2)
}

/// The author token, trimmed, and the content of one attribution line, or
/// `None` where the line does not have the shape described above.
pub fn parse_blame_line(line: &str) -> (r: Option<(String, String)>)
    ensures
        r is Some <==> blame_fields(line@) is Some,
        r matches Some((a, c)) ==> blame_fields(line@) == Some((a@, c@)),
{
    let v = chars_of(line);
    let len = v.len();
    if len < 9 {
        return None;
    }
    let mut k: usize = 0;
    while k < 8
        invariant
            len == v@.len(),
            v@ == line@,
            len >= 9,
            k <= 8,
            forall|m: int| 0 <= m < k ==> #[trigger] is_hash_char(v@[m]),
        decreases 8 - k,
    {
        if !hash_char(v[k]) {
            assert(!is_hash_char(v@[k as int]));
            return None;
        }
        k = k + 1;
    }
    if !is_whitespace(v[8]) {
        return None;
    }
    let g = skip_ws_exec(&v, skip_name_exec(&v, 9));
    if !(g < len && v[g] == '(') {
        return None;
    }
    let a = g + 1;
    if a >= len {
        return None;
    }
    let mut p = a + 1;
    while p < len
        invariant
            len == v@.len(),
            v@ == line@,
            a < p <= len,
            author_start(v@) == Some(a as int),
            first_tail(v@, a + 1) == first_tail(v@, p as int),
        decreases len - p,
    {
        match tail_at_exec(&v, p) {
            Some(c) => {
                let author_v = line.substring_char(a, p);
                let author = trim_string(author_v);
                let content = String::from_str(line.substring_char(c, len));
                return Some((author, content));
            },
            None => {},
        }
        p = p + 1;
    }
    None
}

} // verus!
