//! Character-level text utilities: whitespace trimming, line splitting,
//! prefix matching, and conversions between `str`, `Vec<char>` and
//! `String`.

use vstd::prelude::*;

verus! {

/// Whitespace as this library trims it: the characters with Unicode's
/// `White_Space` property — the ASCII whitespace characters plus the
/// next line, no-break space, ogham space mark, the en-quad to
/// hair-space range, the line and paragraph separators, the narrow
/// no-break space, the medium mathematical space and the ideographic
/// space.
pub open spec fn is_ws(c: char) -> bool {
    c == ' ' || (9 <= c as u32 && c as u32 <= 13) || c as u32 == 0x85 || c as u32 == 0xA0
        || c as u32 == 0x1680 || (0x2000 <= c as u32 && c as u32 <= 0x200A) || c as u32 == 0x2028
        || c as u32 == 0x2029 || c as u32 == 0x202F || c as u32 == 0x205F || c as u32 == 0x3000
}

/// Executable test for [`is_ws`].
pub fn is_ws_char(c: char) -> (b: bool)
    ensures
        b == is_ws(c),
{
    let u = c as u32;
    u == 0x20 || (9 <= u && u <= 13) || u == 0x85 || u == 0xA0 || u == 0x1680 || (0x2000 <= u && u
        <= 0x200A) || u == 0x2028 || u == 0x2029 || u == 0x202F || u == 0x205F || u == 0x3000
}

/// `s` with its leading whitespace removed.
pub open spec fn trim_start_spec(s: Seq<char>) -> Seq<char>
    decreases s.len(),
{
    if s.len() > 0 && is_ws(s[0]) {
        trim_start_spec(s.skip(1))
    } else {
        s
    }
}

/// `s` with its trailing whitespace removed.
pub open spec fn trim_end_spec(s: Seq<char>) -> Seq<char>
    decreases s.len(),
{
    if s.len() > 0 && is_ws(s[s.len() - 1]) {
        trim_end_spec(s.take(s.len() - 1))
    } else {
        s
    }
}

/// `s` with whitespace removed from both ends.
pub open spec fn trim_spec(s: Seq<char>) -> Seq<char> {
    trim_end_spec(trim_start_spec(s))
}

/// True when `s` begins with `p`.
pub open spec fn starts_with(s: Seq<char>, p: Seq<char>) -> bool {
    s.len() >= p.len() && s.take(p.len() as int) == p
}

/// A line with one trailing carriage return removed, as line splitting
/// does for lines that ended in `\r\n`.
pub open spec fn strip_cr(l: Seq<char>) -> Seq<char> {
    if l.len() > 0 && l[l.len() - 1] == '\r' {
        l.take(l.len() - 1)
    } else {
        l
    }
}

/// The lines of `s` when `cur` holds the characters of the line read so
/// far: lines end at `\n` (a preceding `\r` is dropped), and a final
/// line without a terminator is kept unless it is empty.
pub open spec fn lines_from(s: Seq<char>, cur: Seq<char>) -> Seq<Seq<char>>
    decreases s.len(),
{
    if s.len() == 0 {
        if cur.len() == 0 {
            Seq::<Seq<char>>::empty()
        } else {
            seq![cur]
        }
    } else if s[0] == '\n' {
        seq![strip_cr(cur)] + lines_from(s.skip(1), Seq::<char>::empty())
    } else {
        lines_from(s.skip(1), cur.push(s[0]))
    }
}

/// The lines of `s`.
pub open spec fn lines_spec(s: Seq<char>) -> Seq<Seq<char>> {
    lines_from(s, Seq::<char>::empty())
}

/// The characters of `s`, as a vector.
pub fn str_chars(s: &str) -> (v: Vec<char>)
    ensures
        v@ == s@,
{
    let n = s.unicode_len();
    let mut v: Vec<char> = Vec::new();
    let mut i: usize = 0;
    while i < n
        invariant
            n == s@.len(),
            i <= n,
            v@ == s@.take(i as int),
        decreases n - i,
    {
        v.push(s.get_char(i));
        i = i + 1;
        proof {
            assert(v@ =~= s@.take(i as int));
        }
    }
    proof {
        assert(v@ =~= s@);
    }
    v
}

/// Relies on `String::push` from std: appends exactly the given
/// character to the end of the string.
pub assume_specification[ String::push ](s: &mut String, c: char)
    ensures
        final(s)@ == old(s)@.push(c),
;

/// A `String` holding exactly the characters of `v`.
pub fn chars_string(v: &Vec<char>) -> (s: String)
    ensures
        s@ == v@,
{
    let mut s = String::new();
    let mut i: usize = 0;
    while i < v.len()
        invariant
            i <= v@.len(),
            s@ == v@.take(i as int),
        decreases v@.len() - i,
    {
        s.push(v[i]);
        i = i + 1;
        proof {
            assert(s@ =~= v@.take(i as int));
        }
    }
    proof {
        assert(s@ =~= v@);
    }
    s
}

/// The index of the first non-whitespace character of `line` (its
/// length when all of it is whitespace); the suffix from that index is
/// the whitespace-trimmed line.
pub fn find_non_ws(line: &Vec<char>) -> (j: usize)
    ensures
        j <= line@.len(),
        trim_start_spec(line@) == line@.skip(j as int),
        forall|k: int| 0 <= k < j ==> is_ws(line@[k]),
        j < line@.len() ==> !is_ws(line@[j as int]),
{
    let mut j: usize = 0;
    proof {
        assert(line@.skip(0) =~= line@);
    }
    while j < line.len() && is_ws_char(line[j])
        invariant
            j <= line@.len(),
            trim_start_spec(line@) == trim_start_spec(line@.skip(j as int)),
            forall|k: int| 0 <= k < j ==> is_ws(line@[k]),
        decreases line@.len() - j,
    {
        proof {
            assert(line@.skip(j as int).skip(1) =~= line@.skip(j as int + 1));
        }
        j = j + 1;
    }
    j
}

/// The views of a sequence of character vectors.
pub open spec fn views_of_lines(r: Seq<Vec<char>>) -> Seq<Seq<char>> {
    Seq::new(r.len(), |i: int| r[i]@)
}

/// Splits `v` into lines: each line ends at a `\n` (a `\r` directly
/// before it is dropped), and a final unterminated line is kept unless
/// it is empty.
pub fn split_lines(v: &Vec<char>) -> (r: Vec<Vec<char>>)
    ensures
        views_of_lines(r@) == lines_spec(v@),
{
    let mut r: Vec<Vec<char>> = Vec::new();
    let mut cur: Vec<char> = Vec::new();
    let mut i: usize = 0;
    proof {
        assert(v@.skip(0) =~= v@);
        assert(views_of_lines(r@) + lines_from(v@, cur@) =~= lines_from(v@, cur@));
    }
    while i < v.len()
        invariant
            i <= v@.len(),
            lines_spec(v@) == views_of_lines(r@) + lines_from(v@.skip(i as int), cur@),
        decreases v@.len() - i,
    {
        proof {
            assert(v@.skip(i as int).skip(1) =~= v@.skip(i as int + 1));
            assert(v@.skip(i as int)[0] == v@[i as int]);
        }
        if v[i] == '\n' {
            let mut done = cur;
            cur = Vec::new();
            if done.len() > 0 && done[done.len() - 1] == '\r' {
                let _ = done.pop();
            }
            let ghost old_views = views_of_lines(r@);
            r.push(done);
            proof {
                assert(views_of_lines(r@) =~= old_views.push(r@[r@.len() - 1]@));
                assert(lines_spec(v@) =~= views_of_lines(r@) + lines_from(
                    v@.skip(i as int + 1),
                    cur@,
                ));
            }
        } else {
            cur.push(v[i]);
        }
        i = i + 1;
    }
    proof {
        assert(v@.skip(v@.len() as int) =~= Seq::<char>::empty());
    }
    if cur.len() > 0 {
        let ghost old_views = views_of_lines(r@);
        let ghost last = cur@;
        r.push(cur);
        proof {
            assert(views_of_lines(r@) =~= old_views.push(last));
            assert(lines_spec(v@) =~= views_of_lines(r@));
        }
    } else {
        proof {
            assert(lines_spec(v@) =~= views_of_lines(r@));
        }
    }
    r
}

/// The character bounds of the whitespace-trimmed middle of `v`:
/// `trim_spec(v@)` is exactly `v@.subrange(lo, hi)`.
pub fn trim_bounds(v: &Vec<char>) -> (bounds: (usize, usize))
    ensures
        bounds.0 <= bounds.1 <= v@.len(),
        trim_spec(v@) == v@.subrange(bounds.0 as int, bounds.1 as int),
{
    let lo = find_non_ws(v);
    let ghost t = v@.skip(lo as int);
    let mut hi: usize = v.len();
    proof {
        assert(t.take(v@.len() - lo) =~= t);
    }
    while hi > lo && is_ws_char(v[hi - 1])
        invariant
            lo <= hi <= v@.len(),
            t == v@.skip(lo as int),
            trim_end_spec(t) == trim_end_spec(t.take(hi - lo)),
        decreases hi,
    {
        proof {
            let part = t.take(hi - lo);
            assert(part[part.len() - 1] == v@[hi - 1]);
            assert(part.take(part.len() - 1) =~= t.take(hi - 1 - lo));
        }
        hi = hi - 1;
    }
    proof {
        let part = t.take(hi - lo);
        if hi > lo {
            assert(part[part.len() - 1] == v@[hi - 1]);
        }
        assert(trim_end_spec(part) == part);
        assert(part =~= v@.subrange(lo as int, hi as int));
    }
    (lo, hi)
}

/// `s` without leading and trailing whitespace.
pub fn trim_str(s: &str) -> (r: &str)
    ensures
        r@ == trim_spec(s@),
{
    let v = str_chars(s);
    let (lo, hi) = trim_bounds(&v);
    s.substring_char(lo, hi)
}

/// Compares two character vectors for equality.
pub fn chars_eq(a: &Vec<char>, b: &Vec<char>) -> (r: bool)
    ensures
        r == (a@ == b@),
{
    if a.len() != b.len() {
        return false;
    }
    let mut k: usize = 0;
    while k < a.len()
        invariant
            k <= a@.len(),
            a@.len() == b@.len(),
            forall|m: int| 0 <= m < k ==> a@[m] == b@[m],
        decreases a@.len() - k,
    {
        if a[k] != b[k] {
            return false;
        }
        k = k + 1;
    }
    proof {
        assert(a@ =~= b@);
    }
    true
}

} // verus!
