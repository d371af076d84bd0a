//! Payload extraction: scanning a reply body for fenced code blocks of
//! the target language, and assembling the final payload handed back to
//! the caller.

use vstd::prelude::*;
use crate::text::{
    str_chars, chars_string, split_lines, find_non_ws, trim_bounds, trim_str, trim_start_spec,
    trim_spec, starts_with, lines_spec, views_of_lines,
};

verus! {

/// The fence that opens a code block of the target language.
pub open spec fn fence_rust_seq() -> Seq<char> {
    seq!['`', '`', '`', 'r', 'u', 's', 't']
}

/// A bare fence, which closes an open code block.
pub open spec fn fence_seq() -> Seq<char> {
    seq!['`', '`', '`']
}

/// True when `line`, after leading whitespace, starts with the
/// language-tagged opening fence.
pub open spec fn is_open_fence(line: Seq<char>) -> bool {
    starts_with(trim_start_spec(line), fence_rust_seq())
}

/// True when `line`, after leading whitespace, starts with a bare fence.
pub open spec fn is_any_fence(line: Seq<char>) -> bool {
    starts_with(trim_start_spec(line), fence_seq())
}

/// The code blocks collected from `lines`, scanning with state: whether
/// a block is open, and the characters accumulated for it so far. An
/// opening fence starts a fresh block (also when one is already open); a
/// bare fence closes an open block and emits it; other lines are kept,
/// with a `\n` after each, only while a block is open. A block still
/// open at the end of input is dropped.
pub open spec fn extract_from(lines: Seq<Seq<char>>, in_block: bool, cur: Seq<char>) -> Seq<
    Seq<char>,
>
    decreases lines.len(),
{
    if lines.len() == 0 {
        Seq::<Seq<char>>::empty()
    } else {
        let line = lines[0];
        let rest = lines.skip(1);
        if is_open_fence(line) {
            extract_from(rest, true, Seq::<char>::empty())
        } else if is_any_fence(line) && in_block {
            seq![cur] + extract_from(rest, false, cur)
        } else if in_block {
            extract_from(rest, true, cur + line + seq!['\n'])
        } else {
            extract_from(rest, false, cur)
        }
    }
}

/// The ordered contents of the target-language code blocks of `body`.
pub open spec fn extract_spec(body: Seq<char>) -> Seq<Seq<char>> {
    extract_from(lines_spec(body), false, Seq::<char>::empty())
}

/// True when the characters of `line` from `j` on begin with `p`.
fn has_seq_at(line: &Vec<char>, j: usize, p: &Vec<char>) -> (b: bool)
    requires
        j <= line@.len(),
    ensures
        b == starts_with(line@.skip(j as int), p@),
{
    let n = line.len();
    if n - j < p.len() {
        return false;
    }
    let mut k: usize = 0;
    while k < p.len()
        invariant
            k <= p@.len(),
            n == line@.len(),
            p@.len() <= n - j,
            j <= n,
            forall|m: int| 0 <= m < k ==> line@[j + m] == p@[m],
        decreases p@.len() - k,
    {
        if line[j + k] != p[k] {
            proof {
                let s = line@.skip(j as int);
                assert(s.take(p@.len() as int)[k as int] == line@[j + k]);
            }
            return false;
        }
        k = k + 1;
    }
    proof {
        let s = line@.skip(j as int);
        assert(s.take(p@.len() as int) =~= p@);
    }
    true
}

/// Whether `line` opens a target-language block, and whether it is a
/// bare fence line.
fn classify_line(line: &Vec<char>) -> (r: (bool, bool))
    ensures
        r.0 == is_open_fence(line@),
        r.1 == is_any_fence(line@),
{
    let j = find_non_ws(line);
    let open_fence: Vec<char> = vec!['`', '`', '`', 'r', 'u', 's', 't'];
    let bare_fence: Vec<char> = vec!['`', '`', '`'];
    proof {
        assert(open_fence@ =~= fence_rust_seq());
        assert(bare_fence@ =~= fence_seq());
    }
    let is_open = has_seq_at(line, j, &open_fence);
    let is_bare = has_seq_at(line, j, &bare_fence);
    (is_open, is_bare)
}

/// Appends `line` and a terminating `\n` to `cur`.
fn push_line(cur: &mut Vec<char>, line: &Vec<char>)
    ensures
        final(cur)@ == old(cur)@ + line@ + seq!['\n'],
{
    let mut k: usize = 0;
    while k < line.len()
        invariant
            k <= line@.len(),
            cur@ == old(cur)@ + line@.take(k as int),
        decreases line@.len() - k,
    {
        cur.push(line[k]);
        k = k + 1;
        proof {
            assert(old(cur)@ + line@.take(k - 1) + seq![line@[k - 1]] =~= old(cur)@ + line@.take(
                k as int,
            ));
        }
    }
    proof {
        assert(cur@ =~= old(cur)@ + line@);
    }
    cur.push('\n');
    proof {
        assert(cur@ =~= old(cur)@ + line@ + seq!['\n']);
    }
}

/// The ordered list of target-language code block contents found in
/// `markdown`, one string per explicitly closed block, each inner line
/// followed by a `\n`.
pub fn extract_rust_codes(markdown: &str) -> (r: Vec<String>)
    ensures
        r.deep_view() == extract_spec(markdown@),
{
    let chars = str_chars(markdown);
    let lines = split_lines(&chars);
    let ghost lviews = views_of_lines(lines@);
    let mut r: Vec<String> = Vec::new();
    let mut in_block = false;
    let mut cur: Vec<char> = Vec::new();
    let mut i: usize = 0;
    proof {
        assert(lviews.skip(0) =~= lviews);
        assert(r.deep_view() + extract_from(lviews, false, cur@) =~= extract_spec(markdown@));
    }
    while i < lines.len()
        invariant
            i <= lines@.len(),
            lviews == views_of_lines(lines@),
            lviews == lines_spec(markdown@),
            extract_spec(markdown@) == r.deep_view() + extract_from(
                lviews.skip(i as int),
                in_block,
                cur@,
            ),
        decreases lines@.len() - i,
    {
        proof {
            assert(lviews.skip(i as int)[0] == lines@[i as int]@);
            assert(lviews.skip(i as int).skip(1) =~= lviews.skip(i as int + 1));
        }
        let (is_open, is_bare) = classify_line(&lines[i]);
        if is_open {
            in_block = true;
            cur = Vec::new();
        } else if is_bare && in_block {
            in_block = false;
            let ghost old_deep = r.deep_view();
            let block = chars_string(&cur);
            r.push(block);
            proof {
                assert(r.deep_view() =~= old_deep.push(cur@));
                assert(old_deep + (seq![cur@] + extract_from(
                    lviews.skip(i as int + 1),
                    false,
                    cur@,
                )) =~= r.deep_view() + extract_from(lviews.skip(i as int + 1), false, cur@));
            }
        } else if in_block {
            push_line(&mut cur, &lines[i]);
        }
        i = i + 1;
    }
    proof {
        assert(lviews.skip(lines@.len() as int) =~= Seq::<Seq<char>>::empty());
        assert(extract_spec(markdown@) =~= r.deep_view());
    }
    r
}

/// `s` with every copy of prefix `p` removed from its start.
pub open spec fn strip_prefix_all(s: Seq<char>, p: Seq<char>) -> Seq<char>
    decreases s.len(),
{
    if p.len() > 0 && starts_with(s, p) {
        strip_prefix_all(s.skip(p.len() as int), p)
    } else {
        s
    }
}

/// True when `s` ends with `p`.
pub open spec fn ends_with(s: Seq<char>, p: Seq<char>) -> bool {
    s.len() >= p.len() && s.skip(s.len() - p.len()) == p
}

/// `s` with every copy of suffix `p` removed from its end.
pub open spec fn strip_suffix_all(s: Seq<char>, p: Seq<char>) -> Seq<char>
    decreases s.len(),
{
    if p.len() > 0 && ends_with(s, p) {
        strip_suffix_all(s.take(s.len() - p.len()), p)
    } else {
        s
    }
}

/// The reply body trimmed of surrounding whitespace, with every leading
/// language-tagged fence and every trailing bare fence removed.
pub open spec fn remove_markdown_spec(s: Seq<char>) -> Seq<char> {
    strip_suffix_all(strip_prefix_all(trim_spec(s), fence_rust_seq()), fence_seq())
}

/// Strips markdown wrapping from a reply: whitespace around it, then
/// any leading `` ```rust `` fences and trailing `` ``` `` fences.
pub fn remove_markdown(res_code: &str) -> (r: &str)
    ensures
        r@ == remove_markdown_spec(res_code@),
{
    let v = str_chars(res_code);
    let (tlo, thi) = trim_bounds(&v);
    let mut lo = tlo;
    let mut hi = thi;
    let open_fence: Vec<char> = vec!['`', '`', '`', 'r', 'u', 's', 't'];
    let bare_fence: Vec<char> = vec!['`', '`', '`'];
    proof {
        assert(open_fence@ =~= fence_rust_seq());
        assert(bare_fence@ =~= fence_seq());
        assert(v@.subrange(tlo as int, thi as int).skip(lo - tlo) =~= v@.subrange(
            lo as int,
            thi as int,
        ));
    }
    while prefix_matches(&v, lo, hi, &open_fence)
        invariant
            tlo <= lo <= hi <= v@.len(),
            hi == thi,
            open_fence@ == fence_rust_seq(),
            strip_prefix_all(trim_spec(v@), fence_rust_seq()) == strip_prefix_all(
                v@.subrange(lo as int, hi as int),
                fence_rust_seq(),
            ),
        decreases hi - lo,
    {
        proof {
            assert(v@.subrange(lo as int, hi as int).skip(7) =~= v@.subrange(
                lo as int + 7,
                hi as int,
            ));
        }
        lo = lo + 7;
    }
    let ghost after_prefix = v@.subrange(lo as int, hi as int);
    while suffix_matches(&v, lo, hi, &bare_fence)
        invariant
            tlo <= lo <= hi <= v@.len(),
            bare_fence@ == fence_seq(),
            after_prefix == strip_prefix_all(trim_spec(v@), fence_rust_seq()),
            strip_suffix_all(after_prefix, fence_seq()) == strip_suffix_all(
                v@.subrange(lo as int, hi as int),
                fence_seq(),
            ),
        decreases hi,
    {
        proof {
            let s = v@.subrange(lo as int, hi as int);
            assert(s.take(s.len() - 3) =~= v@.subrange(lo as int, hi as int - 3));
        }
        hi = hi - 3;
    }
    proof {
        assert(remove_markdown_spec(res_code@) == v@.subrange(lo as int, hi as int));
    }
    res_code.substring_char(lo, hi)
}

/// True when the characters of `v` in `[lo, hi)` begin with `p`.
fn prefix_matches(v: &Vec<char>, lo: usize, hi: usize, p: &Vec<char>) -> (b: bool)
    requires
        lo <= hi <= v@.len(),
    ensures
        b == starts_with(v@.subrange(lo as int, hi as int), p@),
{
    if hi - lo < p.len() {
        return false;
    }
    let mut k: usize = 0;
    while k < p.len()
        invariant
            k <= p@.len(),
            lo <= hi <= v@.len(),
            p@.len() <= hi - lo,
            forall|m: int| 0 <= m < k ==> v@[lo + m] == p@[m],
        decreases p@.len() - k,
    {
        if v[lo + k] != p[k] {
            proof {
                let s = v@.subrange(lo as int, hi as int);
                assert(s.take(p@.len() as int)[k as int] == v@[lo + k]);
            }
            return false;
        }
        k = k + 1;
    }
    proof {
        let s = v@.subrange(lo as int, hi as int);
        assert(s.take(p@.len() as int) =~= p@);
    }
    true
}

/// True when the characters of `v` in `[lo, hi)` end with `p`.
fn suffix_matches(v: &Vec<char>, lo: usize, hi: usize, p: &Vec<char>) -> (b: bool)
    requires
        lo <= hi <= v@.len(),
    ensures
        b == ends_with(v@.subrange(lo as int, hi as int), p@),
{
    if hi - lo < p.len() {
        return false;
    }
    let base = hi - p.len();
    let mut k: usize = 0;
    while k < p.len()
        invariant
            k <= p@.len(),
            lo <= hi <= v@.len(),
            p@.len() <= hi - lo,
            base == hi - p@.len(),
            forall|m: int| 0 <= m < k ==> v@[base + m] == p@[m],
        decreases p@.len() - k,
    {
        if v[base + k] != p[k] {
            proof {
                let s = v@.subrange(lo as int, hi as int);
                assert(s.skip(s.len() - p@.len())[k as int] == v@[base + k]);
            }
            return false;
        }
        k = k + 1;
    }
    proof {
        let s = v@.subrange(lo as int, hi as int);
        assert(s.skip(s.len() - p@.len()) =~= p@);
    }
    true
}

/// The extracted blocks joined with a single `\n` between consecutive
/// blocks.
pub open spec fn join_blocks(bs: Seq<Seq<char>>) -> Seq<char>
    decreases bs.len(),
{
    if bs.len() == 0 {
        Seq::<char>::empty()
    } else if bs.len() == 1 {
        bs[0]
    } else {
        join_blocks(bs.take(bs.len() - 1)) + seq!['\n'] + bs[bs.len() - 1]
    }
}

/// The payload handed back to the caller for reply body `body`: the
/// joined contents of its code blocks, or the whole trimmed body when
/// it holds no closed code block.
pub open spec fn payload_spec(body: Seq<char>) -> Seq<char> {
    let blocks = extract_spec(body);
    if blocks.len() == 0 {
        trim_spec(body)
    } else {
        join_blocks(blocks)
    }
}

/// Builds the caller-facing payload from a reply body.
pub fn assemble_payload(body: &str) -> (r: String)
    ensures
        r@ == payload_spec(body@),
{
    let codes = extract_rust_codes(body);
    if codes.len() == 0 {
        trim_str(body).to_owned()
    } else {
        let ghost bs = codes.deep_view();
        let mut out = codes[0].clone();
        proof {
            assert(bs.take(1)[0] == bs[0]);
        }
        let mut k: usize = 1;
        while k < codes.len()
            invariant
                1 <= k <= bs.len(),
                bs == codes.deep_view(),
                bs.len() == codes@.len(),
                forall|m: int| 0 <= m < bs.len() ==> bs[m] == codes@[m]@,
                out@ == join_blocks(bs.take(k as int)),
            decreases bs.len() - k,
        {
            out.push('\n');
            out.append(codes[k].as_str());
            k = k + 1;
            proof {
                assert(bs.take(k as int).take(k - 1) =~= bs.take(k - 1));
                assert(out@ =~= join_blocks(bs.take(k as int)));
            }
        }
        proof {
            assert(bs.take(bs.len() as int) =~= bs);
        }
        out
    }
}

} // verus!
