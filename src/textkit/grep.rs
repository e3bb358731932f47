//! Selecting the lines that contain a pattern.
use vstd::prelude::*;
use crate::text::{
    chars_of, decimal, lines_of, push_decimal, split_lines, string_from, string_views, views,
};
use crate::textkit::errors::TextkitError;

verus! {

/// Whether `p` occurs in `h` as a contiguous run.
pub open spec fn occurs_in(h: Seq<char>, p: Seq<char>) -> bool {
    exists|i: int| 0 <= i && i + p.len() <= h.len() && #[trigger] h.subrange(i, i + p.len()) == p
}

/// ASCII lower case of one character; other characters are kept.
pub open spec fn ascii_lower_char(c: char) -> char {
    if 65 <= (c as u32) && (c as u32) <= 90 {
        ((c as u8) + 32) as u8 as char
    } else {
        c
    }
}

/// ASCII lower case of a character sequence.
pub open spec fn ascii_lower(s: Seq<char>) -> Seq<char> {
    s.map_values(|c: char| ascii_lower_char(c))
}

/// Whether `line` is selected by `pattern`, comparing ASCII letters without
/// regard to case when `ignore_case` holds.
pub open spec fn line_matches(line: Seq<char>, pattern: Seq<char>, ignore_case: bool) -> bool {
    if ignore_case {
        occurs_in(ascii_lower(line), ascii_lower(pattern))
    } else {
        occurs_in(line, pattern)
    }
}

/// The selected lines of `ls`, each with its number counted from one.
pub open spec fn grep_hits(ls: Seq<Seq<char>>, pattern: Seq<char>, ignore_case: bool) -> Seq<
    (nat, Seq<char>),
>
    decreases ls.len(),
{
    if ls.len() == 0 {
        seq![]
    } else {
        let earlier = grep_hits(ls.drop_last(), pattern, ignore_case);
        if line_matches(ls.last(), pattern, ignore_case) {
            earlier.push((ls.len(), ls.last()))
        } else {
            earlier
        }
    }
}

/// How a selected line is printed: prefixed by `<number>:` when
/// `line_numbers` holds, else as it is.
pub open spec fn render_hit(hit: (nat, Seq<char>), line_numbers: bool) -> Seq<char> {
    if line_numbers {
        decimal(hit.0) + seq![':'] + hit.1
    } else {
        hit.1
    }
}

/// The views of computed hits.
pub open spec fn hit_views(v: Seq<(usize, Vec<char>)>) -> Seq<(nat, Seq<char>)> {
    v.map_values(|h: (usize, Vec<char>)| (h.0 as nat, h.1@))
}

fn lower_char(c: char) -> (r: char)
    ensures
        r == ascii_lower_char(c),
{
    if 65 <= (c as u32) && (c as u32) <= 90 {
        ((c as u8) + 32) as char
    } else {
        c
    }
}

fn lower_chars(s: &Vec<char>) -> (r: Vec<char>)
    ensures
        r@ == ascii_lower(s@),
{
    let mut r: Vec<char> = Vec::new();
    let mut i: usize = 0;
    while i < s.len()
        invariant
            i <= s@.len(),
            r@ == ascii_lower(s@.take(i as int)),
        decreases s@.len() - i,
    {
        r.push(lower_char(s[i]));
        assert(ascii_lower(s@.take(i + 1)) =~= ascii_lower(s@.take(i as int)).push(
            ascii_lower_char(s@[i as int]),
        ));
        i += 1;
    }
    assert(s@.take(s@.len() as int) == s@);
    r
}

/// Whether `p` occurs in `h` starting at `at`.
fn occurs_at(h: &Vec<char>, p: &Vec<char>, at: usize) -> (r: bool)
    requires
        at + p@.len() <= h@.len(),
    ensures
        r == (h@.subrange(at as int, at + p@.len()) == p@),
{
    let n = h.len();
    let mut k: usize = 0;
    while k < p.len()
        invariant
            k <= p@.len(),
            n == h@.len(),
            at + p@.len() <= h@.len(),
            forall|m: int| 0 <= m < k ==> h@[at + m] == p@[m],
        decreases p@.len() - k,
    {
        if h[at + k] != p[k] {
            assert(h@.subrange(at as int, at + p@.len())[k as int] != p@[k as int]);
            return false;
        }
        k += 1;
    }
    assert(h@.subrange(at as int, at + p@.len()) =~= p@);
    true
}

/// Whether `p` occurs in `h`.
fn occurs(h: &Vec<char>, p: &Vec<char>) -> (r: bool)
    ensures
        r == occurs_in(h@, p@),
{
    if p.len() > h.len() {
        return false;
    }
    if p.len() == 0 {
        assert(h@.subrange(0int, 0int + p@.len()) =~= p@);
        return true;
    }
    let n = h.len();
    let last = n - p.len();
    let mut i: usize = 0;
    while i <= last
        invariant
            last == h@.len() - p@.len(),
            last < n,
            n == h@.len(),
            i <= last + 1,
            forall|j: int| 0 <= j < i ==> #[trigger] h@.subrange(j, j + p@.len()) != p@,
        decreases h@.len() - i,
    {
        if occurs_at(h, p, i) {
            return true;
        }
        i += 1;
    }
    false
}

/// The lines of `text` that contain `pattern`, each with its number counted
/// from one; with `ignore_case`, ASCII letters match without regard to case.
pub fn matching_lines(text: &str, pattern: &str, ignore_case: bool) -> (r: Vec<(usize, Vec<char>)>)
    ensures
        hit_views(r@) == grep_hits(lines_of(text@), pattern@, ignore_case),
{
    let cs = chars_of(text);
    let lines = split_lines(&cs);
    let ghost ls = views(lines@);
    let pat = chars_of(pattern);
    let pat_lower = lower_chars(&pat);
    let mut hits: Vec<(usize, Vec<char>)> = Vec::new();
    let mut i: usize = 0;
    while i < lines.len()
        invariant
            i <= lines@.len(),
            ls == views(lines@),
            pat@ == pattern@,
            pat_lower@ == ascii_lower(pattern@),
            hit_views(hits@) == grep_hits(ls.take(i as int), pattern@, ignore_case),
        decreases lines@.len() - i,
    {
        proof {
            assert(ls.take(i + 1).drop_last() == ls.take(i as int));
            assert(ls.take(i + 1).last() == lines@[i as int]@);
        }
        let matched = if ignore_case {
            occurs(&lower_chars(&lines[i]), &pat_lower)
        } else {
            occurs(&lines[i], &pat)
        };
        if matched {
            let ghost before = hits@;
            hits.push((i + 1, lines[i].clone()));
            assert(hit_views(hits@) =~= hit_views(before).push(((i + 1) as nat, lines@[i as int]@)));
        }
        i += 1;
    }
    assert(ls.take(lines@.len() as int) == ls);
    hits
}

/// The lines of `text` that contain `pattern`, in order; with `line_numbers`
/// each is prefixed by its number and a colon.
pub fn grep_lines(text: &str, pattern: &str, ignore_case: bool, line_numbers: bool) -> (r: Result<
    Vec<String>,
    TextkitError,
>)
    ensures
        r is Ok,
        r matches Ok(out) && string_views(out@) == grep_hits(
            lines_of(text@),
            pattern@,
            ignore_case,
        ).map_values(|h: (nat, Seq<char>)| render_hit(h, line_numbers)),
{
    let hits = matching_lines(text, pattern, ignore_case);
    let ghost hs = hit_views(hits@);
    let mut out: Vec<String> = Vec::new();
    let mut i: usize = 0;
    while i < hits.len()
        invariant
            i <= hits@.len(),
            hs == hit_views(hits@),
            string_views(out@) == hs.take(i as int).map_values(
                |h: (nat, Seq<char>)| render_hit(h, line_numbers),
            ),
        decreases hits@.len() - i,
    {
        let mut line: Vec<char> = Vec::new();
        if line_numbers {
            push_decimal(&mut line, hits[i].0);
            line.push(':');
        }
        let mut k: usize = 0;
        while k < hits[i].1.len()
            invariant
                i < hits@.len(),
                k <= hits@[i as int].1@.len(),
                line@ == (if line_numbers {
                    decimal(hits@[i as int].0 as nat) + seq![':']
                } else {
                    seq![]
                }) + hits@[i as int].1@.take(k as int),
            decreases hits@[i as int].1@.len() - k,
        {
            line.push(hits[i].1[k]);
            assert(hits@[i as int].1@.take(k + 1) == hits@[i as int].1@.take(k as int).push(
                hits@[i as int].1@[k as int],
            ));
            k += 1;
        }
        assert(hits@[i as int].1@.take(k as int) == hits@[i as int].1@);
        let s = string_from(line.as_slice());
        let ghost before = out@;
        out.push(s);
        proof {
            assert(hs.take(i + 1) == hs.take(i as int).push(hs[i as int]));
            assert(string_views(out@) =~= string_views(before).push(s@));
        }
        i += 1;
    }
    assert(hs.take(hits@.len() as int) == hs);
    Ok(out)
}

} // verus!
