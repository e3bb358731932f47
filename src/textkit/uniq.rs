//! Collapsing duplicate lines.
use vstd::prelude::*;
use crate::text::{chars_of, lines_of, same_chars, split_lines, string_views, strings_from, views};
use crate::textkit::errors::TextkitError;

verus! {

/// The first occurrence of each distinct line, in order.
pub open spec fn dedup_all(ls: Seq<Seq<char>>) -> Seq<Seq<char>>
    decreases ls.len(),
{
    if ls.len() == 0 {
        seq![]
    } else {
        let kept = dedup_all(ls.drop_last());
        if kept.contains(ls.last()) {
            kept
        } else {
            kept.push(ls.last())
        }
    }
}

/// The lines with each run of equal consecutive lines collapsed to one.
pub open spec fn dedup_adjacent(ls: Seq<Seq<char>>) -> Seq<Seq<char>>
    decreases ls.len(),
{
    if ls.len() == 0 {
        seq![]
    } else {
        let kept = dedup_adjacent(ls.drop_last());
        if ls.len() >= 2 && ls[ls.len() - 2] == ls.last() {
            kept
        } else {
            kept.push(ls.last())
        }
    }
}

/// Whether `line` is one of `kept`.
fn holds_line(kept: &Vec<Vec<char>>, line: &Vec<char>) -> (r: bool)
    ensures
        r == views(kept@).contains(line@),
{
    let mut i: usize = 0;
    while i < kept.len()
        invariant
            i <= kept@.len(),
            forall|k: int| 0 <= k < i ==> kept@[k]@ != line@,
        decreases kept@.len() - i,
    {
        if same_chars(&kept[i], line) {
            assert(views(kept@)[i as int] == line@);
            return true;
        }
        i += 1;
    }
    assert(!views(kept@).contains(line@)) by {
        if views(kept@).contains(line@) {
            let k = choose|k: int| 0 <= k < views(kept@).len() && views(kept@)[k] == line@;
            assert(kept@[k]@ == line@);
        }
    }
    false
}

/// The lines of `text` with duplicates removed: with `all`, every repeat of
/// an earlier line goes; otherwise only repeats of the line just before.
pub fn uniq_lines(text: &str, all: bool) -> (r: Result<Vec<String>, TextkitError>)
    ensures
        r is Ok,
        r matches Ok(out) && string_views(out@) == if all {
            dedup_all(lines_of(text@))
        } else {
            dedup_adjacent(lines_of(text@))
        },
{
    let cs = chars_of(text);
    let lines = split_lines(&cs);
    let ghost ls = views(lines@);
    let mut kept: Vec<Vec<char>> = Vec::new();
    let mut i: usize = 0;
    while i < lines.len()
        invariant
            i <= lines@.len(),
            ls == views(lines@),
            views(kept@) == if all {
                dedup_all(ls.take(i as int))
            } else {
                dedup_adjacent(ls.take(i as int))
            },
        decreases lines@.len() - i,
    {
        proof {
            assert(ls.take(i + 1).drop_last() == ls.take(i as int));
            assert(ls.take(i + 1).last() == lines@[i as int]@);
        }
        let keep = if all {
            !holds_line(&kept, &lines[i])
        } else {
            i == 0 || !same_chars(&lines[i - 1], &lines[i])
        };
        if keep {
            let ghost before = kept@;
            kept.push(lines[i].clone());
            assert(views(kept@) =~= views(before).push(lines@[i as int]@));
        }
        i += 1;
    }
    assert(ls.take(lines@.len() as int) == ls);
    let out = strings_from(&kept);
    Ok(out)
}

} // verus!
