//! The work of the text endpoints, from a decoded request to a response or
//! an error.
use vstd::prelude::*;
use vstd::string::StringExecFns;
use vstd::utf8::encode_utf8;
use crate::http::errors::ApiError;
use crate::http::types::{
    GrepMatch, GrepRequest, GrepResponse, StatsRequest, StatsResponse, UniqRequest, UniqResponse,
};
use crate::text::{
    chars_of, is_blank, is_blank_line, lines_of, split_lines, string_from, string_views,
};
use crate::textkit::grep::{grep_hits, matching_lines};
use crate::textkit::stats::analyze;
use crate::textkit::uniq::{dedup_adjacent, dedup_all, uniq_lines};

verus! {

/// The largest text, in UTF-8 bytes, that an endpoint accepts.
pub const MAX_TEXT_BYTES: usize = 1048576;

/// The UTF-8 length of `t`, as `str::len` reports it.
pub open spec fn byte_len(t: Seq<char>) -> usize {
    encode_utf8(t).len() as usize
}

/// Whether a text is over the size limit.
pub open spec fn too_large(t: Seq<char>) -> bool {
    byte_len(t) > MAX_TEXT_BYTES
}

/// Whether `r` is the error for a text over the size limit.
pub open spec fn is_too_large_error(r: ApiError) -> bool {
    r matches ApiError::TooLarge(m) && m@ == "text exceeds 1MB limit"@
}

/// The lines joined with `\n` between them.
pub open spec fn joined(ls: Seq<Seq<char>>) -> Seq<char>
    decreases ls.len(),
{
    if ls.len() == 0 {
        seq![]
    } else if ls.len() == 1 {
        ls[0]
    } else {
        joined(ls.drop_last()) + seq!['\n'] + ls.last()
    }
}

/// The lines that duplicate-collapsing keeps.
pub open spec fn kept_lines(text: Seq<char>, all: bool) -> Seq<Seq<char>> {
    if all {
        dedup_all(lines_of(text))
    } else {
        dedup_adjacent(lines_of(text))
    }
}

/// The views of selected lines: number and text.
pub open spec fn match_views(ms: Seq<GrepMatch>) -> Seq<(nat, Seq<char>)> {
    ms.map_values(|m: GrepMatch| (m.line as nat, m.text@))
}

fn size_error() -> (r: ApiError)
    ensures
        is_too_large_error(r),
{
    ApiError::TooLarge(String::from_str("text exceeds 1MB limit"))
}

fn byte_length(t: &String) -> (r: usize)
    ensures
        r == byte_len(t@),
{
    t.as_str().len()
}

/// Line, word, character and byte counts of the request's text.
pub fn stats(payload: StatsRequest) -> (r: Result<StatsResponse, ApiError>)
    ensures
        too_large(payload.text@) ==> (r matches Err(e) && is_too_large_error(e)),
        !too_large(payload.text@) ==> (r matches Ok(s) && {
            &&& s.lines == lines_of(payload.text@).len()
            &&& s.words == crate::text::words_of(payload.text@).len()
            &&& s.chars == payload.text@.len()
            &&& s.bytes == byte_len(payload.text@)
        }),
{
    let bytes = byte_length(&payload.text);
    if bytes > MAX_TEXT_BYTES {
        return Err(size_error());
    }
    let stats = match analyze(payload.text.as_str()) {
        Ok(v) => v,
        Err(e) => return Err(ApiError::Internal(e.message())),
    };
    Ok(StatsResponse { lines: stats.lines, words: stats.words, chars: stats.chars, bytes })
}

/// The request's text with duplicate lines collapsed (every repeat when
/// `all`, else only consecutive ones), one `\n` after each kept line (none
/// at all when what is kept joins to nothing), and how many lines went.
pub fn uniq(payload: UniqRequest) -> (r: Result<UniqResponse, ApiError>)
    ensures
        too_large(payload.text@) ==> (r matches Err(e) && is_too_large_error(e)),
        !too_large(payload.text@) ==> (r matches Ok(u) && {
            let kept = kept_lines(payload.text@, payload.all == Some(true));
            let total = lines_of(payload.text@).len();
            &&& u.text@ == if joined(kept).len() == 0 {
                seq![]
            } else {
                joined(kept).push('\n')
            }
            &&& u.removed == if total >= kept.len() {
                (total - kept.len()) as nat
            } else {
                0
            }
        }),
{
    if byte_length(&payload.text) > MAX_TEXT_BYTES {
        return Err(size_error());
    }
    let all = match payload.all {
        Some(a) => a,
        None => false,
    };
    let lines = match uniq_lines(payload.text.as_str(), all) {
        Ok(v) => v,
        Err(e) => return Err(ApiError::Internal(e.message())),
    };
    let ghost kept = string_views(lines@);
    let mut out: Vec<char> = Vec::new();
    let mut i: usize = 0;
    while i < lines.len()
        invariant
            i <= lines@.len(),
            kept == string_views(lines@),
            out@ == joined(kept.take(i as int)),
        decreases lines@.len() - i,
    {
        assert(kept.take(i + 1).drop_last() == kept.take(i as int));
        assert(kept.take(i + 1).last() == lines@[i as int]@);
        if i > 0 {
            out.push('\n');
        }
        let cs = chars_of(lines[i].as_str());
        let mut k: usize = 0;
        let ghost start = out@;
        while k < cs.len()
            invariant
                k <= cs@.len(),
                out@ == start + cs@.take(k as int),
            decreases cs@.len() - k,
        {
            out.push(cs[k]);
            assert(cs@.take(k + 1) == cs@.take(k as int).push(cs@[k as int]));
            k += 1;
        }
        assert(cs@.take(cs@.len() as int) == cs@);
        assert(i == 0 ==> kept.take(1) == seq![kept[0]]);
        i += 1;
    }
    assert(kept.take(lines@.len() as int) == kept);
    if out.len() > 0 {
        out.push('\n');
    }
    let text = string_from(out.as_slice());
    let all_lines = split_lines(&chars_of(payload.text.as_str()));
    assert(crate::text::views(all_lines@).len() == all_lines@.len());
    let total = all_lines.len();
    let removed = if total >= lines.len() {
        total - lines.len()
    } else {
        0
    };
    Ok(UniqResponse { text, removed })
}

/// The lines of the request's text that contain its pattern, case
/// sensitively, numbered from one when `line_number` is set and 0 otherwise.
/// A pattern of nothing but whitespace is refused.
pub fn grep(payload: GrepRequest) -> (r: Result<GrepResponse, ApiError>)
    ensures
        too_large(payload.text@) ==> (r matches Err(e) && is_too_large_error(e)),
        !too_large(payload.text@) && is_blank(payload.pattern@) ==> (r matches Err(
            ApiError::Validation(m),
        ) && m@ == "pattern must not be empty"@),
        !too_large(payload.text@) && !is_blank(payload.pattern@) ==> (r matches Ok(g) && {
            &&& match_views(g.matches@) == grep_hits(
                lines_of(payload.text@),
                payload.pattern@,
                false,
            ).map_values(
                |h: (nat, Seq<char>)|
                    (
                        if payload.line_number == Some(true) {
                            h.0
                        } else {
                            0
                        },
                        h.1,
                    ),
            )
            &&& g.count == g.matches@.len()
        }),
{
    if byte_length(&payload.text) > MAX_TEXT_BYTES {
        return Err(size_error());
    }
    if is_blank_line(&chars_of(payload.pattern.as_str())) {
        return Err(ApiError::Validation(String::from_str("pattern must not be empty")));
    }
    let numbered = match payload.line_number {
        Some(n) => n,
        None => false,
    };
    let hits = matching_lines(payload.text.as_str(), payload.pattern.as_str(), false);
    let ghost hs = crate::textkit::grep::hit_views(hits@);
    let ghost want = hs.map_values(
        |h: (nat, Seq<char>)|
            (
                if numbered {
                    h.0
                } else {
                    0
                },
                h.1,
            ),
    );
    let mut matches: Vec<GrepMatch> = Vec::new();
    let mut i: usize = 0;
    while i < hits.len()
        invariant
            i <= hits@.len(),
            hs == crate::textkit::grep::hit_views(hits@),
            want == hs.map_values(
                |h: (nat, Seq<char>)|
                    (
                        if numbered {
                            h.0
                        } else {
                            0
                        },
                        h.1,
                    ),
            ),
            match_views(matches@) == want.take(i as int),
        decreases hits@.len() - i,
    {
        let line = if numbered {
            hits[i].0
        } else {
            0
        };
        let text = string_from(hits[i].1.as_slice());
        let ghost before = matches@;
        matches.push(GrepMatch { line, text });
        assert(match_views(matches@) =~= match_views(before).push(want[i as int]));
        assert(want.take(i + 1) =~= want.take(i as int).push(want[i as int]));
        i += 1;
    }
    assert(want.take(hits@.len() as int) =~= want);
    let count = matches.len();
    Ok(GrepResponse { matches, count })
}

} // verus!
