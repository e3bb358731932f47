//! Summary statistics of a non-empty text, including its most frequent word.
use vstd::prelude::*;
use crate::text::{
    chars_of, is_blank, is_blank_line, lines_of, split_lines, split_words, string_from, views,
    words_of,
};

verus! {

/// Why a text could not be analysed.
#[derive(Debug)]
pub enum StatsError {
    /// The text was empty.
    EmptyInput,
}

/// The statistics of one text.
pub struct TextStats {
    pub lines: usize,
    pub words: usize,
    pub chars: usize,
    pub non_empty_lines: usize,
    pub top_word: Option<String>,
}

/// What `str::to_lowercase` makes of a character sequence (full Unicode
/// lower casing, which depends on the characters alone).
pub uninterp spec fn lower_of(s: Seq<char>) -> Seq<char>;

/// Relies on `str::to_lowercase`: the Unicode lower case of `s`.
#[verifier::external_body]
fn lowercase(s: &str) -> (r: String)
    ensures
        r@ == lower_of(s@),
{
    s.to_lowercase()
}

/// The punctuation that is stripped from words before they are counted.
pub open spec fn is_punct(c: char) -> bool {
    c == '.' || c == ',' || c == '!' || c == '?' || c == ';' || c == ':'
}

/// `s` without its punctuation characters.
pub open spec fn strip_punct(s: Seq<char>) -> Seq<char>
    decreases s.len(),
{
    if s.len() == 0 {
        seq![]
    } else if is_punct(s.last()) {
        strip_punct(s.drop_last())
    } else {
        strip_punct(s.drop_last()).push(s.last())
    }
}

/// The forms that are counted: each lower-cased word with its punctuation
/// removed, in order; forms that are left empty are not counted.
pub open spec fn counted(forms: Seq<Seq<char>>) -> Seq<Seq<char>>
    decreases forms.len(),
{
    if forms.len() == 0 {
        seq![]
    } else if strip_punct(forms.last()).len() > 0 {
        counted(forms.drop_last()).push(strip_punct(forms.last()))
    } else {
        counted(forms.drop_last())
    }
}

/// The counted forms of the words `ws`, which are lower-cased first.
pub open spec fn tally(ws: Seq<Seq<char>>) -> Seq<Seq<char>> {
    counted(ws.map_values(|w: Seq<char>| lower_of(w)))
}

/// How many times `u` occurs in `t`.
pub open spec fn occurrences(t: Seq<Seq<char>>, u: Seq<char>) -> nat
    decreases t.len(),
{
    if t.len() == 0 {
        0
    } else {
        occurrences(t.drop_last(), u) + if t.last() == u {
            1nat
        } else {
            0nat
        }
    }
}

/// How many `\n` characters `s` holds.
pub open spec fn newline_count(s: Seq<char>) -> nat
    decreases s.len(),
{
    if s.len() == 0 {
        0
    } else {
        newline_count(s.drop_last()) + if s.last() == '\n' {
            1nat
        } else {
            0nat
        }
    }
}

/// How many of `ls` hold a character other than whitespace.
pub open spec fn nonblank_count(ls: Seq<Seq<char>>) -> nat
    decreases ls.len(),
{
    if ls.len() == 0 {
        0
    } else {
        nonblank_count(ls.drop_last()) + if is_blank(ls.last()) {
            0nat
        } else {
            1nat
        }
    }
}

/// Whether `w` is a most frequent word of `t`.
pub open spec fn is_top_word(t: Seq<Seq<char>>, w: Seq<char>) -> bool {
    &&& t.contains(w)
    &&& forall|u: Seq<char>| #[trigger] t.contains(u) ==> occurrences(t, u) <= occurrences(t, w)
}

proof fn lemma_occurrences_bounded(t: Seq<Seq<char>>, u: Seq<char>)
    ensures
        occurrences(t, u) <= t.len(),
    decreases t.len(),
{
    if t.len() > 0 {
        lemma_occurrences_bounded(t.drop_last(), u);
    }
}

fn strip_punct_chars(s: &Vec<char>) -> (r: Vec<char>)
    ensures
        r@ == strip_punct(s@),
{
    let mut r: Vec<char> = Vec::new();
    let mut i: usize = 0;
    while i < s.len()
        invariant
            i <= s@.len(),
            r@ == strip_punct(s@.take(i as int)),
        decreases s@.len() - i,
    {
        assert(s@.take(i + 1).drop_last() == s@.take(i as int));
        let c = s[i];
        if !(c == '.' || c == ',' || c == '!' || c == '?' || c == ';' || c == ':') {
            r.push(c);
        }
        i += 1;
    }
    assert(s@.take(s@.len() as int) == s@);
    r
}

fn lower_word(w: &Vec<char>) -> (r: Vec<char>)
    ensures
        r@ == lower_of(w@),
{
    let s = string_from(w.as_slice());
    let lower = lowercase(s.as_str());
    chars_of(lower.as_str())
}

fn find_key(keys: &Vec<Vec<char>>, w: &Vec<char>) -> (r: Option<usize>)
    ensures
        match r {
            Some(k) => k < keys@.len() && keys@[k as int]@ == w@,
            None => forall|k: int| 0 <= k < keys@.len() ==> keys@[k]@ != w@,
        },
{
    let mut k: usize = 0;
    while k < keys.len()
        invariant
            k <= keys@.len(),
            forall|j: int| 0 <= j < k ==> keys@[j]@ != w@,
        decreases keys@.len() - k,
    {
        if crate::text::same_chars(&keys[k], w) {
            return Some(k);
        }
        k += 1;
    }
    None
}

/// A most frequent form among the lower-cased words `forms`, once their
/// punctuation is removed; `None` when no form is left to count.
pub fn most_frequent(forms: &Vec<Vec<char>>) -> (r: Option<String>)
    ensures
        r is None <==> counted(views(forms@)).len() == 0,
        r matches Some(w) ==> is_top_word(counted(views(forms@)), w@),
{
    let ghost ws = views(forms@);
    let mut keys: Vec<Vec<char>> = Vec::new();
    let mut counts: Vec<usize> = Vec::new();
    let mut i: usize = 0;
    while i < forms.len()
        invariant
            i <= forms@.len(),
            ws == views(forms@),
            counted(ws.take(i as int)).len() <= i,
            keys@.len() == counts@.len(),
            forall|k: int|
                0 <= k < keys@.len() ==> #[trigger] counts@[k] == occurrences(
                    counted(ws.take(i as int)),
                    keys@[k]@,
                ),
            forall|k: int|
                0 <= k < keys@.len() ==> counted(ws.take(i as int)).contains(#[trigger] keys@[k]@),
            forall|j: int|
                #![trigger counted(ws.take(i as int))[j]]
                0 <= j < counted(ws.take(i as int)).len() ==> exists|k: int|
                    0 <= k < keys@.len() && #[trigger] keys@[k]@ == counted(ws.take(i as int))[j],
            forall|a: int, b: int|
                0 <= a < b < keys@.len() ==> #[trigger] keys@[a]@ != #[trigger] keys@[b]@,
        decreases forms@.len() - i,
    {
        let ghost t0 = counted(ws.take(i as int));
        assert(ws.take(i + 1).drop_last() == ws.take(i as int));
        assert(ws.take(i + 1).last() == forms@[i as int]@);
        let n = strip_punct_chars(&forms[i]);
        if n.len() > 0 {
            let ghost t1 = t0.push(n@);
            assert(counted(ws.take(i + 1)) == t1);
            assert(t1.drop_last() == t0);
            let ghost old_keys = keys@;
            let ghost mut slot: int = 0;
            match find_key(&keys, &n) {
                Some(k) => {
                    proof {
                        lemma_occurrences_bounded(t0, n@);
                        slot = k as int;
                    }
                    let c = counts[k];
                    counts.set(k, c + 1);
                },
                None => {
                    proof {
                        slot = keys@.len() as int;
                    }
                    keys.push(n);
                    counts.push(1);
                    assert(occurrences(t0, n@) == 0) by {
                        if occurrences(t0, n@) > 0 {
                            lemma_occurrences_positive(t0, n@);
                            let j = choose|j: int| 0 <= j < t0.len() && t0[j] == n@;
                            let kk = choose|kk: int|
                                0 <= kk < old_keys.len() && #[trigger] old_keys[kk]@ == t0[j];
                            assert(old_keys[kk]@ != n@);
                        }
                    }
                },
            }
            assert(0 <= slot < keys@.len() && keys@[slot]@ == n@);
            assert(forall|k: int| 0 <= k < old_keys.len() ==> keys@[k] == old_keys[k]);
            assert forall|k: int| 0 <= k < keys@.len() implies t1.contains(#[trigger] keys@[k]@) by {
                if keys@[k]@ == n@ {
                    assert(t1[t1.len() - 1] == n@);
                } else {
                    assert(k < old_keys.len());
                    assert(t0.contains(old_keys[k]@));
                    let j = choose|j: int| 0 <= j < t0.len() && t0[j] == keys@[k]@;
                    assert(t1[j] == keys@[k]@);
                }
            }
            assert forall|j: int| #![trigger t1[j]] 0 <= j < t1.len() implies exists|k: int|
                0 <= k < keys@.len() && #[trigger] keys@[k]@ == t1[j] by {
                if j < t0.len() {
                    assert(t1[j] == t0[j]);
                    let k = choose|k: int|
                        0 <= k < old_keys.len() && #[trigger] old_keys[k]@ == t0[j];
                    assert(keys@[k]@ == t1[j]);
                } else {
                    assert(keys@[slot]@ == t1[j]);
                }
            }
        } else {
            assert(counted(ws.take(i + 1)) == t0);
        }
        i += 1;
    }
    assert(ws.take(forms@.len() as int) == ws);
    let ghost t = counted(ws);
    let mut best: usize = 0;
    let mut k: usize = 1;
    if keys.len() == 0 {
        proof {
            if t.len() > 0 {
                let kk = choose|kk: int| 0 <= kk < keys@.len() && #[trigger] keys@[kk]@ == t[0];
            }
        }
        return None;
    }
    while k < keys.len()
        invariant
            1 <= k <= keys@.len(),
            keys@.len() == counts@.len(),
            best < k,
            forall|j: int| 0 <= j < k ==> counts@[j] <= counts@[best as int],
        decreases keys@.len() - k,
    {
        if counts[k] > counts[best] {
            best = k;
        }
        k += 1;
    }
    let w = string_from(keys[best].as_slice());
    assert forall|u: Seq<char>| #[trigger] t.contains(u) implies occurrences(t, u) <= occurrences(
        t,
        w@,
    ) by {
        let j = choose|j: int| 0 <= j < t.len() && t[j] == u;
        let kk = choose|kk: int| 0 <= kk < keys@.len() && #[trigger] keys@[kk]@ == t[j];
        assert(counts@[kk] <= counts@[best as int]);
    }
    assert(t.contains(w@)) by {
        assert(t.contains(keys@[best as int]@));
    }
    Some(w)
}

/// Counts the lines (one more than the newlines), words, characters and
/// non-blank lines of `text`, and finds a most frequent word, compared in
/// lower case with the punctuation `.,!?;:` removed. Empty text is an error.
pub fn analyze(text: &str) -> (r: Result<TextStats, StatsError>)
    requires
        text@.len() < usize::MAX,
    ensures
        r is Err <==> text@.len() == 0,
        r matches Ok(s) ==> {
            &&& s.lines == newline_count(text@) + 1
            &&& s.words == words_of(text@).len()
            &&& s.chars == text@.len()
            &&& s.non_empty_lines == nonblank_count(lines_of(text@))
            &&& s.top_word is None <==> tally(words_of(text@)).len() == 0
            &&& s.top_word matches Some(w) ==> is_top_word(tally(words_of(text@)), w@)
        },
{
    if text.is_empty() {
        return Err(StatsError::EmptyInput);
    }
    let cs = chars_of(text);
    let words = split_words(&cs);
    let lines = split_lines(&cs);
    let mut forms: Vec<Vec<char>> = Vec::new();
    let mut w: usize = 0;
    while w < words.len()
        invariant
            w <= words@.len(),
            views(forms@) == views(words@).take(w as int).map_values(|v: Seq<char>| lower_of(v)),
        decreases words@.len() - w,
    {
        let lowered = lower_word(&words[w]);
        let ghost before = forms@;
        forms.push(lowered);
        assert(views(forms@) =~= views(before).push(lower_of(words@[w as int]@)));
        assert(views(words@).take(w + 1) =~= views(words@).take(w as int).push(words@[w as int]@));
        w += 1;
    }
    assert(views(words@).take(words@.len() as int) =~= views(words@));
    let top_word = most_frequent(&forms);
    let mut newlines: usize = 0;
    let mut i: usize = 0;
    while i < cs.len()
        invariant
            i <= cs@.len(),
            cs@.len() < usize::MAX,
            newlines == newline_count(cs@.take(i as int)),
            newlines <= i,
        decreases cs@.len() - i,
    {
        assert(cs@.take(i + 1).drop_last() == cs@.take(i as int));
        if cs[i] == '\n' {
            newlines += 1;
        }
        i += 1;
    }
    assert(cs@.take(cs@.len() as int) == cs@);
    let ghost ls = views(lines@);
    let mut non_empty: usize = 0;
    let mut j: usize = 0;
    while j < lines.len()
        invariant
            j <= lines@.len(),
            ls == views(lines@),
            non_empty == nonblank_count(ls.take(j as int)),
            non_empty <= j,
        decreases lines@.len() - j,
    {
        assert(ls.take(j + 1).drop_last() == ls.take(j as int));
        assert(ls.take(j + 1).last() == lines@[j as int]@);
        if !is_blank_line(&lines[j]) {
            non_empty += 1;
        }
        j += 1;
    }
    assert(ls.take(lines@.len() as int) == ls);
    assert(views(words@).len() == words@.len());
    Ok(TextStats {
        lines: newlines + 1,
        words: words.len(),
        chars: cs.len(),
        non_empty_lines: non_empty,
        top_word,
    })
}

proof fn lemma_occurrences_positive(t: Seq<Seq<char>>, u: Seq<char>)
    requires
        occurrences(t, u) > 0,
    ensures
        t.contains(u),
    decreases t.len(),
{
    if t.last() == u {
        assert(t[t.len() - 1] == u);
    } else {
        lemma_occurrences_positive(t.drop_last(), u);
        let j = choose|j: int| 0 <= j < t.drop_last().len() && t.drop_last()[j] == u;
        assert(t[j] == u);
    }
}

} // verus!
