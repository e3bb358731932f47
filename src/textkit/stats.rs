//! Line, word, character and byte counts of a text.
use vstd::prelude::*;
use crate::text::{chars_of, lines_of, split_lines, split_words, views, words_of};
use crate::textkit::errors::TextkitError;

verus! {

/// The counts of one text.
pub struct TextStats {
    pub lines: usize,
    pub words: usize,
    pub chars: usize,
    pub bytes: usize,
}

/// Counts the lines, whitespace-separated words, characters and UTF-8 bytes
/// of `text`. It never fails.
pub fn analyze(text: &str) -> (r: Result<TextStats, TextkitError>)
    ensures
        r is Ok,
        r matches Ok(s) && {
            &&& s.lines == lines_of(text@).len()
            &&& s.words == words_of(text@).len()
            &&& s.chars == text@.len()
            &&& s.bytes == text.len()
        },
{
    let cs = chars_of(text);
    let lines = split_lines(&cs);
    let words = split_words(&cs);
    let bytes = text.len();
    assert(views(lines@).len() == lines@.len());
    assert(views(words@).len() == words@.len());
    Ok(TextStats { lines: lines.len(), words: words.len(), chars: cs.len(), bytes })
}

} // verus!
