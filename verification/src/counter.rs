//! Counting the lines and the words of a text read from a buffered reader.
use std::io::BufRead;

use vstd::prelude::*;
use vstd::std_specs::iter::IteratorSpec;
use vstd::slice::spec_slice_len;
use vstd::utf8::encode_utf8;

use crate::text::{
    char_is_whitespace, is_white_space, lemma_lines_are_line_feeds, line_count, line_feed_count,
    word_count,
};

verus! {

#[verifier::external_type_specification]
#[verifier::external_body]
pub struct ExIoError(std::io::Error);

/// How many lines and how many words a text holds.
#[derive(Debug)]
pub struct CountOutput {
    pub lines: usize,
    pub words: usize,
}

impl Default for CountOutput {
    fn default() -> (r: Self)
        ensures
            r.lines == 0,
            r.words == 0,
    {
        CountOutput { lines: 0, words: 0 }
    }
}

/// Why counting failed.
#[derive(Debug)]
pub enum CountError {
    /// The reader reported an error, or what it gave was not UTF-8.
    Read(std::io::Error),
}

/// A text has at least as many bytes in UTF-8 as it has characters.
proof fn lemma_chars_fit_in_bytes(chars: Seq<char>)
    ensures
        chars.len() <= encode_utf8(chars).len(),
    decreases chars.len(),
{
    if chars.len() > 0 {
        lemma_chars_fit_in_bytes(chars.drop_first());
    }
}

/// The counts of a text: its lines, as a reader hands them out line by line
/// (a last line without a line feed counts), and its words, the runs of
/// characters that are not Unicode white space.
pub fn count_text(text: &str) -> (r: CountOutput)
    ensures
        r.lines == line_count(text@),
        r.words == word_count(text@),
        r.lines == line_feed_count(text@) + if text@.len() > 0 && text@.last() != '\n' {
            1nat
        } else {
            0nat
        },
{
    proof {
        lemma_lines_are_line_feeds(text@);
    }
    broadcast use vstd::string::group_string_axioms;

    // The counters stay below the number of characters, which the UTF-8 bytes of the
    // text bound; a slice of bytes has at most `usize::MAX` elements.
    let bytes = text.as_bytes();
    proof {
        broadcast use vstd::slice::group_slice_axioms;

        lemma_chars_fit_in_bytes(text@);
        assert(spec_slice_len(bytes) == bytes@.len());
    }
    let mut output = CountOutput::default();
    let mut after_line_feed = true;
    let mut after_white_space = true;
    for c in it: text.chars()
        invariant
            text@.len() <= bytes@.len() <= usize::MAX,
            it.seq() == text@,
            0 <= it.index() <= text@.len(),
            output.lines <= it.index(),
            output.words <= it.index(),
            output.lines == line_count(text@.take(it.index())),
            output.words == word_count(text@.take(it.index())),
            after_line_feed == (it.index() == 0 || text@[it.index() - 1] == '\n'),
            after_white_space == (it.index() == 0 || is_white_space(text@[it.index() - 1])),
    {
        let ghost i = it.index();
        assert(text@.take(i + 1).drop_last() =~= text@.take(i));
        if after_line_feed {
            output.lines = output.lines + 1;
        }
        let white = char_is_whitespace(c);
        if !white && after_white_space {
            output.words = output.words + 1;
        }
        after_line_feed = c == '\n';
        after_white_space = white;
    }
    assert(text@.take(text@.len() as int) =~= text@);
    output
}

/// `Read::read_to_string` of std on the reader: the rest of the stream as text, or
/// the error that stopped the read (invalid UTF-8 among them). What the stream holds
/// is outside the library, so no clause speaks of the text.
#[verifier::external_body]
fn read_all<R: BufRead>(reader: &mut R) -> (r: Result<String, std::io::Error>) {
    let mut text = String::new();
    std::io::Read::read_to_string(reader, &mut text).map(|_| text)
}

/// What counting gives for the outcome of reading a stream: the counts of the text
/// read, or `CountError::Read` with the reader's error.
pub fn counts_of_read(read: Result<String, std::io::Error>) -> (r: Result<CountOutput, CountError>)
    ensures
        read is Ok <==> r is Ok,
        read matches Ok(text) ==> (r matches Ok(output) && output.lines == line_count(text@)
            && output.words == word_count(text@)),
        read matches Err(e) ==> (r matches Err(CountError::Read(err)) && err == e),
{
    match read {
        Ok(text) => {
            let output = count_text(text.as_str());
            Ok(output)
        },
        Err(e) => Err(CountError::Read(e)),
    }
}

/// Counts the lines and the words of everything the reader holds.
///
/// Fails with `CountError::Read` when the reader fails; on success the counts are
/// those of `count_text` on some text, the one the reader gave.
pub fn count<R: BufRead>(mut reader: R) -> (r: Result<CountOutput, CountError>)
    ensures
        r matches Ok(output) ==> exists|text: Seq<char>|
            output.lines == line_count(text) && output.words == word_count(text),
{
    counts_of_read(read_all(&mut reader))
}

} // verus!
