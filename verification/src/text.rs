//! Character-level text facts shared by the counter and the memo search:
//! Unicode white space, words, lines and substring containment.
use vstd::prelude::*;
use vstd::std_specs::iter::IteratorSpec;
use vstd::utf8::is_ascii_chars;

verus! {

/// The characters that carry the Unicode `White_Space` property.
pub open spec fn is_white_space(c: char) -> bool {
    let u = c as u32;
    ||| 0x09 <= u <= 0x0d
    ||| u == 0x20
    ||| u == 0x85
    ||| u == 0xa0
    ||| u == 0x1680
    ||| 0x2000 <= u <= 0x200a
    ||| u == 0x2028
    ||| u == 0x2029
    ||| u == 0x202f
    ||| u == 0x205f
    ||| u == 0x3000
}

/// Position `i` of `s` holds the first character of a word: a character that
/// is not white space, at the start of the text or right after white space.
pub open spec fn starts_word(s: Seq<char>, i: int) -> bool {
    &&& 0 <= i < s.len()
    &&& !is_white_space(s[i])
    &&& (i == 0 || is_white_space(s[i - 1]))
}

/// The number of words of `s`: maximal runs of characters that are not white space.
pub open spec fn word_count(s: Seq<char>) -> nat
    decreases s.len(),
{
    if s.len() == 0 {
        0
    } else {
        word_count(s.drop_last()) + if starts_word(s, s.len() - 1) { 1nat } else { 0nat }
    }
}

/// Position `i` of `s` holds the first character of a line: the start of the
/// text, or the character right after a line feed.
pub open spec fn starts_line(s: Seq<char>, i: int) -> bool {
    &&& 0 <= i < s.len()
    &&& (i == 0 || s[i - 1] == '\n')
}

/// The number of lines of `s`, where a last line without a line feed still counts
/// and a text that ends in a line feed has no empty line after it.
pub open spec fn line_count(s: Seq<char>) -> nat
    decreases s.len(),
{
    if s.len() == 0 {
        0
    } else {
        line_count(s.drop_last()) + if starts_line(s, s.len() - 1) { 1nat } else { 0nat }
    }
}

/// `pattern` occurs in `text` as a contiguous run of characters.
pub open spec fn seq_contains(text: Seq<char>, pattern: Seq<char>) -> bool {
    exists|i: int| 0 <= i <= text.len() - pattern.len() && #[trigger] text.subrange(i, i + pattern.len()) == pattern
}

/// Whether `c` has the Unicode `White_Space` property, as `char::is_whitespace`
/// of std decides it.
pub(crate) fn char_is_whitespace(c: char) -> (b: bool)
    ensures
        b == is_white_space(c),
{
    let u = c as u32;
    (0x09 <= u && u <= 0x0d) || u == 0x20 || u == 0x85 || u == 0xa0 || u == 0x1680 || (0x2000
        <= u && u <= 0x200a) || u == 0x2028 || u == 0x2029 || u == 0x202f || u == 0x205f || u
        == 0x3000
}

/// The characters of a text, in order.
fn char_vec(text: &str) -> (v: Vec<char>)
    ensures
        v@ == text@,
{
    broadcast use vstd::string::group_string_axioms;
    let mut v: Vec<char> = Vec::new();
    for c in it: text.chars()
        invariant
            it.seq() == text@,
            0 <= it.index() <= text@.len(),
            v@ == text@.take(it.index()),
    {
        v.push(c);
        assert(v@ =~= text@.take(it.index() + 1));
    }
    assert(text@.take(text@.len() as int) =~= text@);
    v
}

/// Whether `pattern` occurs at position `at` of `text`.
fn occurs_at(text: &Vec<char>, pattern: &Vec<char>, at: usize) -> (b: bool)
    requires
        at + pattern@.len() <= text@.len(),
    ensures
        b == (text@.subrange(at as int, at + pattern@.len()) == pattern@),
{
    let text_len = text.len();
    let mut j: usize = 0;
    while j < pattern.len()
        invariant
            text_len == text@.len(),
            at + pattern@.len() <= text@.len(),
            j <= pattern@.len(),
            forall|k: int| 0 <= k < j ==> text@[at + k] == pattern@[k],
        decreases pattern@.len() - j,
    {
        if text[at + j] != pattern[j] {
            assert(text@.subrange(at as int, at + pattern@.len())[j as int] != pattern@[j as int]);
            return false;
        }
        j = j + 1;
    }
    assert(text@.subrange(at as int, at + pattern@.len()) =~= pattern@);
    true
}

/// Whether `pattern` occurs in `text` as a contiguous run of characters; the empty
/// pattern occurs in every text.
pub fn contains_text(text: &str, pattern: &str) -> (b: bool)
    ensures
        b == seq_contains(text@, pattern@),
{
    let t = char_vec(text);
    let p = char_vec(pattern);
    if p.len() > t.len() {
        return false;
    }
    let last = t.len() - p.len();
    let mut i: usize = 0;
    loop
        invariant
            t@ == text@,
            p@ == pattern@,
            last == t@.len() - p@.len(),
            i <= last,
            forall|k: int| 0 <= k < i ==> #[trigger] t@.subrange(k, k + p@.len()) != p@,
        decreases last - i,
    {
        if occurs_at(&t, &p, i) {
            return true;
        }
        if i == last {
            return false;
        }
        i = i + 1;
    }
}

/// `c` with an ASCII capital letter turned into its small letter.
pub open spec fn ascii_lower_char(c: char) -> char {
    if 'A' <= c <= 'Z' {
        ((c as u32) + 0x20) as char
    } else {
        c
    }
}

/// `c` with an ASCII small letter turned into its capital letter.
pub open spec fn ascii_upper_char(c: char) -> char {
    if 'a' <= c <= 'z' {
        ((c as u32) - 0x20) as char
    } else {
        c
    }
}

/// `s` with every ASCII capital letter lowered.
pub open spec fn ascii_lower(s: Seq<char>) -> Seq<char> {
    Seq::new(s.len(), |i: int| ascii_lower_char(s[i]))
}

/// `s` with every ASCII small letter raised.
pub open spec fn ascii_upper(s: Seq<char>) -> Seq<char> {
    Seq::new(s.len(), |i: int| ascii_upper_char(s[i]))
}

/// The lowercase mapping of a text, written out for ASCII text, where it lowers the
/// letters `A`-`Z` and keeps every other character.
pub open spec fn lowered(s: Seq<char>) -> Seq<char> {
    if is_ascii_chars(s) {
        ascii_lower(s)
    } else {
        lowercase(s)
    }
}

/// The text that `str::to_lowercase` of std gives for a text: its Unicode lowercase
/// mapping, character by character with the final-sigma rule, which depends on the
/// text alone.
pub uninterp spec fn lowercase(s: Seq<char>) -> Seq<char>;

/// `str::to_lowercase` of std. Its result is named, not described: the Unicode case
/// tables take pages to state. Of ASCII text the contract says what the Unicode
/// lowercase mapping gives there: each letter `A`-`Z` becomes `a`-`z`, every other
/// character stays.
#[verifier::external_body]
fn to_lowercase(text: &str) -> (r: String)
    ensures
        r@ == lowercase(text@),
        is_ascii_chars(text@) ==> r@ == ascii_lower(text@),
{
    text.to_lowercase()
}

/// Whether `pattern` occurs in `text` when case is ignored: the lowercase mapping of
/// the pattern occurs in the lowercase mapping of the text.
pub fn contains_ignoring_case(text: &str, pattern: &str) -> (b: bool)
    ensures
        b == seq_contains(lowercase(text@), lowercase(pattern@)),
        b == seq_contains(lowered(text@), lowered(pattern@)),
{
    let lower_text = to_lowercase(text);
    let lower_pattern = to_lowercase(pattern);
    contains_text(lower_text.as_str(), lower_pattern.as_str())
}

/// Counting a text is counting it line by line: when `first` is empty or ends in a
/// line feed, the lines and the words of `first + rest` are those of `first` plus
/// those of `rest`.
pub proof fn lemma_counts_add_up_by_lines(first: Seq<char>, rest: Seq<char>)
    requires
        first.len() == 0 || first.last() == '\n',
    ensures
        line_count(first + rest) == line_count(first) + line_count(rest),
        word_count(first + rest) == word_count(first) + word_count(rest),
    decreases rest.len(),
{
    if rest.len() == 0 {
        assert(first + rest =~= first);
    } else {
        lemma_counts_add_up_by_lines(first, rest.drop_last());
        assert((first + rest).drop_last() =~= first + rest.drop_last());
        let k = rest.len() - 1;
        assert((first + rest)[first.len() + k] == rest[k]);
        if k > 0 {
            assert((first + rest)[first.len() + k - 1] == rest[k - 1]);
        } else if first.len() > 0 {
            assert((first + rest)[first.len() - 1] == first.last());
        }
    }
}

/// The number of line feeds in `s`.
pub open spec fn line_feed_count(s: Seq<char>) -> nat
    decreases s.len(),
{
    if s.len() == 0 {
        0
    } else {
        line_feed_count(s.drop_last()) + if s.last() == '\n' { 1nat } else { 0nat }
    }
}

/// Each line feed ends one line, a blank line included, and only a line feed does
/// (a carriage return is an ordinary character); a last line without a line feed
/// counts once more.
pub proof fn lemma_lines_are_line_feeds(s: Seq<char>)
    ensures
        line_count(s) == line_feed_count(s) + if s.len() > 0 && s.last() != '\n' {
            1nat
        } else {
            0nat
        },
    decreases s.len(),
{
    if s.len() > 0 {
        lemma_lines_are_line_feeds(s.drop_last());
        if s.len() > 1 {
            assert(s.drop_last().last() == s[s.len() - 2]);
        }
    }
}

} // verus!
