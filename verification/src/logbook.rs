//! The logbook: messages recorded one per line in a file, read back whole.
use vstd::prelude::*;
use vstd::string::*;

verus! {

/// What reading the logbook gives, from what its file holds (`None`: no file):
/// nothing for a missing or empty file, else the whole text.
pub open spec fn logbook_read(file: Option<Seq<char>>) -> Option<Seq<char>> {
    match file {
        Some(text) => if text.len() == 0 {
            None
        } else {
            Some(text)
        },
        None => None,
    }
}

/// What recording `msg` appends to the file: the message and a line feed.
pub open spec fn entry_line(msg: Seq<char>) -> Seq<char> {
    msg.push('\n')
}

/// What the file holds once `msg` is recorded; a missing file is created first.
pub open spec fn logbook_append(file: Option<Seq<char>>, msg: Seq<char>) -> Option<Seq<char>> {
    let before = match file {
        Some(text) => text,
        None => Seq::empty(),
    };
    Some(before + entry_line(msg))
}

/// The logbook's content, from what its file holds (`None` when there is no file):
/// `None` for a missing or an empty file, else the whole text.
pub fn content(file_content: Option<String>) -> (r: Option<String>)
    ensures
        r.deep_view() == logbook_read(file_content.deep_view()),
{
    match file_content {
        Some(text) => if text.as_str().is_empty() {
            None
        } else {
            Some(text)
        },
        None => None,
    }
}

/// The text that recording `msg` appends to the logbook's file: the message and a
/// line feed.
pub fn entry(msg: &str) -> (r: String)
    ensures
        r@ == entry_line(msg@),
{
    let mut line = String::from_str(msg);
    line.append("\n");
    proof {
        reveal_strlit("\n");
    }
    line
}

/// Reading the logbook right after recording `msg` gives what it held before,
/// followed by the message and a line feed; a missing or empty logbook gives just
/// that line.
pub proof fn lemma_read_after_append(file: Option<Seq<char>>, msg: Seq<char>)
    ensures
        logbook_read(logbook_append(file, msg)) == Some(
            match file {
                Some(text) => text,
                None => Seq::<char>::empty(),
            } + msg.push('\n'),
        ),
{
}

/// Recorded messages accumulate in the order they were recorded: two records in a
/// row read back as the earlier content, the first message's line, then the second's.
pub proof fn lemma_appends_accumulate(file: Option<Seq<char>>, first: Seq<char>, second: Seq<char>)
    ensures
        logbook_read(logbook_append(logbook_append(file, first), second)) == Some(
            match file {
                Some(text) => text,
                None => Seq::<char>::empty(),
            } + first.push('\n') + second.push('\n'),
        ),
{
    let before = match file {
        Some(text) => text,
        None => Seq::<char>::empty(),
    };
    assert(before + first.push('\n') + second.push('\n') =~= (before + first.push('\n')) + second.push('\n'));
}

} // verus!
