//! Memos: short texts that are pending or done, kept in order in a store.
use vstd::prelude::*;
use vstd::string::*;

use vstd::utf8::is_ascii_chars;

use crate::text::{ascii_lower, ascii_upper, contains_ignoring_case, lowercase, lowered, seq_contains};

verus! {

/// Whether a memo still has to be done.
#[derive(PartialEq, Eq, Structural, Clone, Copy, Debug)]
pub enum MemoStatus {
    Pending,
    Done,
}

/// The name a status is shown by.
pub open spec fn status_label(status: MemoStatus) -> Seq<char> {
    match status {
        MemoStatus::Pending => "Pending"@,
        MemoStatus::Done => "Done"@,
    }
}

impl MemoStatus {
    /// The name this status is shown by: `Pending` or `Done`.
    pub fn label(&self) -> (s: &'static str)
        ensures
            s@ == status_label(*self),
    {
        match self {
            MemoStatus::Pending => "Pending",
            MemoStatus::Done => "Done",
        }
    }
}

/// What a memo is: its text and its status.
pub struct MemoView {
    pub text: Seq<char>,
    pub status: MemoStatus,
}

/// A memo: a text and whether it is done.
#[derive(PartialEq, Debug, Clone)]
pub struct Memo {
    text: String,
    status: MemoStatus,
}

impl View for Memo {
    type V = MemoView;

    closed spec fn view(&self) -> MemoView {
        MemoView { text: self.text@, status: self.status }
    }
}

impl Memo {
    /// A memo with the given text and status.
    pub fn create(text: String, status: MemoStatus) -> (m: Self)
        ensures
            m@ == (MemoView { text: text@, status }),
    {
        Memo { text, status }
    }

    /// A pending memo with the given text.
    pub fn create_pending(text: String) -> (m: Self)
        ensures
            m@ == (MemoView { text: text@, status: MemoStatus::Pending }),
    {
        Memo { text, status: MemoStatus::Pending }
    }

    /// A done memo with the given text.
    pub fn create_done(text: String) -> (m: Self)
        ensures
            m@ == (MemoView { text: text@, status: MemoStatus::Done }),
    {
        Memo { text, status: MemoStatus::Done }
    }

    /// Marks the memo as done; its text stays.
    pub fn mark_as_done(&mut self)
        ensures
            final(self)@ == (MemoView { text: old(self)@.text, status: MemoStatus::Done }),
    {
        self.status = MemoStatus::Done;
    }

    fn is_pending(&self) -> (b: bool)
        ensures
            b == (self@.status == MemoStatus::Pending),
    {
        self.status == MemoStatus::Pending
    }

    /// The memo's text.
    pub fn text(&self) -> (t: &String)
        ensures
            t@ == self@.text,
    {
        &self.text
    }

    /// The memo's status.
    pub fn status(&self) -> (s: MemoStatus)
        ensures
            s == self@.status,
    {
        self.status
    }

    /// A memo equal to this one.
    fn duplicate(&self) -> (m: Self)
        ensures
            m@ == self@,
    {
        Memo { text: self.text.clone(), status: self.status }
    }

    /// How the memo is shown: `[<status>] - <text>`.
    pub fn to_string(&self) -> (s: String)
        ensures
            s@ == memo_line(self@),
            s@.len() == status_label(self@.status).len() + self@.text.len() + 5,
            s@.skip(s@.len() - self@.text.len()) == self@.text,
    {
        proof {
            lemma_memo_line_layout(self@);
        }
        let mut s = String::from_str("[");
        s.append(self.status.label());
        s.append("] - ");
        s.append(self.text.as_str());
        s
    }
}

/// How a memo is shown: `[<status>] - <text>`.
pub open spec fn memo_line(m: MemoView) -> Seq<char> {
    "["@ + status_label(m.status) + "] - "@ + m.text
}

/// What a sequence of memos is: the sequence of what each memo is.
pub open spec fn views(memos: Seq<Memo>) -> Seq<MemoView> {
    memos.map_values(|m: Memo| m@)
}

/// Whether marking by `pattern` turns the memo `m` done: `m` is pending and the
/// pattern occurs in its text when case is ignored (the lowercase mapping of the
/// pattern occurs in that of the text, both written out for ASCII text).
pub open spec fn is_marked_by(m: MemoView, pattern: Seq<char>) -> bool {
    m.status == MemoStatus::Pending && seq_contains(lowered(m.text), lowered(pattern))
}

/// The marking rule in terms of `str::to_lowercase`: `m` is pending and the lowercase
/// of the pattern occurs in the lowercase of its text.
pub open spec fn is_marked_by_lowercase(m: MemoView, pattern: Seq<char>) -> bool {
    m.status == MemoStatus::Pending && seq_contains(lowercase(m.text), lowercase(pattern))
}

/// The memo `m` after marking by `pattern`.
pub open spec fn marked(m: MemoView, pattern: Seq<char>) -> MemoView {
    if is_marked_by(m, pattern) {
        MemoView { text: m.text, status: MemoStatus::Done }
    } else {
        m
    }
}

/// The memos `s` after marking by `pattern`: each memo that `pattern` marks is done.
pub open spec fn mark_matching(s: Seq<MemoView>, pattern: Seq<char>) -> Seq<MemoView> {
    Seq::new(s.len(), |i: int| marked(s[i], pattern))
}

/// The memos of `s` that marking by `pattern` turns done, in order, as they are
/// afterwards.
pub open spec fn newly_done(s: Seq<MemoView>, pattern: Seq<char>) -> Seq<MemoView>
    decreases s.len(),
{
    if s.len() == 0 {
        Seq::empty()
    } else {
        let earlier = newly_done(s.drop_last(), pattern);
        if is_marked_by(s.last(), pattern) {
            earlier.push(marked(s.last(), pattern))
        } else {
            earlier
        }
    }
}

/// The pending memos of `s`, in order.
pub open spec fn pending_only(s: Seq<MemoView>) -> Seq<MemoView>
    decreases s.len(),
{
    if s.len() == 0 {
        Seq::empty()
    } else {
        let earlier = pending_only(s.drop_last());
        if s.last().status == MemoStatus::Pending {
            earlier.push(s.last())
        } else {
            earlier
        }
    }
}

/// The memo store: the memos, in the order they were added, and the path of the file
/// that keeps them.
pub struct Memos {
    file_path: String,
    memos: Vec<Memo>,
}

impl View for Memos {
    type V = Seq<MemoView>;

    closed spec fn view(&self) -> Seq<MemoView> {
        views(self.memos@)
    }
}

impl Memos {
    /// The path of the file that keeps the memos.
    pub closed spec fn path(&self) -> Seq<char> {
        self.file_path@
    }

    /// A store for the file at `file_path`, holding no memo yet.
    pub fn create(file_path: String) -> (r: Self)
        ensures
            r.path() == file_path@,
            r@ == Seq::<MemoView>::empty(),
    {
        let r = Memos { file_path, memos: Vec::new() };
        assert(r@ =~= Seq::<MemoView>::empty());
        r
    }

    /// The path of the file that keeps the memos.
    pub fn file_path(&self) -> (p: &String)
        ensures
            p@ == self.path(),
    {
        &self.file_path
    }

    /// Replaces the memos by those read from the file.
    pub fn load(&mut self, memos: Vec<Memo>)
        ensures
            final(self)@ == views(memos@),
            final(self).path() == old(self).path(),
    {
        self.memos = memos;
    }

    /// The memos, in order, as the file keeps them.
    pub fn memos(&self) -> (r: &Vec<Memo>)
        ensures
            views(r@) == self@,
    {
        &self.memos
    }

    /// Adds a pending memo with the given text after the others.
    pub fn add_pending(&mut self, text: String)
        ensures
            final(self)@ == old(self)@.push(MemoView { text: text@, status: MemoStatus::Pending }),
            final(self).path() == old(self).path(),
    {
        self.memos.push(Memo::create_pending(text));
        assert(views(self.memos@) =~= views(old(self).memos@).push(self.memos@.last()@));
    }

    /// Adds a done memo with the given text after the others.
    pub fn add_done(&mut self, text: String)
        ensures
            final(self)@ == old(self)@.push(MemoView { text: text@, status: MemoStatus::Done }),
            final(self).path() == old(self).path(),
    {
        self.memos.push(Memo::create_done(text));
        assert(views(self.memos@) =~= views(old(self).memos@).push(self.memos@.last()@));
    }

    /// Marks as done each pending memo whose text holds `match_text`, case ignored,
    /// and returns those memos, in order, as they are now.
    pub fn mark_as_done(&mut self, match_text: String) -> (r: Vec<Memo>)
        ensures
            final(self)@ == mark_matching(old(self)@, match_text@),
            views(r@) == newly_done(old(self)@, match_text@),
            forall|i: int|
                0 <= i < old(self)@.len() ==> (is_marked_by(#[trigger] old(self)@[i], match_text@)
                    == is_marked_by_lowercase(old(self)@[i], match_text@)),
            final(self).path() == old(self).path(),
    {
        let ghost before = self@;
        let ghost pattern = match_text@;
        let n = self.memos.len();
        let mut updated: Vec<Memo> = Vec::new();
        let mut done: Vec<Memo> = Vec::new();
        let mut i: usize = 0;
        while i < n
            invariant
                n == self.memos@.len(),
                before == views(self.memos@),
                pattern == match_text@,
                i <= n,
                views(updated@) == mark_matching(before.take(i as int), pattern),
                views(done@) == newly_done(before.take(i as int), pattern),
                forall|k: int|
                    0 <= k < i ==> (is_marked_by(#[trigger] before[k], pattern)
                        == is_marked_by_lowercase(before[k], pattern)),
            decreases n - i,
        {
            let memo = &self.memos[i];
            let next = if memo.is_pending() && contains_ignoring_case(
                memo.text.as_str(),
                match_text.as_str(),
            ) {
                let mut now_done = memo.duplicate();
                now_done.mark_as_done();
                done.push(now_done.duplicate());
                now_done
            } else {
                memo.duplicate()
            };
            proof {
                assert(before[i as int] == memo@);
                assert(next@ == marked(before[i as int], pattern));
                assert(before.take(i + 1).drop_last() =~= before.take(i as int));
                assert(mark_matching(before.take(i + 1), pattern) =~= mark_matching(
                    before.take(i as int),
                    pattern,
                ).push(next@));
            }
            updated.push(next);
            assert(views(updated@) =~= mark_matching(before.take(i + 1), pattern));
            assert(views(done@) =~= newly_done(before.take(i + 1), pattern));
            i = i + 1;
        }
        assert(before.take(n as int) =~= before);
        self.memos = updated;
        done
    }

    /// Removes the done memos; the pending ones stay, in order.
    pub fn purge_done(&mut self)
        ensures
            final(self)@ == pending_only(old(self)@),
            final(self).path() == old(self).path(),
    {
        let ghost before = self@;
        let n = self.memos.len();
        let mut kept: Vec<Memo> = Vec::new();
        let mut i: usize = 0;
        while i < n
            invariant
                n == self.memos@.len(),
                before == views(self.memos@),
                i <= n,
                views(kept@) == pending_only(before.take(i as int)),
            decreases n - i,
        {
            let memo = &self.memos[i];
            proof {
                assert(before[i as int] == memo@);
                assert(before.take(i + 1).drop_last() =~= before.take(i as int));
            }
            if memo.is_pending() {
                kept.push(memo.duplicate());
            }
            assert(views(kept@) =~= pending_only(before.take(i + 1)));
            i = i + 1;
        }
        assert(before.take(n as int) =~= before);
        self.memos = kept;
    }
}

/// Marking by `pattern` leaves no memo that `pattern` would still mark.
pub proof fn lemma_marked_memos_stay_marked(s: Seq<MemoView>, pattern: Seq<char>)
    ensures
        forall|i: int|
            0 <= i < s.len() ==> !is_marked_by(#[trigger] mark_matching(s, pattern)[i], pattern),
{
}

/// Marking memos of which `pattern` marks none turns none done.
pub proof fn lemma_nothing_to_mark(s: Seq<MemoView>, pattern: Seq<char>)
    requires
        forall|i: int| 0 <= i < s.len() ==> !is_marked_by(#[trigger] s[i], pattern),
    ensures
        newly_done(s, pattern) == Seq::<MemoView>::empty(),
        mark_matching(s, pattern) == s,
    decreases s.len(),
{
    if s.len() > 0 {
        lemma_nothing_to_mark(s.drop_last(), pattern);
    }
    assert(mark_matching(s, pattern) =~= s);
}

/// Marking twice by the same pattern is marking once: the second time changes no
/// memo and turns none done.
pub proof fn lemma_mark_twice(s: Seq<MemoView>, pattern: Seq<char>)
    ensures
        mark_matching(mark_matching(s, pattern), pattern) == mark_matching(s, pattern),
        newly_done(mark_matching(s, pattern), pattern) == Seq::<MemoView>::empty(),
{
    lemma_marked_memos_stay_marked(s, pattern);
    lemma_nothing_to_mark(mark_matching(s, pattern), pattern);
}

/// The memos that marking turns done are done, and marking keeps every text and
/// turns only pending memos done.
pub proof fn lemma_marking_only_finishes(s: Seq<MemoView>, pattern: Seq<char>)
    ensures
        forall|i: int|
            0 <= i < newly_done(s, pattern).len() ==> (#[trigger] newly_done(s, pattern)[i]).status
                == MemoStatus::Done,
        newly_done(s, pattern).len() <= s.len(),
        mark_matching(s, pattern).len() == s.len(),
        forall|i: int|
            0 <= i < s.len() ==> {
                &&& (#[trigger] mark_matching(s, pattern)[i]).text == s[i].text
                &&& mark_matching(s, pattern)[i] != s[i] ==> s[i].status == MemoStatus::Pending
                    && mark_matching(s, pattern)[i].status == MemoStatus::Done
            },
    decreases s.len(),
{
    if s.len() > 0 {
        lemma_marking_only_finishes(s.drop_last(), pattern);
    }
}

/// After purging, every memo left is pending, and was there before.
pub proof fn lemma_purge_leaves_pending(s: Seq<MemoView>)
    ensures
        forall|i: int|
            0 <= i < pending_only(s).len() ==> (#[trigger] pending_only(s)[i]).status
                == MemoStatus::Pending && s.contains(pending_only(s)[i]),
        pending_only(s).len() <= s.len(),
    decreases s.len(),
{
    if s.len() > 0 {
        lemma_purge_leaves_pending(s.drop_last());
        assert forall|i: int| 0 <= i < pending_only(s).len() implies s.contains(
            #[trigger] pending_only(s)[i],
        ) by {
            if i < pending_only(s.drop_last()).len() {
                let j = choose|j: int|
                    0 <= j < s.drop_last().len() && s.drop_last()[j] == pending_only(s)[i];
                assert(s[j] == pending_only(s)[i]);
            } else {
                assert(s[s.len() - 1] == pending_only(s)[i]);
            }
        }
    }
}

/// Purging keeps every pending memo: memos that are all pending are purged to
/// themselves.
pub proof fn lemma_purge_keeps_pending(s: Seq<MemoView>)
    requires
        forall|i: int| 0 <= i < s.len() ==> (#[trigger] s[i]).status == MemoStatus::Pending,
    ensures
        pending_only(s) == s,
    decreases s.len(),
{
    if s.len() > 0 {
        lemma_purge_keeps_pending(s.drop_last());
        assert(s.drop_last().push(s.last()) =~= s);
    }
}

/// Purging twice is purging once.
pub proof fn lemma_purge_twice(s: Seq<MemoView>)
    ensures
        pending_only(pending_only(s)) == pending_only(s),
{
    lemma_purge_leaves_pending(s);
    lemma_purge_keeps_pending(pending_only(s));
}

/// A memo added done is gone after a purge; one added pending stays, last.
pub proof fn lemma_purge_after_add(s: Seq<MemoView>, m: MemoView)
    ensures
        m.status == MemoStatus::Done ==> pending_only(s.push(m)) == pending_only(s),
        m.status == MemoStatus::Pending ==> pending_only(s.push(m)) == pending_only(s).push(m),
{
    assert(s.push(m).drop_last() =~= s);
}

/// After marking by `pattern` and purging, no memo is left that `pattern` marks.
pub proof fn lemma_purge_after_mark(s: Seq<MemoView>, pattern: Seq<char>)
    ensures
        forall|i: int|
            0 <= i < pending_only(mark_matching(s, pattern)).len() ==> !is_marked_by(
                #[trigger] pending_only(mark_matching(s, pattern))[i],
                pattern,
            ),
{
    lemma_purge_leaves_pending(mark_matching(s, pattern));
    lemma_marked_memos_stay_marked(s, pattern);
}

/// Marking ignores the case of ASCII letters in the pattern: two ASCII patterns that
/// differ only in the case of letters change the same memos and turn the same memos
/// done.
pub proof fn lemma_case_of_pattern_is_ignored(s: Seq<MemoView>, p: Seq<char>, q: Seq<char>)
    requires
        is_ascii_chars(p),
        is_ascii_chars(q),
        ascii_lower(p) == ascii_lower(q),
    ensures
        mark_matching(s, p) == mark_matching(s, q),
        newly_done(s, p) == newly_done(s, q),
    decreases s.len(),
{
    assert(lowered(p) == lowered(q));
    if s.len() > 0 {
        lemma_case_of_pattern_is_ignored(s.drop_last(), p, q);
    }
    assert(mark_matching(s, p) =~= mark_matching(s, q));
}

/// An ASCII pattern written in capitals and the same pattern in small letters mark the
/// same memos and turn the same memos done.
pub proof fn lemma_upper_and_lower_patterns_mark_alike(s: Seq<MemoView>, p: Seq<char>)
    requires
        is_ascii_chars(p),
    ensures
        mark_matching(s, ascii_upper(p)) == mark_matching(s, ascii_lower(p)),
        newly_done(s, ascii_upper(p)) == newly_done(s, ascii_lower(p)),
{
    assert(is_ascii_chars(ascii_upper(p)));
    assert(is_ascii_chars(ascii_lower(p)));
    assert(ascii_lower(ascii_upper(p)) =~= ascii_lower(ascii_lower(p)));
    lemma_case_of_pattern_is_ignored(s, ascii_upper(p), ascii_lower(p));
}

/// The shown line of a memo is `[`, the status name, `] - `, then the whole text:
/// it is five characters longer than the name and the text together, and it ends
/// with the text, none of it cut.
pub proof fn lemma_memo_line_layout(m: MemoView)
    ensures
        memo_line(m) == seq!['['] + status_label(m.status) + seq![']', ' ', '-', ' '] + m.text,
        memo_line(m).len() == status_label(m.status).len() + m.text.len() + 5,
        memo_line(m).skip(memo_line(m).len() - m.text.len()) == m.text,
        memo_line(m)[0] == '[',
        memo_line(m).subrange(1, 1 + status_label(m.status).len() as int) == status_label(m.status),
{
    reveal_strlit("[");
    reveal_strlit("] - ");
    let line = memo_line(m);
    assert(line =~= seq!['['] + status_label(m.status) + seq![']', ' ', '-', ' '] + m.text);
    assert(line.skip(line.len() - m.text.len()) =~= m.text);
    assert(line.subrange(1, 1 + status_label(m.status).len() as int) =~= status_label(m.status));
}

/// The status names are `Pending` and `Done`.
pub proof fn lemma_status_labels()
    ensures
        status_label(MemoStatus::Pending) == seq!['P', 'e', 'n', 'd', 'i', 'n', 'g'],
        status_label(MemoStatus::Done) == seq!['D', 'o', 'n', 'e'],
{
    reveal_strlit("Pending");
    reveal_strlit("Done");
    assert(status_label(MemoStatus::Pending) =~= seq!['P', 'e', 'n', 'd', 'i', 'n', 'g']);
    assert(status_label(MemoStatus::Done) =~= seq!['D', 'o', 'n', 'e']);
}

/// Two memos are shown alike only when they are alike: the shown line gives back
/// both the status and the whole text.
pub proof fn lemma_memo_line_is_faithful(m1: MemoView, m2: MemoView)
    requires
        memo_line(m1) == memo_line(m2),
    ensures
        m1 == m2,
{
    lemma_status_labels();
    lemma_memo_line_layout(m1);
    lemma_memo_line_layout(m2);
    let line = memo_line(m1);
    let sep = seq![']', ' ', '-', ' '];
    let label1 = status_label(m1.status);
    let label2 = status_label(m2.status);
    assert(line == seq!['['] + label1 + sep + m1.text);
    assert(line == seq!['['] + label2 + sep + m2.text);
    assert((seq!['['] + label1 + sep + m1.text)[1] == label1[0]);
    assert((seq!['['] + label2 + sep + m2.text)[1] == label2[0]);
    assert(m1.status == m2.status);
    assert(m1.text == line.skip(line.len() - m1.text.len()));
    assert(m2.text == line.skip(line.len() - m2.text.len()));
}

} // verus!
