//! The account index: a text file that holds one account name per line, in
//! the order in which the accounts were added.
//!
//! The functions here never touch the file. They are handed its present
//! content (or `None` when there is no file yet) and answer with the
//! [`IndexUpdate`] that the caller has to carry out.

use crate::text::{append_chars, chars_of, range_equals, string_of, trim_bounds, trimmed};
use vstd::prelude::*;

verus! {

/// Position of the first line feed in `text`, or its length if it has none.
pub open spec fn first_newline(text: Seq<char>) -> nat
    decreases text.len(),
{
    if text.len() == 0 || text.first() == '\n' {
        0
    } else {
        1 + first_newline(text.drop_first())
    }
}

/// A line as it is read: a carriage return before the line feed goes with it.
pub open spec fn strip_cr(line: Seq<char>) -> Seq<char> {
    if line.len() > 0 && line.last() == '\r' {
        line.drop_last()
    } else {
        line
    }
}

/// The lines of `text`. Each ends at a line feed, which is not part of it,
/// nor is a carriage return just before that line feed. What follows the last
/// line feed is a line of its own unless it is empty.
pub open spec fn lines_of(text: Seq<char>) -> Seq<Seq<char>>
    decreases text.len(),
{
    let n = first_newline(text) as int;
    if text.len() == 0 {
        Seq::empty()
    } else if n >= text.len() {
        seq![text]
    } else {
        seq![strip_cr(text.take(n))] + lines_of(text.skip(n + 1))
    }
}

/// Whether one of `lines` is `account` once trimmed.
pub open spec fn listed(lines: Seq<Seq<char>>, account: Seq<char>) -> bool {
    exists|i: int| 0 <= i < lines.len() && trimmed(#[trigger] lines[i]) == account
}

/// `lines` without those that are `account` once trimmed.
pub open spec fn without(lines: Seq<Seq<char>>, account: Seq<char>) -> Seq<Seq<char>> {
    lines.filter(|line: Seq<char>| trimmed(line) != account)
}

/// `lines` with a line feed between each two.
pub open spec fn joined(lines: Seq<Seq<char>>) -> Seq<char>
    decreases lines.len(),
{
    if lines.len() == 0 {
        Seq::empty()
    } else if lines.len() == 1 {
        lines[0]
    } else {
        joined(lines.drop_last()) + seq!['\n'] + lines.last()
    }
}

/// The file content that holds `lines`: joined, then one closing line feed.
pub open spec fn rendered(lines: Seq<Seq<char>>) -> Seq<char> {
    joined(lines) + seq!['\n']
}

/// What is to be done to the index file.
#[derive(Debug, Clone, PartialEq, Eq)]
pub enum IndexUpdate {
    /// Nothing: the file stays as it is, or stays absent.
    Unchanged,
    /// Append this text, creating the file if there is none.
    Append(String),
    /// Replace the whole content with this text.
    Rewrite(String),
}

/// An [`IndexUpdate`] with its texts as sequences of characters.
pub enum IndexChange {
    Unchanged,
    Append(Seq<char>),
    Rewrite(Seq<char>),
}

impl View for IndexUpdate {
    type V = IndexChange;

    open spec fn view(&self) -> IndexChange {
        match self {
            IndexUpdate::Unchanged => IndexChange::Unchanged,
            IndexUpdate::Append(text) => IndexChange::Append(text@),
            IndexUpdate::Rewrite(text) => IndexChange::Rewrite(text@),
        }
    }
}

impl IndexChange {
    /// The content of the file, if any, once the change is carried out on a
    /// file that held `existing`.
    pub open spec fn applied(self, existing: Option<Seq<char>>) -> Option<Seq<char>> {
        match self {
            IndexChange::Unchanged => existing,
            IndexChange::Append(text) => match existing {
                Some(before) => Some(before + text),
                None => Some(text),
            },
            IndexChange::Rewrite(text) => Some(text),
        }
    }
}

/// The content of a file as characters, `None` for a file that is not there.
pub open spec fn content_of(existing: Option<&str>) -> Option<Seq<char>> {
    match existing {
        Some(text) => Some(text@),
        None => None,
    }
}

/// The views of a vector's strings.
pub open spec fn texts_of(strings: Seq<String>) -> Seq<Seq<char>> {
    strings.map_values(|s: String| s@)
}

/// What adding `account` does: nothing where a line already names it, else
/// one more line at the end.
pub open spec fn add_change(existing: Option<Seq<char>>, account: Seq<char>) -> IndexChange {
    if existing matches Some(text) && listed(lines_of(text), account) {
        IndexChange::Unchanged
    } else {
        IndexChange::Append(account.push('\n'))
    }
}

/// What removing `account` does: an absent file stays absent, a present one
/// is written anew from the lines that do not name the account.
pub open spec fn remove_change(existing: Option<Seq<char>>, account: Seq<char>) -> IndexChange {
    match existing {
        Some(text) => IndexChange::Rewrite(rendered(without(lines_of(text), account))),
        None => IndexChange::Unchanged,
    }
}

/// What listing shows: the lines as they are, or one line that says that
/// there is no account yet.
pub open spec fn listing(existing: Option<Seq<char>>) -> Seq<Seq<char>> {
    match existing {
        Some(text) => lines_of(text),
        None => seq!["(no accounts)"@],
    }
}

/// The first line feed is where a line feed stands with none before it; a
/// text without line feed has it at its end.
pub proof fn lemma_first_newline(text: Seq<char>, k: int)
    requires
        0 <= k <= text.len(),
        forall|j: int| 0 <= j < k ==> text[j] != '\n',
        k < text.len() ==> text[k] == '\n',
    ensures
        first_newline(text) == k,
    decreases k,
{
    if k > 0 {
        lemma_first_newline(text.drop_first(), k - 1);
    }
}

/// The views of the lines of a split text.
spec fn views(lines: Seq<Vec<char>>) -> Seq<Seq<char>> {
    lines.map_values(|line: Vec<char>| line@)
}

/// Splits a text into its lines.
fn split_lines(text: &Vec<char>) -> (lines: Vec<Vec<char>>)
    ensures
        views(lines@) == lines_of(text@),
{
    let n = text.len();
    let mut lines: Vec<Vec<char>> = Vec::new();
    let mut current: Vec<char> = Vec::new();
    let mut i: usize = 0;
    let ghost mut start: int = 0;
    assert(text@.skip(0) =~= text@);
    assert(views(lines@) + lines_of(text@) =~= lines_of(text@));
    while i < n
        invariant
            0 <= start <= i <= n == text.len(),
            current@ == text@.subrange(start, i as int),
            forall|k: int| start <= k < i ==> text@[k] != '\n',
            lines_of(text@) == views(lines@) + lines_of(text@.skip(start)),
        decreases n - i,
    {
        let c = text[i];
        if c == '\n' {
            let ghost rest = text@.skip(start);
            let ghost before = views(lines@);
            let ghost line = current@;
            proof {
                lemma_first_newline(rest, i - start);
                assert(rest.take(i - start) =~= line);
                assert(rest.skip(i - start + 1) =~= text@.skip(i + 1));
            }
            let m = current.len();
            if m > 0 && current[m - 1] == '\r' {
                current.pop();
            }
            assert(current@ =~= strip_cr(line));
            lines.push(current);
            current = Vec::new();
            proof {
                start = i + 1;
                assert(views(lines@) =~= before.push(strip_cr(line)));
                assert(before.push(strip_cr(line)) + lines_of(text@.skip(start)) =~= before + (
                seq![strip_cr(line)] + lines_of(text@.skip(start))));
            }
        } else {
            current.push(c);
        }
        i += 1;
        assert(current@ =~= text@.subrange(start, i as int));
    }
    let ghost rest = text@.skip(start);
    let ghost before = views(lines@);
    proof {
        assert(rest =~= current@);
        lemma_first_newline(rest, rest.len() as int);
    }
    if current.len() > 0 {
        lines.push(current);
        assert(views(lines@) =~= before + seq![rest]);
    } else {
        assert(before + Seq::<Seq<char>>::empty() =~= before);
    }
    lines
}

/// Whether `line` is `account` once trimmed.
fn line_names(line: &Vec<char>, account: &Vec<char>) -> (named: bool)
    ensures
        named == (trimmed(line@) == account@),
{
    let (start, end) = trim_bounds(line);
    range_equals(line, start, end, account)
}

/// Whether one of `lines` names `account`.
fn any_line_names(lines: &Vec<Vec<char>>, account: &Vec<char>) -> (found: bool)
    ensures
        found == listed(views(lines@), account@),
{
    let mut i: usize = 0;
    while i < lines.len()
        invariant
            i <= lines.len(),
            forall|k: int| 0 <= k < i ==> trimmed(#[trigger] views(lines@)[k]) != account@,
        decreases lines.len() - i,
    {
        if line_names(&lines[i], account) {
            assert(trimmed(views(lines@)[i as int]) == account@);
            return true;
        }
        i += 1;
    }
    false
}

/// Decides what adding `account` does to an index file that holds
/// `existing`.
///
/// The account is appended as a line of its own unless a line of the file
/// already names it.
pub fn index_add(existing: Option<&str>, account: &str) -> (update: IndexUpdate)
    ensures
        update@ == add_change(content_of(existing), account@),
{
    let name = chars_of(account);
    if let Some(text) = existing {
        let lines = split_lines(&chars_of(text));
        if any_line_names(&lines, &name) {
            return IndexUpdate::Unchanged;
        }
    }
    let mut entry = account.to_owned();
    entry.push('\n');
    IndexUpdate::Append(entry)
}

/// Decides what removing `account` does to an index file that holds
/// `existing`.
///
/// A file that is there is written anew, from the lines that do not name the
/// account, each followed by a line feed; with no line left it holds one line
/// feed.
pub fn index_remove(existing: Option<&str>, account: &str) -> (update: IndexUpdate)
    ensures
        update@ == remove_change(content_of(existing), account@),
{
    match existing {
        None => IndexUpdate::Unchanged,
        Some(text) => {
            let name = chars_of(account);
            let lines = split_lines(&chars_of(text));
            let ghost all = views(lines@);
            let ghost keep = |line: Seq<char>| trimmed(line) != account@;
            let mut out = String::new();
            let ghost mut kept: Seq<Seq<char>> = Seq::empty();
            let mut first = true;
            let mut i: usize = 0;
            assert(all.take(0) =~= Seq::<Seq<char>>::empty());
            while i < lines.len()
                invariant
                    i <= lines.len(),
                    all == views(lines@),
                    keep == (|line: Seq<char>| trimmed(line) != account@),
                    name@ == account@,
                    kept == all.take(i as int).filter(keep),
                    out@ == joined(kept),
                    first == (kept.len() == 0),
                decreases lines.len() - i,
            {
                proof {
                    assert(all.take(i + 1) =~= all.take(i as int).push(all[i as int]));
                    all.take(i as int).lemma_filter_push(all[i as int], keep);
                }
                if !line_names(&lines[i], &name) {
                    let ghost before = kept;
                    if !first {
                        out.push('\n');
                    }
                    append_chars(&mut out, &lines[i]);
                    first = false;
                    proof {
                        kept = kept.push(all[i as int]);
                        assert(kept.drop_last() =~= before);
                        assert(before.len() > 0 ==> out@ =~= joined(before) + seq!['\n']
                            + all[i as int]);
                        assert(before.len() == 0 ==> out@ =~= all[i as int]);
                    }
                }
                i += 1;
            }
            assert(all.take(lines.len() as int) =~= all);
            out.push('\n');
            assert(out@ =~= rendered(kept));
            IndexUpdate::Rewrite(out)
        },
    }
}

/// The lines to show for an index file that holds `existing`: its lines as
/// they are, untrimmed, or a single line that says that there are none when
/// the file is not there.
pub fn list_accounts(existing: Option<&str>) -> (shown: Vec<String>)
    ensures
        texts_of(shown@) == listing(content_of(existing)),
{
    let mut shown: Vec<String> = Vec::new();
    match existing {
        None => {
            shown.push("(no accounts)".to_owned());
            assert(texts_of(shown@) =~= seq!["(no accounts)"@]);
        },
        Some(text) => {
            let lines = split_lines(&chars_of(text));
            let mut i: usize = 0;
            while i < lines.len()
                invariant
                    i <= lines.len(),
                    texts_of(shown@) == views(lines@).take(i as int),
                decreases lines.len() - i,
            {
                let ghost before = texts_of(shown@);
                shown.push(string_of(&lines[i]));
                assert(texts_of(shown@) =~= before.push(lines@[i as int]@));
                assert(views(lines@).take(i + 1) =~= views(lines@).take(i as int).push(
                    lines@[i as int]@,
                ));
                i += 1;
            }
            assert(views(lines@).take(lines.len() as int) =~= views(lines@));
        },
    }
    shown
}

} // verus!
