//! What holds of the index operations taken together.

use crate::index::{
    add_change, first_newline, joined, lemma_first_newline, lines_of, listed, remove_change,
    rendered, strip_cr, without, IndexChange,
};
use crate::text::{
    is_whitespace, lemma_trim_end, lemma_trim_start, lemma_trimmed_fixed, trim_end, trim_start,
    trimmed,
};
use vstd::prelude::*;

verus! {

/// Whether `line` holds no line feed.
pub open spec fn is_one_line(line: Seq<char>) -> bool {
    forall|j: int| 0 <= j < line.len() ==> line[j] != '\n'
}

/// An account name that a line of the index can hold and give back: it has
/// no whitespace at either end and no line feed inside.
pub open spec fn is_plain(account: Seq<char>) -> bool {
    trimmed(account) == account && is_one_line(account)
}

/// Whether `text` is empty or ends with a line feed, so that what is
/// appended starts a line of its own.
pub open spec fn is_closed(text: Seq<char>) -> bool {
    text.len() == 0 || text.last() == '\n'
}

/// Whether position `k` of `text` starts a line after which nothing but
/// whitespace follows, and no further line feed.
pub open spec fn blank_from(text: Seq<char>, k: int) -> bool {
    &&& 0 <= k <= text.len()
    &&& k > 0 ==> text[k - 1] == '\n'
    &&& forall|j: int| k <= j < text.len() ==> is_whitespace(text[j]) && text[j] != '\n'
}

/// Whether all that follows the last line feed of `text` is whitespace; so it
/// is where the text is empty or ends with a line feed.
pub open spec fn ends_blank(text: Seq<char>) -> bool {
    exists|k: int| blank_from(text, k)
}

/// A text in the form in which the index is written: at least one line,
/// every line closed by a line feed, none by a carriage return and a line
/// feed.
pub open spec fn is_canonical(text: Seq<char>) -> bool {
    &&& text.len() > 0
    &&& text.last() == '\n'
    &&& forall|i: int| 0 < i < text.len() && #[trigger] text[i] == '\n' ==> text[i - 1] != '\r'
}

/// Whether a line of the file, if there is one, names `account`.
pub open spec fn holds(existing: Option<Seq<char>>, account: Seq<char>) -> bool {
    existing matches Some(text) && listed(lines_of(text), account)
}

/// Before the first line feed stands no line feed, and at it stands one
/// unless the text has none.
pub proof fn lemma_first_newline_found(text: Seq<char>)
    ensures
        first_newline(text) <= text.len(),
        forall|j: int| 0 <= j < first_newline(text) ==> text[j] != '\n',
        first_newline(text) < text.len() ==> text[first_newline(text) as int] == '\n',
    decreases text.len(),
{
    if text.len() == 0 || text.first() == '\n' {
    } else {
        let rest = text.drop_first();
        lemma_first_newline_found(rest);
        assert forall|j: int| 0 <= j < first_newline(text) implies text[j] != '\n' by {
            if j > 0 {
                assert(text[j] == rest[j - 1]);
            }
        }
    }
}

/// Behind a text that is empty or ends with a line feed, the lines of what
/// follows come after its own.
pub proof fn lemma_lines_concat(a: Seq<char>, b: Seq<char>)
    requires
        is_closed(a),
    ensures
        lines_of(a + b) == lines_of(a) + lines_of(b),
    decreases a.len(),
{
    if a.len() == 0 {
        assert(a + b =~= b);
        assert(lines_of(a) + lines_of(b) =~= lines_of(b));
    } else {
        lemma_first_newline_found(a);
        let n = first_newline(a) as int;
        assert(n < a.len()) by {
            if n >= a.len() {
                assert(a[a.len() - 1] != '\n');
            }
        }
        lemma_first_newline(a + b, n);
        assert((a + b).take(n) =~= a.take(n));
        assert((a + b).skip(n + 1) =~= a.skip(n + 1) + b);
        let rest = a.skip(n + 1);
        lemma_lines_concat(rest, b);
        assert(lines_of(a + b) =~= seq![strip_cr(a.take(n))] + (lines_of(rest) + lines_of(b)));
        assert(lines_of(a) =~= seq![strip_cr(a.take(n))] + lines_of(rest));
    }
}

/// A text without line feed, closed by one, is a single line.
pub proof fn lemma_single_line(line: Seq<char>)
    requires
        is_one_line(line),
    ensures
        lines_of(line.push('\n')) == seq![strip_cr(line)],
{
    let text = line.push('\n');
    lemma_first_newline(text, line.len() as int);
    assert(text.take(line.len() as int) =~= line);
    assert(text.skip(line.len() as int + 1) =~= Seq::<char>::empty());
    assert(lines_of(text) =~= seq![strip_cr(line)] + lines_of(Seq::<char>::empty()));
}

/// Whitespace in front of a text is trimmed away with the text's own.
pub proof fn lemma_trim_start_blank_prefix(blank: Seq<char>, rest: Seq<char>)
    requires
        forall|i: int| 0 <= i < blank.len() ==> is_whitespace(blank[i]),
    ensures
        trim_start(blank + rest) == trim_start(rest),
    decreases blank.len(),
{
    if blank.len() == 0 {
        assert(blank + rest =~= rest);
    } else {
        assert((blank + rest).drop_first() =~= blank.drop_first() + rest);
        lemma_trim_start_blank_prefix(blank.drop_first(), rest);
    }
}

/// Adding an account that the index holds by then changes nothing: after one
/// `index_add` a second one leaves the file as it is, so no line is written
/// twice.
///
/// This holds where the account is already named, and else for every plain
/// account name and every file, absent or present, in which nothing but
/// whitespace follows the last line feed.
pub proof fn lemma_index_add_idempotent(existing: Option<Seq<char>>, account: Seq<char>)
    requires
        !holds(existing, account) ==> is_plain(account) && (existing matches Some(text)
            ==> ends_blank(text)),
    ensures
        ({
            let once = add_change(existing, account).applied(existing);
            let twice = add_change(once, account).applied(once);
            &&& holds(once, account)
            &&& add_change(once, account) == IndexChange::Unchanged
            &&& twice == once
        }),
{
    if !holds(existing, account) {
        let text = match existing {
            Some(text) => text,
            None => Seq::empty(),
        };
        assert(ends_blank(text)) by {
            if existing is None {
                assert(blank_from(text, 0));
            }
        }
        let entry = account.push('\n');
        let after = text + entry;
        assert(add_change(existing, account).applied(existing) == Some(after)) by {
            if existing is None {
                assert(text + entry =~= entry);
            }
        }
        let k = choose|k: int| blank_from(text, k);
        let closed = text.take(k);
        let blank = text.skip(k);
        let last = blank + account;
        assert(after =~= closed + last.push('\n'));
        lemma_lines_concat(closed, last.push('\n'));
        lemma_single_line(last);
        lemma_trimmed_fixed(account);
        let line = strip_cr(last);
        let lead = if account.len() > 0 {
            blank
        } else {
            strip_cr(blank)
        };
        assert(line =~= lead + account);
        lemma_trim_start_blank_prefix(lead, account);
        lemma_trim_start(account);
        lemma_trim_end(account);
        assert(trimmed(line) == account);
        let lines = lines_of(after);
        assert(lines =~= lines_of(closed).push(line));
        assert(trimmed(lines[lines.len() - 1]) == account);
    }
}

/// With every line kept, nothing is filtered out.
pub proof fn lemma_without_unlisted(lines: Seq<Seq<char>>, account: Seq<char>)
    requires
        !listed(lines, account),
    ensures
        without(lines, account) == lines,
    decreases lines.len(),
{
    let keep = |line: Seq<char>| trimmed(line) != account;
    if lines.len() > 0 {
        let front = lines.drop_last();
        assert forall|i: int| 0 <= i < front.len() implies trimmed(#[trigger] front[i])
            != account by {
            assert(front[i] == lines[i]);
        }
        lemma_without_unlisted(front, account);
        assert(trimmed(lines[lines.len() - 1]) != account);
        assert(front.push(lines.last()) =~= lines);
        front.lemma_filter_push(lines.last(), keep);
    } else {
        lines.lemma_filter_len(keep);
        assert(lines.filter(keep) =~= lines);
    }
}

/// Joining starts with the first line.
pub proof fn lemma_joined_first(line: Seq<char>, more: Seq<Seq<char>>)
    requires
        more.len() > 0,
    ensures
        joined(seq![line] + more) == line + seq!['\n'] + joined(more),
    decreases more.len(),
{
    let all = seq![line] + more;
    assert(all.drop_last() =~= seq![line] + more.drop_last());
    assert(all.last() == more.last());
    if more.len() == 1 {
        assert(all.drop_last() =~= seq![line]);
        assert(joined(all.drop_last()) == line);
        assert(joined(more) == more.last());
    } else {
        lemma_joined_first(line, more.drop_last());
        assert(joined(all) =~= line + seq!['\n'] + (joined(more.drop_last()) + seq!['\n']
            + more.last()));
    }
}

/// A canonical text is what its own lines render to.
pub proof fn lemma_canonical_round_trip(text: Seq<char>)
    requires
        is_canonical(text),
    ensures
        lines_of(text).len() > 0,
        rendered(lines_of(text)) == text,
    decreases text.len(),
{
    lemma_first_newline_found(text);
    let n = first_newline(text) as int;
    assert(n < text.len()) by {
        if n >= text.len() {
            assert(text[text.len() - 1] != '\n');
        }
    }
    let head = text.take(n);
    let rest = text.skip(n + 1);
    assert(strip_cr(head) == head) by {
        if n > 0 {
            assert(head.last() == text[n - 1]);
        }
    }
    if rest.len() == 0 {
        assert(lines_of(rest) =~= Seq::<Seq<char>>::empty());
        assert(lines_of(text) =~= seq![head]);
        assert(head + seq!['\n'] =~= text);
    } else {
        assert(is_canonical(rest)) by {
            assert(rest.last() == text.last());
            assert forall|i: int| 0 < i < rest.len() && #[trigger] rest[i] == '\n' implies rest[i
                - 1] != '\r' by {
                assert(rest[i] == text[n + 1 + i]);
                assert(rest[i - 1] == text[n + i]);
            }
        }
        lemma_canonical_round_trip(rest);
        lemma_joined_first(head, lines_of(rest));
        assert(head + seq!['\n'] + joined(lines_of(rest)) + seq!['\n'] =~= head + seq!['\n'] + (
        joined(lines_of(rest)) + seq!['\n']));
        assert(head + seq!['\n'] + rest =~= text);
    }
}

/// Removing an account that no line names leaves the file as it is: an
/// absent file stays absent, and a canonical one is written back unchanged.
pub proof fn lemma_index_remove_unlisted(existing: Option<Seq<char>>, account: Seq<char>)
    requires
        !holds(existing, account),
        existing matches Some(text) ==> is_canonical(text),
    ensures
        remove_change(existing, account).applied(existing) == existing,
{
    if let Some(text) = existing {
        lemma_without_unlisted(lines_of(text), account);
        lemma_canonical_round_trip(text);
    }
}

/// No line of a text holds a line feed.
pub proof fn lemma_lines_are_single(text: Seq<char>)
    ensures
        forall|i: int| 0 <= i < lines_of(text).len() ==> is_one_line(#[trigger] lines_of(text)[i]),
    decreases text.len(),
{
    lemma_first_newline_found(text);
    let n = first_newline(text) as int;
    if text.len() == 0 {
    } else if n >= text.len() {
        assert(is_one_line(text));
    } else {
        let head = strip_cr(text.take(n));
        let rest = text.skip(n + 1);
        assert(is_one_line(head));
        lemma_lines_are_single(rest);
        assert forall|i: int| 0 <= i < lines_of(text).len() implies is_one_line(
            #[trigger] lines_of(text)[i],
        ) by {
            if i > 0 {
                assert(lines_of(text)[i] == lines_of(rest)[i - 1]);
            }
        }
    }
}

/// Whitespace at the end of a text does not change what it trims to.
pub proof fn lemma_trimmed_push_blank(text: Seq<char>, c: char)
    requires
        is_whitespace(c),
    ensures
        trimmed(text.push(c)) == trimmed(text),
    decreases text.len(),
{
    let longer = text.push(c);
    if text.len() > 0 && is_whitespace(text.first()) {
        assert(longer.drop_first() =~= text.drop_first().push(c));
        lemma_trimmed_push_blank(text.drop_first(), c);
    } else if text.len() > 0 {
        assert(trim_start(longer) == longer);
        assert(longer.drop_last() =~= text);
    } else {
        assert(text =~= Seq::<char>::empty());
        assert(longer.drop_first() =~= text);
        assert(trim_start(text) == text);
        assert(trim_start(longer) == text);
    }
}

/// A carriage return that goes with the line feed would have been trimmed
/// away anyhow.
pub proof fn lemma_trimmed_strip_cr(line: Seq<char>)
    ensures
        trimmed(strip_cr(line)) == trimmed(line),
{
    if line.len() > 0 && line.last() == '\r' {
        assert(line =~= line.drop_last().push('\r'));
        lemma_trimmed_push_blank(line.drop_last(), '\r');
    }
}

/// Rendered lines are read back as they were, but for a carriage return at
/// the end of a line.
pub proof fn lemma_lines_of_rendered(lines: Seq<Seq<char>>)
    requires
        lines.len() > 0,
        forall|i: int| 0 <= i < lines.len() ==> is_one_line(#[trigger] lines[i]),
    ensures
        lines_of(rendered(lines)) == lines.map_values(|line: Seq<char>| strip_cr(line)),
    decreases lines.len(),
{
    let read = lines.map_values(|line: Seq<char>| strip_cr(line));
    let first = lines[0];
    let more = lines.drop_first();
    assert(is_one_line(first));
    lemma_single_line(first);
    if more.len() == 0 {
        assert(rendered(lines) =~= first.push('\n'));
        assert(read =~= seq![strip_cr(first)]);
    } else {
        assert(lines =~= seq![first] + more);
        lemma_joined_first(first, more);
        assert(rendered(lines) =~= first.push('\n') + rendered(more));
        lemma_lines_concat(first.push('\n'), rendered(more));
        assert forall|i: int| 0 <= i < more.len() implies is_one_line(#[trigger] more[i]) by {
            assert(more[i] == lines[i + 1]);
        }
        lemma_lines_of_rendered(more);
        assert(read =~= seq![strip_cr(first)] + more.map_values(
            |line: Seq<char>| strip_cr(line),
        ));
    }
}

/// Among the lines that are kept when `account` is taken out, every other
/// account is named as before, and `account` no more.
pub proof fn lemma_without_listed(lines: Seq<Seq<char>>, account: Seq<char>, other: Seq<char>)
    ensures
        listed(without(lines, account), other) <==> other != account && listed(lines, other),
    decreases lines.len(),
{
    let keep = |line: Seq<char>| trimmed(line) != account;
    if lines.len() == 0 {
        lines.lemma_filter_len(keep);
    } else {
        let front = lines.drop_last();
        let last = lines.last();
        assert(front.push(last) =~= lines);
        front.lemma_filter_push(last, keep);
        lemma_without_listed(front, account, other);
        let kept = without(lines, account);
        let kept_front = without(front, account);
        if listed(kept, other) {
            let i = choose|i: int| 0 <= i < kept.len() && trimmed(#[trigger] kept[i]) == other;
            if i < kept_front.len() {
                assert(trimmed(kept_front[i]) == other);
                let k = choose|k: int|
                    0 <= k < front.len() && trimmed(#[trigger] front[k]) == other;
                assert(trimmed(lines[k]) == other);
            } else {
                assert(trimmed(lines[lines.len() - 1]) == other);
            }
        }
        if other != account && listed(lines, other) {
            let k = choose|k: int| 0 <= k < lines.len() && trimmed(#[trigger] lines[k]) == other;
            if k < front.len() {
                assert(trimmed(front[k]) == other);
                let i = choose|i: int|
                    0 <= i < kept_front.len() && trimmed(#[trigger] kept_front[i]) == other;
                assert(trimmed(kept[i]) == other);
            } else {
                assert(trimmed(kept[kept.len() - 1]) == other);
            }
        }
    }
}

/// Whether no two of `lines` name the same account.
pub open spec fn is_distinct(lines: Seq<Seq<char>>) -> bool {
    forall|i: int, j: int|
        0 <= i < j < lines.len() ==> trimmed(#[trigger] lines[i]) != trimmed(#[trigger] lines[j])
}

/// Whether no account is named twice in the file, if there is one.
pub open spec fn names_once(existing: Option<Seq<char>>) -> bool {
    existing matches Some(text) ==> is_distinct(lines_of(text))
}

/// Taking an account out of lines that name no account twice leaves lines
/// that name no account twice.
pub proof fn lemma_without_distinct(lines: Seq<Seq<char>>, account: Seq<char>)
    requires
        is_distinct(lines),
    ensures
        is_distinct(without(lines, account)),
    decreases lines.len(),
{
    let keep = |line: Seq<char>| trimmed(line) != account;
    if lines.len() == 0 {
        lines.lemma_filter_len(keep);
    } else {
        let front = lines.drop_last();
        let last = lines.last();
        assert(front.push(last) =~= lines);
        front.lemma_filter_push(last, keep);
        assert(is_distinct(front)) by {
            assert forall|i: int, j: int| 0 <= i < j < front.len() implies trimmed(
                #[trigger] front[i],
            ) != trimmed(#[trigger] front[j]) by {
                assert(front[i] == lines[i] && front[j] == lines[j]);
            }
        }
        lemma_without_distinct(front, account);
        let kept_front = without(front, account);
        let kept = without(lines, account);
        if keep(last) {
            lemma_without_listed(front, account, trimmed(last));
            assert(!listed(front, trimmed(last))) by {
                if listed(front, trimmed(last)) {
                    let k = choose|k: int|
                        0 <= k < front.len() && trimmed(#[trigger] front[k]) == trimmed(last);
                    assert(trimmed(lines[k]) != trimmed(lines[lines.len() - 1]));
                }
            }
            assert forall|i: int, j: int| 0 <= i < j < kept.len() implies trimmed(
                #[trigger] kept[i],
            ) != trimmed(#[trigger] kept[j]) by {
                if j < kept_front.len() {
                    assert(kept[i] == kept_front[i] && kept[j] == kept_front[j]);
                } else {
                    assert(kept[i] == kept_front[i]);
                    assert(kept[j] == last);
                    if trimmed(kept_front[i]) == trimmed(last) {
                        assert(listed(kept_front, trimmed(last)));
                    }
                }
            }
        }
    }
}

/// `index_remove` leaves a file that names no account twice, if the file
/// named none twice before. A file that it wrote ends with a line feed.
pub proof fn lemma_index_remove_keeps_form(existing: Option<Seq<char>>, account: Seq<char>)
    ensures
        ({
            let after = remove_change(existing, account).applied(existing);
            &&& after is Some == existing is Some
            &&& existing is Some ==> is_closed(after->0)
            &&& names_once(existing) ==> names_once(after)
        }),
{
    if let Some(text) = existing {
        let kept = without(lines_of(text), account);
        let read = lines_of(rendered(kept));
        assert(rendered(kept).last() == '\n');
        if names_once(existing) {
            lemma_without_distinct(lines_of(text), account);
            if kept.len() == 0 {
                lemma_single_line(Seq::<char>::empty());
                assert(rendered(kept) =~= Seq::<char>::empty().push('\n'));
            } else {
                lemma_lines_are_single(text);
                let keep = |line: Seq<char>| trimmed(line) != account;
                assert forall|i: int| 0 <= i < kept.len() implies is_one_line(
                    #[trigger] kept[i],
                ) by {
                    lines_of(text).lemma_filter_contains_rev(keep, kept[i]);
                    let k = choose|k: int|
                        0 <= k < lines_of(text).len() && lines_of(text)[k] == kept[i];
                    assert(is_one_line(lines_of(text)[k]));
                }
                lemma_lines_of_rendered(kept);
                assert forall|i: int, j: int| 0 <= i < j < read.len() implies trimmed(
                    #[trigger] read[i],
                ) != trimmed(#[trigger] read[j]) by {
                    lemma_trimmed_strip_cr(kept[i]);
                    lemma_trimmed_strip_cr(kept[j]);
                }
            }
        }
    }
}

/// After `index_remove` the file names every other account that it named
/// before, and the removed one no more. (Of the empty name this does not
/// hold: a file from which the last line was taken holds one empty line.)
pub proof fn lemma_index_remove_listing(
    existing: Option<Seq<char>>,
    account: Seq<char>,
    other: Seq<char>,
)
    requires
        other.len() > 0,
    ensures
        ({
            let after = remove_change(existing, account).applied(existing);
            holds(after, other) <==> other != account && holds(existing, other)
        }),
{
    if let Some(text) = existing {
        let kept = without(lines_of(text), account);
        let read = lines_of(rendered(kept));
        lemma_without_listed(lines_of(text), account, other);
        if kept.len() == 0 {
            lemma_single_line(Seq::<char>::empty());
            assert(rendered(kept) =~= Seq::<char>::empty().push('\n'));
            assert(trim_start(Seq::<char>::empty()) =~= Seq::<char>::empty());
            assert(trim_end(Seq::<char>::empty()) =~= Seq::<char>::empty());
            assert(!listed(read, other)) by {
                if listed(read, other) {
                    let i = choose|i: int|
                        0 <= i < read.len() && trimmed(#[trigger] read[i]) == other;
                    assert(read[i] =~= Seq::<char>::empty());
                }
            }
        } else {
            lemma_lines_are_single(text);
            let keep = |line: Seq<char>| trimmed(line) != account;
            assert forall|i: int| 0 <= i < kept.len() implies is_one_line(#[trigger] kept[i]) by {
                lines_of(text).lemma_filter_contains_rev(keep, kept[i]);
                let k = choose|k: int|
                    0 <= k < lines_of(text).len() && lines_of(text)[k] == kept[i];
                assert(is_one_line(lines_of(text)[k]));
            }
            lemma_lines_of_rendered(kept);
            assert forall|i: int| 0 <= i < kept.len() implies trimmed(#[trigger] read[i])
                == trimmed(kept[i]) by {
                lemma_trimmed_strip_cr(kept[i]);
            }
            if listed(read, other) {
                let i = choose|i: int| 0 <= i < read.len() && trimmed(#[trigger] read[i]) == other;
                assert(trimmed(kept[i]) == other);
            }
            if listed(kept, other) {
                let i = choose|i: int| 0 <= i < kept.len() && trimmed(#[trigger] kept[i]) == other;
                assert(trimmed(read[i]) == other);
            }
        }
    }
}

/// After `index_add` on a file that is absent, empty or closed by a line
/// feed, a plain account that was not named yet is the last line, behind
/// the lines that were there; so the file names what it named before, and
/// the account.
pub proof fn lemma_index_add_listing(
    existing: Option<Seq<char>>,
    account: Seq<char>,
    other: Seq<char>,
)
    requires
        is_plain(account),
        existing matches Some(text) ==> is_closed(text),
    ensures
        ({
            let before = match existing {
                Some(text) => lines_of(text),
                None => Seq::empty(),
            };
            let after = add_change(existing, account).applied(existing);
            &&& after is Some
            &&& is_closed(after->0)
            &&& lines_of(after->0) == if holds(existing, account) {
                before
            } else {
                before.push(account)
            }
            &&& holds(after, other) <==> other == account || holds(existing, other)
            &&& names_once(existing) ==> names_once(after)
        }),
{
    let text = match existing {
        Some(text) => text,
        None => Seq::empty(),
    };
    let before = lines_of(text);
    if !holds(existing, account) {
        let entry = account.push('\n');
        assert(add_change(existing, account).applied(existing) == Some(text + entry)) by {
            if existing is None {
                assert(text + entry =~= entry);
            }
        }
        lemma_lines_concat(text, entry);
        lemma_single_line(account);
        lemma_trimmed_fixed(account);
        let after = lines_of(text + entry);
        assert(after =~= before.push(account));
        assert(trimmed(after[after.len() - 1]) == account);
        assert((text + entry).last() == '\n');
        if names_once(existing) {
            assert forall|i: int, j: int| 0 <= i < j < after.len() implies trimmed(
                #[trigger] after[i],
            ) != trimmed(#[trigger] after[j]) by {
                assert(after[i] == before[i]);
                if j < before.len() {
                    assert(after[j] == before[j]);
                }
            }
        }
        if listed(before, other) {
            let i = choose|i: int| 0 <= i < before.len() && trimmed(#[trigger] before[i]) == other;
            assert(trimmed(after[i]) == other);
        }
        if listed(after, other) && other != account {
            let i = choose|i: int| 0 <= i < after.len() && trimmed(#[trigger] after[i]) == other;
            assert(trimmed(before[i]) == other);
        }
    }
}

} // verus!
