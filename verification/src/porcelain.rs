//! Reading `git status --porcelain=v2 --branch`.

use crate::status::{RepoStatus, StatusView};
use crate::text::{
    chars_of, decimal, decimal_reads_back, find, has_prefix, lemma_run_len, lines, lines_of,
    lines_of_two_parts, number, other_than, parse_number, part, part_string, same_text, strip_cr,
    texts, trim, trim_bounds, words, words_of,
};
use vstd::prelude::*;

verus! {

/// Header with the name of the checked out branch.
pub const HEAD: &'static str = "# branch.head ";

/// Header with the name of the upstream branch.
pub const UPSTREAM: &'static str = "# branch.upstream ";

/// Header with the commits ahead and behind.
pub const AHEAD_BEHIND: &'static str = "# branch.ab ";

/// What stands for the branch name when no branch is checked out.
pub const DETACHED: &'static str = "(detached)";

// ---------------------------------------------------------------------------
// Specification
// ---------------------------------------------------------------------------

/// The effect of one word of the ahead/behind header: `+<ahead>` or `-<behind>`,
/// where what is no number counts as 0.
pub open spec fn with_count(st: StatusView, word: Seq<char>) -> StatusView {
    if word.len() > 0 && word[0] == '+' {
        StatusView { ahead: count_or_zero(word.skip(1)), ..st }
    } else if word.len() > 0 && word[0] == '-' {
        StatusView { behind: count_or_zero(word.skip(1)), ..st }
    } else {
        st
    }
}

/// The number that `s` denotes, 0 if it denotes none.
pub open spec fn count_or_zero(s: Seq<char>) -> nat {
    match number(s) {
        Some(n) => n,
        None => 0,
    }
}

/// The effect of the words of the ahead/behind header, from first to last.
pub open spec fn with_counts(st: StatusView, ws: Seq<Seq<char>>) -> StatusView
    decreases ws.len(),
{
    if ws.len() == 0 {
        st
    } else {
        with_count(with_counts(st, ws.drop_last()), ws.last())
    }
}

/// The code at place `i` of the two-character code of an entry, `.` (unchanged)
/// where the entry has none.
pub open spec fn change_code(line: Seq<char>, i: int) -> char {
    let ws = words(line);
    if ws.len() > 1 && ws[1].len() > i {
        ws[1][i]
    } else {
        '.'
    }
}

/// 1 for a change, 0 for none.
pub open spec fn one_if(changed: bool) -> nat {
    if changed {
        1
    } else {
        0
    }
}

/// The line is an entry for a tracked file that changed or was renamed.
pub open spec fn is_change(line: Seq<char>) -> bool {
    "1 "@.is_prefix_of(line) || "2 "@.is_prefix_of(line)
}

/// The effect of one line.
pub open spec fn with_line(st: StatusView, line: Seq<char>) -> StatusView {
    if HEAD@.is_prefix_of(line) {
        let v = trim(line.skip(HEAD@.len() as int));
        if v == DETACHED@ {
            StatusView { detached: true, branch: None, ..st }
        } else {
            StatusView { branch: Some(v), ..st }
        }
    } else if UPSTREAM@.is_prefix_of(line) {
        StatusView { has_upstream: true, ..st }
    } else if AHEAD_BEHIND@.is_prefix_of(line) {
        with_counts(st, words(line.skip(AHEAD_BEHIND@.len() as int)))
    } else if is_change(line) {
        StatusView {
            staged: st.staged + one_if(change_code(line, 0) != '.'),
            unstaged: st.unstaged + one_if(change_code(line, 1) != '.'),
            ..st
        }
    } else if "u "@.is_prefix_of(line) {
        StatusView { conflicts: st.conflicts + 1, ..st }
    } else if "? "@.is_prefix_of(line) {
        StatusView { untracked: st.untracked + 1, ..st }
    } else {
        st
    }
}

/// The effect of the lines, from first to last.
pub open spec fn with_lines(st: StatusView, ls: Seq<Seq<char>>) -> StatusView
    decreases ls.len(),
{
    if ls.len() == 0 {
        st
    } else {
        with_line(with_lines(st, ls.drop_last()), ls.last())
    }
}

/// What the output of `git status` makes of a status.
pub open spec fn with_report(st: StatusView, report: Seq<char>) -> StatusView {
    with_lines(st, lines(report))
}

/// The counts of entries can be held.
pub open spec fn counts_fit(st: StatusView) -> bool {
    &&& st.staged <= usize::MAX
    &&& st.unstaged <= usize::MAX
    &&& st.untracked <= usize::MAX
    &&& st.conflicts <= usize::MAX
}

// ---------------------------------------------------------------------------
// Lemmas
// ---------------------------------------------------------------------------

/// The header words touch `ahead` and `behind` only.
pub proof fn lemma_counts_frame(st: StatusView, ws: Seq<Seq<char>>)
    ensures
        with_counts(st, ws) == (StatusView {
            ahead: with_counts(st, ws).ahead,
            behind: with_counts(st, ws).behind,
            ..st
        }),
    decreases ws.len(),
{
    if ws.len() > 0 {
        lemma_counts_frame(st, ws.drop_last());
    }
}

/// No line takes an entry back.
pub proof fn lemma_counts_grow(st: StatusView, ls: Seq<Seq<char>>, n: int)
    requires
        0 <= n <= ls.len(),
    ensures
        with_lines(st, ls.take(n)).staged <= with_lines(st, ls).staged,
        with_lines(st, ls.take(n)).unstaged <= with_lines(st, ls).unstaged,
        with_lines(st, ls.take(n)).untracked <= with_lines(st, ls).untracked,
        with_lines(st, ls.take(n)).conflicts <= with_lines(st, ls).conflicts,
    decreases ls.len(),
{
    if n == ls.len() {
        assert(ls.take(n) == ls);
    } else {
        lemma_counts_grow(st, ls.drop_last(), n);
        assert(ls.drop_last().take(n) == ls.take(n));
        let before = with_lines(st, ls.drop_last());
        lemma_counts_frame(before, words(ls.last().skip(AHEAD_BEHIND@.len() as int)));
    }
}

/// The number of characters in all pieces together.
pub open spec fn size(pieces: Seq<Seq<char>>) -> nat
    decreases pieces.len(),
{
    if pieces.len() == 0 {
        0
    } else {
        size(pieces.drop_last()) + pieces.last().len()
    }
}

/// A further piece in front adds its length.
proof fn lemma_size_front(piece: Seq<char>, pieces: Seq<Seq<char>>)
    ensures
        size(seq![piece] + pieces) == piece.len() + size(pieces),
    decreases pieces.len(),
{
    reveal_with_fuel(size, 2);
    let all = seq![piece] + pieces;
    if pieces.len() == 0 {
        assert(all.drop_last() == Seq::<Seq<char>>::empty());
        assert(all.last() == piece);
    } else {
        assert(all.last() == pieces.last());
        assert(all.drop_last() == seq![piece] + pieces.drop_last());
        lemma_size_front(piece, pieces.drop_last());
    }
}

/// The lines of a text have no more characters than the text.
proof fn lemma_lines_size(s: Seq<char>)
    ensures
        size(lines(s)) <= s.len(),
    decreases s.len(),
{
    if s.len() > 0 {
        let n = find(s, '\n');
        lemma_run_len(s, other_than('\n'));
        if n < s.len() {
            lemma_lines_size(s.skip(n + 1));
            lemma_size_front(strip_cr(s.take(n)), lines(s.skip(n + 1)));
        } else {
            lemma_size_front(s, seq![]);
            assert(seq![s] + Seq::<Seq<char>>::empty() == seq![s]);
        }
    }
}

/// The lines add no more entries than they have characters.
proof fn lemma_lines_total(st: StatusView, ls: Seq<Seq<char>>)
    ensures
        with_lines(st, ls).total() <= st.total() + size(ls),
    decreases ls.len(),
{
    if ls.len() > 0 {
        lemma_lines_total(st, ls.drop_last());
        let before = with_lines(st, ls.drop_last());
        lemma_counts_frame(before, words(ls.last().skip(AHEAD_BEHIND@.len() as int)));
        reveal_strlit("1 ");
        reveal_strlit("2 ");
        reveal_strlit("u ");
        reveal_strlit("? ");
    }
}

/// The lines touch neither the identity of the repository nor its flags.
proof fn lemma_lines_frame(st: StatusView, ls: Seq<Seq<char>>)
    ensures
        with_lines(st, ls).name == st.name,
        with_lines(st, ls).path == st.path,
        with_lines(st, ls).dirty == st.dirty,
        with_lines(st, ls).fetch_error == st.fetch_error,
        with_lines(st, ls).error == st.error,
    decreases ls.len(),
{
    if ls.len() > 0 {
        lemma_lines_frame(st, ls.drop_last());
        lemma_counts_frame(
            with_lines(st, ls.drop_last()),
            words(ls.last().skip(AHEAD_BEHIND@.len() as int)),
        );
    }
}

/// A report says nothing on the name and path of the repository, and leaves
/// alone what is known of failures.
pub proof fn report_frame(st: StatusView, report: Seq<char>)
    ensures
        with_report(st, report).name == st.name,
        with_report(st, report).path == st.path,
        with_report(st, report).dirty == st.dirty,
        with_report(st, report).fetch_error == st.fetch_error,
        with_report(st, report).error == st.error,
{
    lemma_lines_frame(st, lines(report));
}

/// A report adds no more entries than it has characters.
pub proof fn report_total_is_bounded(st: StatusView, report: Seq<char>)
    ensures
        with_report(st, report).total() <= st.total() + report.len(),
{
    lemma_lines_size(report);
    lemma_lines_total(st, lines(report));
}

// ---------------------------------------------------------------------------
// Laws
// ---------------------------------------------------------------------------

/// How many of the lines are as described.
pub open spec fn how_many(ls: Seq<Seq<char>>, p: spec_fn(Seq<char>) -> bool) -> nat
    decreases ls.len(),
{
    if ls.len() == 0 {
        0
    } else {
        how_many(ls.drop_last(), p) + one_if(p(ls.last()))
    }
}

/// An entry with a change in the index.
pub open spec fn is_staged(line: Seq<char>) -> bool {
    is_change(line) && change_code(line, 0) != '.'
}

/// An entry with a change in the work tree.
pub open spec fn is_unstaged(line: Seq<char>) -> bool {
    is_change(line) && change_code(line, 1) != '.'
}

/// A header or an entry starts with a character that tells which it is.
proof fn lemma_kinds(line: Seq<char>)
    ensures
        HEAD@.is_prefix_of(line) || UPSTREAM@.is_prefix_of(line) || AHEAD_BEHIND@.is_prefix_of(line)
            ==> line[0] == '#',
        is_change(line) ==> line[0] == '1' || line[0] == '2',
        "u "@.is_prefix_of(line) ==> line[0] == 'u',
        "? "@.is_prefix_of(line) ==> line[0] == '?',
        "! "@.is_prefix_of(line) ==> line[0] == '!',
{
    reveal_strlit("# branch.head ");
    reveal_strlit("# branch.upstream ");
    reveal_strlit("# branch.ab ");
    reveal_strlit("1 ");
    reveal_strlit("2 ");
    reveal_strlit("u ");
    reveal_strlit("? ");
    reveal_strlit("! ");
    assert(HEAD@[0] == '#' && UPSTREAM@[0] == '#' && AHEAD_BEHIND@[0] == '#');
    assert("1 "@[0] == '1' && "2 "@[0] == '2' && "u "@[0] == 'u');
    assert("? "@[0] == '?' && "! "@[0] == '!');
    assert(HEAD@.is_prefix_of(line) ==> line[0] == HEAD@[0]);
    assert(UPSTREAM@.is_prefix_of(line) ==> line[0] == UPSTREAM@[0]);
    assert(AHEAD_BEHIND@.is_prefix_of(line) ==> line[0] == AHEAD_BEHIND@[0]);
    assert("1 "@.is_prefix_of(line) ==> line[0] == "1 "@[0]);
    assert("2 "@.is_prefix_of(line) ==> line[0] == "2 "@[0]);
    assert("u "@.is_prefix_of(line) ==> line[0] == "u "@[0]);
    assert("? "@.is_prefix_of(line) ==> line[0] == "? "@[0]);
    assert("! "@.is_prefix_of(line) ==> line[0] == "! "@[0]);
}

/// The counts after a report are those before it plus the number of entries of
/// each kind, wherever in the report they stand.
pub proof fn entries_are_counted(st: StatusView, ls: Seq<Seq<char>>)
    ensures
        with_lines(st, ls).staged == st.staged + how_many(ls, |l: Seq<char>| is_staged(l)),
        with_lines(st, ls).unstaged == st.unstaged + how_many(ls, |l: Seq<char>| is_unstaged(l)),
        with_lines(st, ls).conflicts == st.conflicts + how_many(
            ls,
            |l: Seq<char>| "u "@.is_prefix_of(l),
        ),
        with_lines(st, ls).untracked == st.untracked + how_many(
            ls,
            |l: Seq<char>| "? "@.is_prefix_of(l),
        ),
    decreases ls.len(),
{
    if ls.len() > 0 {
        entries_are_counted(st, ls.drop_last());
        let before = with_lines(st, ls.drop_last());
        lemma_kinds(ls.last());
        lemma_counts_frame(before, words(ls.last().skip(AHEAD_BEHIND@.len() as int)));
    }
}

/// The branch has an upstream after a report if it had one before or the report
/// names one.
pub proof fn upstream_is_seen(st: StatusView, ls: Seq<Seq<char>>)
    ensures
        with_lines(st, ls).has_upstream <==> st.has_upstream || how_many(
            ls,
            |l: Seq<char>| UPSTREAM@.is_prefix_of(l),
        ) > 0,
    decreases ls.len(),
{
    if ls.len() > 0 {
        upstream_is_seen(st, ls.drop_last());
        let line = ls.last();
        let before = with_lines(st, ls.drop_last());
        lemma_counts_frame(before, words(line.skip(AHEAD_BEHIND@.len() as int)));
        reveal_strlit("# branch.head ");
        reveal_strlit("# branch.upstream ");
        if HEAD@.is_prefix_of(line) && UPSTREAM@.is_prefix_of(line) {
            assert(line[9] == HEAD@[9]);
            assert(line[9] == UPSTREAM@[9]);
        }
    }
}

/// A line on an ignored file changes nothing.
pub proof fn ignored_files_do_not_count(st: StatusView, line: Seq<char>)
    requires
        "! "@.is_prefix_of(line),
    ensures
        with_line(st, line) == st,
{
    lemma_kinds(line);
}

/// Lines are read one after the other: those of a report in two parts have the
/// effect of the first part and then of the second.
pub proof fn lines_are_read_in_turn(st: StatusView, first: Seq<Seq<char>>, later: Seq<Seq<char>>)
    ensures
        with_lines(st, first + later) == with_lines(with_lines(st, first), later),
    decreases later.len(),
{
    if later.len() == 0 {
        assert(first + later == first);
    } else {
        lines_are_read_in_turn(st, first, later.drop_last());
        assert((first + later).drop_last() == first + later.drop_last());
    }
}

/// A report can be read in two parts, cut at the end of a line: it has the effect
/// of the first part and then of the second.
pub proof fn report_is_read_part_by_part(st: StatusView, first: Seq<char>, later: Seq<char>)
    requires
        first.len() == 0 || first.last() == '\n',
    ensures
        with_report(st, first + later) == with_report(with_report(st, first), later),
{
    lines_of_two_parts(first, later);
    lines_are_read_in_turn(st, lines(first), lines(later));
}

/// Whether a fetch failed makes no difference to what a report says.
pub proof fn report_ignores_failures(st: StatusView, failed: bool, ls: Seq<Seq<char>>)
    ensures
        with_lines(StatusView { fetch_error: failed, ..st }, ls) == (StatusView {
            fetch_error: failed,
            ..with_lines(st, ls)
        }),
    decreases ls.len(),
{
    if ls.len() > 0 {
        report_ignores_failures(st, failed, ls.drop_last());
        let before = with_lines(st, ls.drop_last());
        lemma_counts_ignore_failures(
            before,
            failed,
            words(ls.last().skip(AHEAD_BEHIND@.len() as int)),
        );
    }
}

proof fn lemma_counts_ignore_failures(st: StatusView, failed: bool, ws: Seq<Seq<char>>)
    ensures
        with_counts(StatusView { fetch_error: failed, ..st }, ws) == (StatusView {
            fetch_error: failed,
            ..with_counts(st, ws)
        }),
    decreases ws.len(),
{
    if ws.len() > 0 {
        lemma_counts_ignore_failures(st, failed, ws.drop_last());
    }
}

/// The ahead/behind header `+<a> -<b>` gives back the two numbers that it was
/// written with.
pub proof fn counts_read_back(st: StatusView, a: nat, b: nat)
    requires
        a <= usize::MAX,
        b <= usize::MAX,
    ensures
        with_counts(st, seq![seq!['+'] + decimal(a), seq!['-'] + decimal(b)]) == (StatusView {
            ahead: a,
            behind: b,
            ..st
        }),
{
    let plus = seq!['+'] + decimal(a);
    let minus = seq!['-'] + decimal(b);
    let ws = seq![plus, minus];
    decimal_reads_back(a);
    decimal_reads_back(b);
    assert(plus.skip(1) == decimal(a));
    assert(minus.skip(1) == decimal(b));
    assert(ws.drop_last() == seq![plus]);
    assert(seq![plus].drop_last() == Seq::<Seq<char>>::empty());
    assert(with_counts(st, seq![plus].drop_last()) == st);
    assert(with_counts(st, seq![plus]) == with_count(st, plus));
}

// ---------------------------------------------------------------------------
// Executable version
// ---------------------------------------------------------------------------

/// Applies the words of the ahead/behind header.
fn apply_counts(st: &mut RepoStatus, ws: &Vec<Vec<char>>)
    ensures
        final(st)@ == with_counts(old(st)@, texts(ws@)),
{
    let mut i: usize = 0;
    let ghost all = texts(ws@);
    while i < ws.len()
        invariant
            i <= ws@.len(),
            all == texts(ws@),
            st@ == with_counts(old(st)@, all.take(i as int)),
        decreases ws@.len() - i,
    {
        let w = &ws[i];
        proof {
            assert(all.take(i + 1).drop_last() == all.take(i as int));
            assert(all.take(i + 1).last() == w@);
        }
        if w.len() > 0 && (w[0] == '+' || w[0] == '-') {
            let rest = part(w, 1, w.len());
            proof {
                assert(rest@ == w@.skip(1));
            }
            let n: usize = match parse_number(&rest) {
                Some(n) => n,
                None => 0,
            };
            if w[0] == '+' {
                st.ahead = n;
            } else {
                st.behind = n;
            }
        }
        i = i + 1;
    }
    proof {
        assert(all.take(i as int) == all);
    }
}

/// Applies one line.
fn apply_line(st: &mut RepoStatus, line: &Vec<char>)
    requires
        counts_fit(with_line(old(st)@, line@)),
    ensures
        final(st)@ == with_line(old(st)@, line@),
{
    if has_prefix(line, HEAD) {
        let n = HEAD.unicode_len();
        let (a, b) = trim_bounds(line, n);
        let v = part_string(line, a, b);
        if same_text(v.as_str(), DETACHED) {
            st.detached = true;
            st.branch = None;
        } else {
            st.branch = Some(v);
        }
    } else if has_prefix(line, UPSTREAM) {
        st.has_upstream = true;
    } else if has_prefix(line, AHEAD_BEHIND) {
        let n = AHEAD_BEHIND.unicode_len();
        let rest = part(line, n, line.len());
        proof {
            assert(rest@ == line@.skip(n as int));
        }
        let ws = words_of(&rest);
        apply_counts(st, &ws);
    } else if has_prefix(line, "1 ") || has_prefix(line, "2 ") {
        let ws = words_of(line);
        proof {
            assert(texts(ws@).len() == ws@.len());
            assert(ws@.len() > 1 ==> texts(ws@)[1] == ws@[1]@);
        }
        let staged = ws.len() > 1 && ws[1].len() > 0 && ws[1][0] != '.';
        let unstaged = ws.len() > 1 && ws[1].len() > 1 && ws[1][1] != '.';
        if staged {
            st.staged = st.staged + 1;
        }
        if unstaged {
            st.unstaged = st.unstaged + 1;
        }
    } else if has_prefix(line, "u ") {
        st.conflicts = st.conflicts + 1;
    } else if has_prefix(line, "? ") {
        st.untracked = st.untracked + 1;
    }
    // "! " entries are ignored files: they count for nothing.
}

/// Applies the lines of a report.
pub(crate) fn parse_report(report: &Vec<char>, st: &mut RepoStatus)
    requires
        counts_fit(with_report(old(st)@, report@)),
    ensures
        final(st)@ == with_report(old(st)@, report@),
{
    let ls = lines_of(report);
    let ghost all = lines(report@);
    let mut i: usize = 0;
    while i < ls.len()
        invariant
            i <= ls@.len(),
            texts(ls@) == all,
            counts_fit(with_lines(old(st)@, all)),
            st@ == with_lines(old(st)@, all.take(i as int)),
        decreases ls@.len() - i,
    {
        proof {
            assert(all.take(i + 1).drop_last() == all.take(i as int));
            assert(all.take(i + 1).last() == ls@[i as int]@);
            lemma_counts_grow(old(st)@, all, i + 1);
        }
        apply_line(st, &ls[i]);
        i = i + 1;
    }
    proof {
        assert(all.take(i as int) == all);
    }
}

/// Parse `git status --porcelain=v2 --branch` output into a RepoStatus. The
/// counts of entries have to fit, which they do in a status that counts none yet,
/// and wherever the text is no longer than what is left to count.
pub fn parse_porcelain_v2(text: &str, st: &mut RepoStatus)
    requires
        old(st)@.total() == 0 || old(st)@.total() + text@.len() <= usize::MAX || counts_fit(
            with_report(old(st)@, text@),
        ),
    ensures
        final(st)@ == with_report(old(st)@, text@),
{
    let report = chars_of(text);
    proof {
        assert(report@.len() == report.len());
        report_total_is_bounded(st@, text@);
    }
    parse_report(&report, st);
}

} // verus!
