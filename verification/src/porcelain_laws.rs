//! What each line of `git status --porcelain=v2 --branch` says, for every line
//! that there can be.

use crate::porcelain::{
    change_code, lemma_counts_frame, report_is_read_part_by_part, with_count, with_counts, with_line,
    with_lines, with_report, AHEAD_BEHIND, HEAD, UPSTREAM,
};
use crate::status::StatusView;
use crate::text::{
    decimal, decimal_reads_back, is_digit, is_space, lemma_decimal, lemma_run_len_is, lines, non_space,
    number, space, trim, trim_start, words,
};
use crate::text_laws::{
    ended_line_is_a_line, trimming_undoes_white_space, unbroken_text_is_a_word, unended_line_is_a_line,
    white_space_holds_no_word, white_space_separates_words,
};
use vstd::prelude::*;

verus! {

/// The headers differ from each other and from all entries, and so do the
/// entries: a line that starts as one of them starts as no other.
proof fn lemma_prefixes(line: Seq<char>)
    ensures
        HEAD@.len() == 14 && UPSTREAM@.len() == 18 && AHEAD_BEHIND@.len() == 12,
        "1 "@.len() == 2 && "2 "@.len() == 2 && "u "@.len() == 2 && "? "@.len() == 2,
        HEAD@.is_prefix_of(line) ==> line[0] == '#' && line[9] == 'h',
        UPSTREAM@.is_prefix_of(line) ==> line[0] == '#' && line[9] == 'u',
        AHEAD_BEHIND@.is_prefix_of(line) ==> line[0] == '#' && line[9] == 'a',
        "1 "@.is_prefix_of(line) <==> line.len() >= 2 && line[0] == '1' && line[1] == ' ',
        "2 "@.is_prefix_of(line) <==> line.len() >= 2 && line[0] == '2' && line[1] == ' ',
        "u "@.is_prefix_of(line) <==> line.len() >= 2 && line[0] == 'u' && line[1] == ' ',
        "? "@.is_prefix_of(line) <==> line.len() >= 2 && line[0] == '?' && line[1] == ' ',
{
    reveal_strlit("# branch.head ");
    reveal_strlit("# branch.upstream ");
    reveal_strlit("# branch.ab ");
    reveal_strlit("1 ");
    reveal_strlit("2 ");
    reveal_strlit("u ");
    reveal_strlit("? ");
    assert(HEAD@[0] == '#' && HEAD@[9] == 'h');
    assert(UPSTREAM@[0] == '#' && UPSTREAM@[9] == 'u');
    assert(AHEAD_BEHIND@[0] == '#' && AHEAD_BEHIND@[9] == 'a');
    assert(HEAD@.is_prefix_of(line) ==> line[0] == HEAD@[0] && line[9] == HEAD@[9]);
    assert(UPSTREAM@.is_prefix_of(line) ==> line[0] == UPSTREAM@[0] && line[9] == UPSTREAM@[9]);
    assert(AHEAD_BEHIND@.is_prefix_of(line) ==> line[0] == AHEAD_BEHIND@[0] && line[9]
        == AHEAD_BEHIND@[9]);
    lemma_two("1 "@, '1', line);
    lemma_two("2 "@, '2', line);
    lemma_two("u "@, 'u', line);
    lemma_two("? "@, '?', line);
}

/// What it is to start with a character and a blank.
proof fn lemma_two(prefix: Seq<char>, c: char, line: Seq<char>)
    requires
        prefix.len() == 2,
        prefix[0] == c,
        prefix[1] == ' ',
    ensures
        prefix.is_prefix_of(line) <==> line.len() >= 2 && line[0] == c && line[1] == ' ',
{
    if prefix.is_prefix_of(line) {
        assert(prefix[0] == line[0] && prefix[1] == line[1]);
    } else if line.len() >= 2 && line[0] == c && line[1] == ' ' {
        assert(prefix =~= line.subrange(0, 2));
    }
}

/// A text starts with what it was put together from.
proof fn lemma_front(prefix: Seq<char>, rest: Seq<char>)
    ensures
        prefix.is_prefix_of(prefix + rest),
        (prefix + rest).skip(prefix.len() as int) == rest,
{
    assert((prefix + rest).subrange(0, prefix.len() as int) == prefix);
}

/// A report of one line says what the line says, however the line ends.
pub proof fn report_of_one_line(st: StatusView, line: Seq<char>)
    requires
        !line.contains('\n'),
    ensures
        line.len() == 0 || line.last() != '\r' ==> with_report(st, line + seq!['\n']) == with_line(
            st,
            line,
        ),
        with_report(st, line + seq!['\r', '\n']) == with_line(st, line),
        line.len() > 0 ==> with_report(st, line) == with_line(st, line),
        with_report(st, seq![]) == st,
{
    ended_line_is_a_line(line);
    if line.len() > 0 {
        unended_line_is_a_line(line);
    }
    let one = seq![line];
    assert(one.drop_last() == Seq::<Seq<char>>::empty());
    assert(with_lines(st, one.drop_last()) == st);
    assert(with_lines(st, one) == with_line(st, line));
}

/// The header `# branch.head <name>` names the branch, trimmed; only the name
/// `(detached)` says that there is none. Nothing else is changed.
pub proof fn head_names_the_branch(st: StatusView, name: Seq<char>)
    ensures
        with_line(st, "# branch.head "@ + name) == if trim(name) == "(detached)"@ {
            StatusView { detached: true, branch: None, ..st }
        } else {
            StatusView { branch: Some(trim(name)), ..st }
        },
{
    lemma_front("# branch.head "@, name);
}

/// The header `# branch.upstream <name>` says that the branch has an upstream,
/// whatever its name, and nothing else.
pub proof fn upstream_header_says_so(st: StatusView, name: Seq<char>)
    ensures
        with_line(st, "# branch.upstream "@ + name) == (StatusView { has_upstream: true, ..st }),
{
    let line = "# branch.upstream "@ + name;
    lemma_front("# branch.upstream "@, name);
    lemma_prefixes(line);
}

/// The header `# branch.ab` is read word by word, from first to last: a further
/// word `+<n>` sets the commits ahead and `-<n>` those behind, to 0 where `<n>`
/// is no number; any other word says nothing.
pub proof fn ahead_behind_is_read_word_by_word(st: StatusView, text: Seq<char>, word: Seq<char>)
    requires
        word.len() > 0,
        forall|i: int| 0 <= i < word.len() ==> !is_space(#[trigger] word[i]),
    ensures
        ({
            let before = with_line(st, "# branch.ab "@ + text);
            let after = with_line(st, "# branch.ab "@ + (text + seq![' '] + word));
            let n: nat = match number(word.skip(1)) {
                Some(n) => n,
                None => 0,
            };
            &&& word[0] == '+' ==> after == (StatusView { ahead: n, ..before })
            &&& word[0] == '-' ==> after == (StatusView { behind: n, ..before })
            &&& word[0] != '+' && word[0] != '-' ==> after == before
            &&& (forall|i: int| 0 <= i < text.len() ==> is_space(#[trigger] text[i])) ==> before == st
        }),
{
    let more = text + seq![' '] + word;
    lemma_front("# branch.ab "@, text);
    lemma_front("# branch.ab "@, more);
    lemma_prefixes("# branch.ab "@ + text);
    lemma_prefixes("# branch.ab "@ + more);
    white_space_separates_words(text, ' ', word);
    unbroken_text_is_a_word(word);
    assert((words(text) + seq![word]).drop_last() == words(text));
    assert((words(text) + seq![word]).last() == word);
    if forall|i: int| 0 <= i < text.len() ==> is_space(#[trigger] text[i]) {
        white_space_holds_no_word(text);
    }
}

/// The header `# branch.ab +<a> -<b>` says that the branch is `a` commits ahead
/// and `b` behind, for all numbers that can be held, and nothing else.
pub proof fn ahead_and_behind_read_back(st: StatusView, a: nat, b: nat)
    requires
        a <= usize::MAX,
        b <= usize::MAX,
    ensures
        with_line(st, ahead_behind_line(a, b)) == (StatusView { ahead: a, behind: b, ..st }),
        !ahead_behind_line(a, b).contains('\n'),
        ahead_behind_line(a, b).last() != '\r',
{
    let plus = seq!['+'] + decimal(a);
    let minus = seq!['-'] + decimal(b);
    lemma_decimal(a);
    lemma_decimal(b);
    decimal_reads_back(a);
    decimal_reads_back(b);
    assert forall|i: int| 0 <= i < plus.len() implies !is_space(#[trigger] plus[i]) && plus[i] != '\n'
        by {
        if i > 0 {
            assert(is_digit(decimal(a)[i - 1]));
        }
    }
    assert forall|i: int| 0 <= i < minus.len() implies !is_space(#[trigger] minus[i]) && minus[i]
        != '\n' && minus[i] != '\r' by {
        if i > 0 {
            assert(is_digit(decimal(b)[i - 1]));
        }
    }
    let text = plus + seq![' '] + minus;
    reveal_strlit("# branch.ab ");
    reveal_strlit("# branch.ab +");
    reveal_strlit(" -");
    let line = ahead_behind_line(a, b);
    assert(line =~= "# branch.ab "@ + text);
    lemma_front("# branch.ab "@, text);
    lemma_prefixes(line);
    white_space_separates_words(plus, ' ', minus);
    unbroken_text_is_a_word(plus);
    unbroken_text_is_a_word(minus);
    let ws = seq![plus] + seq![minus];
    assert(ws.drop_last() == seq![plus]);
    assert(seq![plus].drop_last() == Seq::<Seq<char>>::empty());
    assert(with_counts(st, Seq::<Seq<char>>::empty()) == st);
    assert(with_counts(st, seq![plus]) == with_count(st, plus));
    assert(plus.skip(1) == decimal(a));
    assert(minus.skip(1) == decimal(b));
    assert forall|i: int| 0 <= i < line.len() implies #[trigger] line[i] != '\n' by {
        if i >= 12 {
            assert(line[i] == text[i - 12]);
            if i - 12 < plus.len() {
                assert(text[i - 12] == plus[i - 12]);
            } else if i - 12 > plus.len() {
                assert(text[i - 12] == minus[i - 13 - plus.len()]);
            }
        }
    }
    assert(line.last() == minus.last());
    assert(minus[minus.len() - 1] != '\r');
}

/// The header `# branch.ab +<a> -<b>`.
pub open spec fn ahead_behind_line(a: nat, b: nat) -> Seq<char> {
    "# branch.ab +"@ + decimal(a) + " -"@ + decimal(b)
}

/// An entry `1 <code> ...` or `2 <code> ...` is one more staged change unless the
/// first character of its code is a dot, and one more unstaged change unless the
/// second is a dot or missing, whatever the characters are and wherever the code
/// stands. Nothing else is changed.
pub proof fn entry_counts_by_its_code(
    st: StatusView,
    kind: char,
    gap: Seq<char>,
    code: Seq<char>,
    tail: Seq<char>,
)
    requires
        kind == '1' || kind == '2',
        forall|i: int| 0 <= i < gap.len() ==> is_space(#[trigger] gap[i]),
        code.len() > 0,
        forall|i: int| 0 <= i < code.len() ==> !is_space(#[trigger] code[i]),
        tail.len() > 0 ==> is_space(tail[0]),
    ensures
        with_line(st, seq![kind, ' '] + (gap + code + tail)) == (StatusView {
            staged: if code[0] == '.' {
                st.staged
            } else {
                st.staged + 1
            },
            unstaged: if code.len() == 1 || code[1] == '.' {
                st.unstaged
            } else {
                st.unstaged + 1
            },
            ..st
        }),
{
    let rest = gap + code + tail;
    let line = seq![kind, ' '] + rest;
    lemma_prefixes(line);
    assert(line[0] == kind && line[1] == ' ');
    let head = seq![kind];
    assert(line =~= head + seq![' '] + rest);
    white_space_separates_words(head, ' ', rest);
    unbroken_text_is_a_word(head);
    lemma_first_word(gap, code, tail);
    assert(words(line)[1] == words(rest)[0]);
}

/// The first word of a text.
proof fn lemma_first_word(gap: Seq<char>, word: Seq<char>, tail: Seq<char>)
    requires
        forall|i: int| 0 <= i < gap.len() ==> is_space(#[trigger] gap[i]),
        word.len() > 0,
        forall|i: int| 0 <= i < word.len() ==> !is_space(#[trigger] word[i]),
        tail.len() > 0 ==> is_space(tail[0]),
    ensures
        words(gap + word + tail).len() > 0,
        words(gap + word + tail)[0] == word,
{
    let s = gap + word + tail;
    assert forall|i: int| 0 <= i < gap.len() implies space()(#[trigger] s[i]) by {
        assert(s[i] == gap[i]);
    }
    assert(s[gap.len() as int] == word[0]);
    lemma_run_len_is(s, space(), gap.len() as int);
    let t = word + tail;
    assert(trim_start(s) =~= t);
    assert forall|i: int| 0 <= i < word.len() implies non_space()(#[trigger] t[i]) by {
        assert(t[i] == word[i]);
    }
    if tail.len() > 0 {
        assert(t[word.len() as int] == tail[0]);
    }
    lemma_run_len_is(t, non_space(), word.len() as int);
    assert(t.take(word.len() as int) == word);
}

/// A line `1 XY ...` or `2 XY ...`, as git writes it: X tells whether the entry
/// is staged and Y whether it is unstaged, where every character but a dot tells
/// that it is.
pub proof fn entry_counts_by_x_and_y(st: StatusView, line: Seq<char>)
    requires
        line.len() >= 4,
        line[0] == '1' || line[0] == '2',
        line[1] == ' ',
        !is_space(line[2]),
        !is_space(line[3]),
        line.len() > 4 ==> line[4] == ' ',
    ensures
        with_line(st, line).staged == st.staged + 1 <==> line[2] != '.',
        with_line(st, line).staged == st.staged <==> line[2] == '.',
        with_line(st, line).unstaged == st.unstaged + 1 <==> line[3] != '.',
        with_line(st, line).unstaged == st.unstaged <==> line[3] == '.',
        with_line(st, line) == (StatusView {
            staged: with_line(st, line).staged,
            unstaged: with_line(st, line).unstaged,
            ..st
        }),
{
    let code = line.subrange(2, 4);
    let tail = line.skip(4);
    let gap = Seq::<char>::empty();
    assert(code[0] == line[2] && code[1] == line[3]);
    assert(line =~= seq![line[0], ' '] + (gap + code + tail));
    entry_counts_by_its_code(st, line[0], gap, code, tail);
}

/// An entry `1` or `2` without a code counts for nothing.
pub proof fn entry_without_code_counts_for_nothing(st: StatusView, kind: char, gap: Seq<char>)
    requires
        kind == '1' || kind == '2',
        forall|i: int| 0 <= i < gap.len() ==> is_space(#[trigger] gap[i]),
    ensures
        with_line(st, seq![kind, ' '] + gap) == st,
{
    let line = seq![kind, ' '] + gap;
    lemma_prefixes(line);
    assert(line[0] == kind && line[1] == ' ');
    let head = seq![kind];
    assert(line =~= head + seq![' '] + gap);
    white_space_separates_words(head, ' ', gap);
    unbroken_text_is_a_word(head);
    white_space_holds_no_word(gap);
    assert(change_code(line, 0) == '.' && change_code(line, 1) == '.');
}

/// A line that starts with `u` and a blank is one more conflict, one that starts
/// with `?` and a blank one more untracked file, whatever follows.
pub proof fn conflicts_and_untracked_files_are_counted(st: StatusView, line: Seq<char>)
    requires
        line.len() >= 2,
        line[1] == ' ',
    ensures
        line[0] == 'u' ==> with_line(st, line) == (StatusView { conflicts: st.conflicts + 1, ..st }),
        line[0] == '?' ==> with_line(st, line) == (StatusView { untracked: st.untracked + 1, ..st }),
{
    lemma_prefixes(line);
}

/// A line that is neither one of the three headers nor an entry for a changed,
/// renamed, conflicting or untracked file says nothing.
pub proof fn other_lines_say_nothing(st: StatusView, line: Seq<char>)
    requires
        !"# branch.head "@.is_prefix_of(line),
        !"# branch.upstream "@.is_prefix_of(line),
        !"# branch.ab "@.is_prefix_of(line),
        line.len() < 2 || line[1] != ' ' || (line[0] != '1' && line[0] != '2' && line[0] != 'u'
            && line[0] != '?'),
    ensures
        with_line(st, line) == st,
{
    lemma_prefixes(line);
}

/// Lines other than the header `# branch.ab` leave the commits alone.
proof fn lemma_commits_frame(st: StatusView, ls: Seq<Seq<char>>)
    requires
        forall|i: int| 0 <= i < ls.len() ==> !"# branch.ab "@.is_prefix_of(#[trigger] ls[i]),
    ensures
        with_lines(st, ls).ahead == st.ahead,
        with_lines(st, ls).behind == st.behind,
    decreases ls.len(),
{
    if ls.len() > 0 {
        let fewer = ls.drop_last();
        assert forall|i: int| 0 <= i < fewer.len() implies !"# branch.ab "@.is_prefix_of(
            #[trigger] fewer[i],
        ) by {
            assert(fewer[i] == ls[i]);
        }
        lemma_commits_frame(st, fewer);
        assert(!"# branch.ab "@.is_prefix_of(ls[ls.len() - 1]));
    }
}

/// The header `# branch.ab +<a> -<b>` anywhere in a report says how many commits
/// the branch is ahead and behind, unless a later one does, whatever else the
/// report lists.
pub proof fn report_tells_ahead_and_behind(
    st: StatusView,
    first: Seq<char>,
    a: nat,
    b: nat,
    later: Seq<char>,
)
    requires
        a <= usize::MAX,
        b <= usize::MAX,
        first.len() == 0 || first.last() == '\n',
        forall|i: int|
            0 <= i < lines(later).len() ==> !"# branch.ab "@.is_prefix_of(#[trigger] lines(later)[i]),
    ensures
        with_report(st, first + ahead_behind_line(a, b) + seq!['\n'] + later).ahead == a,
        with_report(st, first + ahead_behind_line(a, b) + seq!['\n'] + later).behind == b,
{
    let line = ahead_behind_line(a, b);
    let st1 = with_report(st, first);
    let middle = line + seq!['\n'];
    ahead_and_behind_read_back(st1, a, b);
    report_of_one_line(st1, line);
    let st2 = with_report(st1, middle);
    lemma_commits_frame(st2, lines(later));
    report_is_read_part_by_part(st1, middle, later);
    report_is_read_part_by_part(st, first, middle + later);
    assert(first + ahead_behind_line(a, b) + seq!['\n'] + later =~= first + (middle + later));
}

/// The branch named last in a report is the one checked out, whatever else the
/// report lists.
pub proof fn report_tells_the_branch(
    st: StatusView,
    first: Seq<char>,
    name: Seq<char>,
    later: Seq<char>,
)
    requires
        first.len() == 0 || first.last() == '\n',
        name.len() > 0,
        forall|i: int| 0 <= i < name.len() ==> !is_space(#[trigger] name[i]),
        name != "(detached)"@,
        forall|i: int|
            0 <= i < lines(later).len() ==> !"# branch.head "@.is_prefix_of(#[trigger] lines(later)[i]),
    ensures
        with_report(st, first + "# branch.head "@ + name + seq!['\n'] + later).branch == Some(name),
{
    let line = "# branch.head "@ + name;
    let st1 = with_report(st, first);
    let middle = line + seq!['\n'];
    reveal_strlit("# branch.head ");
    assert forall|i: int| 0 <= i < line.len() implies #[trigger] line[i] != '\n' by {
        if i >= 14 {
            assert(line[i] == name[i - 14]);
        }
    }
    assert(line.last() == name[name.len() - 1]);
    let none = Seq::<char>::empty();
    trimming_undoes_white_space(none, name, none);
    assert(none + name + none =~= name);
    head_names_the_branch(st1, name);
    report_of_one_line(st1, line);
    lemma_branch_frame(with_report(st1, middle), lines(later));
    report_is_read_part_by_part(st1, middle, later);
    report_is_read_part_by_part(st, first, middle + later);
    assert(first + "# branch.head "@ + name + seq!['\n'] + later =~= first + (middle + later));
}

/// Lines other than the header `# branch.head` leave the branch alone.
proof fn lemma_branch_frame(st: StatusView, ls: Seq<Seq<char>>)
    requires
        forall|i: int| 0 <= i < ls.len() ==> !"# branch.head "@.is_prefix_of(#[trigger] ls[i]),
    ensures
        with_lines(st, ls).branch == st.branch,
        with_lines(st, ls).detached == st.detached,
    decreases ls.len(),
{
    if ls.len() > 0 {
        let fewer = ls.drop_last();
        assert forall|i: int| 0 <= i < fewer.len() implies !"# branch.head "@.is_prefix_of(
            #[trigger] fewer[i],
        ) by {
            assert(fewer[i] == ls[i]);
        }
        lemma_branch_frame(st, fewer);
        let before = with_lines(st, fewer);
        lemma_counts_frame(before, words(ls.last().skip(AHEAD_BEHIND@.len() as int)));
        assert(!"# branch.head "@.is_prefix_of(ls[ls.len() - 1]));
    }
}

} // verus!
