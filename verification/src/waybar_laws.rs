//! What the Waybar report shows, told by the fields of the statuses.

use crate::icons::{I_AHEAD, I_BEHIND, I_CLEAN, I_CONFLICT, I_DIRTY, I_UNPUBLISHED, ICON_BAR};
use crate::order::{bytes_less, sorting_is_stable, stable_order};
use crate::status::{clean_means_nothing_to_report, glyph_of, glyphs_by_condition, Condition, StatusView};
use crate::text::{decimal, join, pad_right};
use crate::text_laws::padding_adds_blanks_behind;
use crate::waybar::{
    class_name, count, detail, group, heading, local_changes, overall, piece_if, remarks, row, row_keys,
    summary, tooltip_is_complete_and_sorted, tooltip_lines,
};
use vstd::prelude::*;
use vstd::utf8::encode_utf8;

verus! {

// ---------------------------------------------------------------------------
// The text in the bar
// ---------------------------------------------------------------------------

/// A count is the number of statuses that are picked out by a condition on them.
proof fn lemma_count_is(vs: Seq<StatusView>, c: Condition, p: spec_fn(StatusView) -> bool)
    requires
        forall|st: StatusView| #[trigger] st.meets(c) <==> p(st),
    ensures
        count(vs, c) == vs.filter(p).len(),
    decreases vs.len(),
{
    reveal(Seq::filter);
    if vs.len() > 0 {
        lemma_count_is(vs.drop_last(), c, p);
        assert(vs.last().meets(c) <==> p(vs.last()));
    }
}

/// How many repositories are counted in each state, by their fields.
pub proof fn counts_are_told_by_fields(vs: Seq<StatusView>)
    ensures
        count(vs, Condition::Error) == vs.filter(|st: StatusView| st.error is Some).len(),
        count(vs, Condition::Conflict) == vs.filter(|st: StatusView| st.conflicts > 0).len(),
        count(vs, Condition::Unpublished) == vs.filter(
            |st: StatusView| st.branch is Some && !st.detached && !st.has_upstream,
        ).len(),
        count(vs, Condition::Diverged) == vs.filter(
            |st: StatusView| st.ahead > 0 && st.behind > 0,
        ).len(),
        count(vs, Condition::Behind) == vs.filter(
            |st: StatusView| st.ahead == 0 && st.behind > 0,
        ).len(),
        count(vs, Condition::Ahead) == vs.filter(
            |st: StatusView| st.ahead > 0 && st.behind == 0,
        ).len(),
        count(vs, Condition::Dirty) == vs.filter(|st: StatusView| st.dirty).len(),
{
    lemma_count_is(vs, Condition::Error, |st: StatusView| st.error is Some);
    lemma_count_is(vs, Condition::Conflict, |st: StatusView| st.conflicts > 0);
    lemma_count_is(
        vs,
        Condition::Unpublished,
        |st: StatusView| st.branch is Some && !st.detached && !st.has_upstream,
    );
    lemma_count_is(vs, Condition::Diverged, |st: StatusView| st.ahead > 0 && st.behind > 0);
    lemma_count_is(vs, Condition::Behind, |st: StatusView| st.ahead == 0 && st.behind > 0);
    lemma_count_is(vs, Condition::Ahead, |st: StatusView| st.ahead > 0 && st.behind == 0);
    lemma_count_is(vs, Condition::Dirty, |st: StatusView| st.dirty);
}

/// A blank, a glyph and a number; nothing for zero.
pub open spec fn tally(glyph: char, n: nat) -> Seq<char> {
    if n == 0 {
        seq![]
    } else {
        seq![' ', glyph] + decimal(n)
    }
}

/// The text in the bar is the branch glyph, a blank and the number of all
/// repositories, followed by the tallies of those ahead, behind, diverged, dirty,
/// never pushed, with conflicts and with an error.
pub proof fn text_tallies_the_fields(vs: Seq<StatusView>)
    ensures
        summary(vs) == seq!['\u{e0a0}', ' '] + decimal(vs.len()) + tally(
            '\u{2191}',
            vs.filter(|st: StatusView| st.ahead > 0 && st.behind == 0).len(),
        ) + tally(
            '\u{2193}',
            vs.filter(|st: StatusView| st.ahead == 0 && st.behind > 0).len(),
        ) + tally(
            '\u{21c5}',
            vs.filter(|st: StatusView| st.ahead > 0 && st.behind > 0).len(),
        ) + tally('\u{25cf}', vs.filter(|st: StatusView| st.dirty).len()) + tally(
            '\u{21e1}',
            vs.filter(|st: StatusView| st.branch is Some && !st.detached && !st.has_upstream).len(),
        ) + tally('\u{26a0}', vs.filter(|st: StatusView| st.conflicts > 0).len()) + tally(
            '?',
            vs.filter(|st: StatusView| st.error is Some).len(),
        ),
{
    counts_are_told_by_fields(vs);
    glyphs_by_condition();
    lemma_tally(vs, Condition::Ahead, '\u{2191}');
    lemma_tally(vs, Condition::Behind, '\u{2193}');
    lemma_tally(vs, Condition::Diverged, '\u{21c5}');
    lemma_tally(vs, Condition::Dirty, '\u{25cf}');
    lemma_tally(vs, Condition::Unpublished, '\u{21e1}');
    lemma_tally(vs, Condition::Conflict, '\u{26a0}');
    lemma_tally(vs, Condition::Error, '?');
    reveal_strlit("\u{e0a0}");
    reveal_strlit(" ");
    assert(ICON_BAR@ + " "@ =~= seq!['\u{e0a0}', ' ']);
}

/// The part of the text for one state.
proof fn lemma_tally(vs: Seq<StatusView>, c: Condition, glyph: char)
    requires
        glyph_of(c) == seq![glyph],
    ensures
        group(vs, c) == tally(glyph, count(vs, c)),
{
    reveal_strlit(" ");
    assert(" "@ + seq![glyph] =~= seq![' ', glyph]);
}

// ---------------------------------------------------------------------------
// The class
// ---------------------------------------------------------------------------

/// Some repository has an error.
pub open spec fn some_error(vs: Seq<StatusView>) -> bool {
    exists|i: int| 0 <= i < vs.len() && (#[trigger] vs[i]).error is Some
}

/// Some repository has a conflict.
pub open spec fn some_conflict(vs: Seq<StatusView>) -> bool {
    exists|i: int| 0 <= i < vs.len() && (#[trigger] vs[i]).conflicts > 0
}

/// Some repository is on a branch that was never pushed.
pub open spec fn some_unpublished(vs: Seq<StatusView>) -> bool {
    exists|i: int|
        0 <= i < vs.len() && (#[trigger] vs[i]).branch is Some && !vs[i].detached && !vs[i].has_upstream
}

/// Some repository is ahead and behind.
pub open spec fn some_diverged(vs: Seq<StatusView>) -> bool {
    exists|i: int| 0 <= i < vs.len() && (#[trigger] vs[i]).ahead > 0 && vs[i].behind > 0
}

/// Some repository is behind alone.
pub open spec fn some_behind(vs: Seq<StatusView>) -> bool {
    exists|i: int| 0 <= i < vs.len() && (#[trigger] vs[i]).ahead == 0 && vs[i].behind > 0
}

/// Some repository is ahead alone.
pub open spec fn some_ahead(vs: Seq<StatusView>) -> bool {
    exists|i: int| 0 <= i < vs.len() && (#[trigger] vs[i]).ahead > 0 && vs[i].behind == 0
}

/// Some repository is dirty.
pub open spec fn some_dirty(vs: Seq<StatusView>) -> bool {
    exists|i: int| 0 <= i < vs.len() && (#[trigger] vs[i]).dirty
}

/// A count is not 0 just when some status is picked out.
proof fn lemma_count_some(vs: Seq<StatusView>, c: Condition, i: int) -> (j: int)
    ensures
        0 <= i < vs.len() && vs[i].meets(c) ==> count(vs, c) > 0,
        count(vs, c) > 0 ==> 0 <= j < vs.len() && vs[j].meets(c),
    decreases vs.len(),
{
    if vs.len() == 0 {
        0
    } else {
        let j = lemma_count_some(vs.drop_last(), c, i);
        if vs.last().meets(c) {
            vs.len() - 1
        } else {
            j
        }
    }
}

/// The class is `error` just when some repository has an error, whatever else is
/// known of it; where none has, it is `conflict` just when some has a conflict;
/// and so on down to `dirty`, and `clean` where there is nothing of all this.
pub proof fn class_is_told_by_fields(vs: Seq<StatusView>)
    ensures
        ({
            let class = class_name(overall(vs));
            let e = some_error(vs);
            let c = e || some_conflict(vs);
            let u = c || some_unpublished(vs);
            let v = u || some_diverged(vs);
            let b = v || some_behind(vs);
            let a = b || some_ahead(vs);
            let d = a || some_dirty(vs);
            &&& class == "error"@ <==> e
            &&& class == "conflict"@ <==> c && !e
            &&& class == "unpublished"@ <==> u && !c
            &&& class == "diverged"@ <==> v && !u
            &&& class == "behind"@ <==> b && !v
            &&& class == "ahead"@ <==> a && !b
            &&& class == "dirty"@ <==> d && !a
            &&& class == "clean"@ <==> !d
        }),
{
    lemma_class_names();
    let _ = lemma_count_some(vs, Condition::Error, 0);
    let _ = lemma_count_some(vs, Condition::Conflict, 0);
    let _ = lemma_count_some(vs, Condition::Unpublished, 0);
    let _ = lemma_count_some(vs, Condition::Diverged, 0);
    let _ = lemma_count_some(vs, Condition::Behind, 0);
    let _ = lemma_count_some(vs, Condition::Ahead, 0);
    let _ = lemma_count_some(vs, Condition::Dirty, 0);
    assert forall|i: int, k: Condition|
        0 <= i < vs.len() && #[trigger] vs[i].meets(k) implies count(vs, k) > 0 by {
        let _ = lemma_count_some(vs, k, i);
    }
    assert(some_error(vs) <==> count(vs, Condition::Error) > 0) by {
        if some_error(vs) {
            let i = choose|i: int| 0 <= i < vs.len() && (#[trigger] vs[i]).error is Some;
            assert(vs[i].meets(Condition::Error));
        }
    }
    assert(some_conflict(vs) <==> count(vs, Condition::Conflict) > 0) by {
        if some_conflict(vs) {
            let i = choose|i: int| 0 <= i < vs.len() && (#[trigger] vs[i]).conflicts > 0;
            assert(vs[i].meets(Condition::Conflict));
        }
    }
    assert(some_unpublished(vs) <==> count(vs, Condition::Unpublished) > 0) by {
        if some_unpublished(vs) {
            let i = choose|i: int|
                0 <= i < vs.len() && (#[trigger] vs[i]).branch is Some && !vs[i].detached
                    && !vs[i].has_upstream;
            assert(vs[i].meets(Condition::Unpublished));
        }
    }
    assert(some_diverged(vs) <==> count(vs, Condition::Diverged) > 0) by {
        if some_diverged(vs) {
            let i = choose|i: int|
                0 <= i < vs.len() && (#[trigger] vs[i]).ahead > 0 && vs[i].behind > 0;
            assert(vs[i].meets(Condition::Diverged));
        }
    }
    assert(some_behind(vs) <==> count(vs, Condition::Behind) > 0) by {
        if some_behind(vs) {
            let i = choose|i: int|
                0 <= i < vs.len() && (#[trigger] vs[i]).ahead == 0 && vs[i].behind > 0;
            assert(vs[i].meets(Condition::Behind));
        }
    }
    assert(some_ahead(vs) <==> count(vs, Condition::Ahead) > 0) by {
        if some_ahead(vs) {
            let i = choose|i: int|
                0 <= i < vs.len() && (#[trigger] vs[i]).ahead > 0 && vs[i].behind == 0;
            assert(vs[i].meets(Condition::Ahead));
        }
    }
    assert(some_dirty(vs) <==> count(vs, Condition::Dirty) > 0) by {
        if some_dirty(vs) {
            let i = choose|i: int| 0 <= i < vs.len() && (#[trigger] vs[i]).dirty;
            assert(vs[i].meets(Condition::Dirty));
        }
    }
}

/// The names of the classes differ.
proof fn lemma_class_names()
    ensures
        forall|a: Condition, b: Condition|
            #![trigger class_name(a), class_name(b)]
            class_name(a) == class_name(b) ==> a == b,
        class_name(Condition::Error) == "error"@,
        class_name(Condition::Conflict) == "conflict"@,
        class_name(Condition::Unpublished) == "unpublished"@,
        class_name(Condition::Diverged) == "diverged"@,
        class_name(Condition::Behind) == "behind"@,
        class_name(Condition::Ahead) == "ahead"@,
        class_name(Condition::Dirty) == "dirty"@,
        class_name(Condition::Clean) == "clean"@,
{
    reveal_strlit("error");
    reveal_strlit("conflict");
    reveal_strlit("unpublished");
    reveal_strlit("diverged");
    reveal_strlit("behind");
    reveal_strlit("ahead");
    reveal_strlit("dirty");
    reveal_strlit("clean");
    assert("error"@[0] == 'e' && "ahead"@[0] == 'a' && "behind"@[0] == 'b');
    assert("conflict"@[1] == 'o' && "clean"@[1] == 'l' && "unpublished"@[0] == 'u');
    assert("conflict"@[0] == 'c' && "clean"@[0] == 'c');
    assert("diverged"@[0] == 'd' && "dirty"@[0] == 'd');
    assert("diverged"@[2] == 'v' && "dirty"@[2] == 'r');
    assert forall|a: Condition, b: Condition|
        #![trigger class_name(a), class_name(b)]
        class_name(a) == class_name(b) implies a == b by {
        assert(class_name(a)[0] == class_name(b)[0]);
        assert(class_name(a)[1] == class_name(b)[1]);
        assert(class_name(a)[2] == class_name(b)[2]);
    }
}

// ---------------------------------------------------------------------------
// The tooltip
// ---------------------------------------------------------------------------

/// The heading names the directory and the number of repositories.
pub proof fn heading_names_the_directory(dir: Seq<char>, n: nat)
    ensures
        heading(dir, n) == dir + seq![' ', '\u{2014}', ' '] + decimal(n) + seq![
            ' ',
            'r',
            'e',
            'p',
            'o',
            's',
        ],
{
    reveal_strlit(" \u{2014} ");
    reveal_strlit(" repos");
    assert(" \u{2014} "@ =~= seq![' ', '\u{2014}', ' ']);
    assert(" repos"@ =~= seq![' ', 'r', 'e', 'p', 'o', 's']);
}

/// A blank and a remark, where the remark is called for.
pub open spec fn noted(wanted: bool, remark: Seq<char>) -> Seq<char> {
    if wanted {
        seq![' '] + remark
    } else {
        seq![]
    }
}

/// The remarks on a repository, each with a blank in front: the commits ahead and
/// behind, the changed files without conflicts, the conflicts, that the branch
/// was never pushed, and the error.
pub open spec fn notes(st: StatusView) -> Seq<char> {
    noted(st.ahead > 0, seq!['\u{2191}'] + decimal(st.ahead)) + noted(
        st.behind > 0,
        seq!['\u{2193}'] + decimal(st.behind),
    ) + noted(
        st.staged > 0 || st.unstaged > 0 || st.untracked > 0,
        seq!['\u{25cf}'] + decimal(st.staged + st.unstaged + st.untracked),
    ) + noted(st.conflicts > 0, seq!['\u{26a0}'] + decimal(st.conflicts)) + noted(
        st.branch is Some && !st.detached && !st.has_upstream,
        "\u{21e1}unpushed"@,
    ) + match st.error {
        Some(e) => seq![' ', '('] + e + seq![')'],
        None => seq![],
    }
}

/// A remark for another list: with a blank in front of each, the list reads as
/// before with the remark behind.
proof fn lemma_note(pieces: Seq<Seq<char>>, wanted: bool, piece: Seq<char>)
    ensures
        spaced(pieces + piece_if(wanted, piece)) == spaced(pieces) + noted(wanted, piece),
{
    if wanted {
        assert(pieces + seq![piece] =~= pieces.push(piece));
        assert(pieces.push(piece).drop_last() =~= pieces);
        assert(spaced(pieces.push(piece)) =~= spaced(pieces) + (seq![' '] + piece));
    } else {
        assert(pieces + Seq::<Seq<char>>::empty() =~= pieces);
    }
}

/// The pieces with a blank in front of each.
pub open spec fn spaced(pieces: Seq<Seq<char>>) -> Seq<char>
    decreases pieces.len(),
{
    if pieces.len() == 0 {
        seq![]
    } else {
        spaced(pieces.drop_last()) + seq![' '] + pieces.last()
    }
}

/// Joining with blanks leaves out the first of the blanks in front.
proof fn lemma_spaced(pieces: Seq<Seq<char>>)
    requires
        pieces.len() > 0,
    ensures
        spaced(pieces) == seq![' '] + join(pieces, " "@),
    decreases pieces.len(),
{
    reveal_strlit(" ");
    assert(" "@ =~= seq![' ']);
    if pieces.len() == 1 {
        assert(pieces.drop_last() =~= Seq::<Seq<char>>::empty());
        assert(spaced(pieces.drop_last()) =~= Seq::<char>::empty());
        assert(spaced(pieces) =~= seq![' '] + pieces[0]);
    } else {
        lemma_spaced(pieces.drop_last());
        assert(spaced(pieces) =~= seq![' '] + join(pieces, " "@));
    }
}

/// What is said of a repository is the remarks that its fields call for, with a
/// blank between each two; where they call for none, it is the check mark.
pub proof fn detail_notes_the_fields(st: StatusView)
    ensures
        notes(st).len() > 0 ==> seq![' '] + detail(st) == notes(st),
        notes(st).len() == 0 ==> detail(st) == seq!['\u{2713}'],
{
    reveal_strlit("\u{2713}");
    reveal_strlit("\u{2191}");
    reveal_strlit("\u{2193}");
    reveal_strlit("\u{25cf}");
    reveal_strlit("\u{26a0}");
    reveal_strlit("\u{21e1}");
    reveal_strlit("unpushed");
    reveal_strlit("\u{21e1}unpushed");
    reveal_strlit("(");
    reveal_strlit(")");
    assert(I_AHEAD@ =~= seq!['\u{2191}']);
    assert(I_BEHIND@ =~= seq!['\u{2193}']);
    assert(I_DIRTY@ =~= seq!['\u{25cf}']);
    assert(I_CONFLICT@ =~= seq!['\u{26a0}']);
    assert(I_CLEAN@ =~= seq!['\u{2713}']);
    assert(I_UNPUBLISHED@ + "unpushed"@ =~= "\u{21e1}unpushed"@);
    let p0 = Seq::<Seq<char>>::empty();
    let ahead = I_AHEAD@ + decimal(st.ahead);
    let behind = I_BEHIND@ + decimal(st.behind);
    let local = I_DIRTY@ + decimal(local_changes(st));
    let conflicts = I_CONFLICT@ + decimal(st.conflicts);
    let unpushed = I_UNPUBLISHED@ + "unpushed"@;
    let p1 = p0 + piece_if(st.ahead > 0, ahead);
    let p2 = p1 + piece_if(st.behind > 0, behind);
    let p3 = p2 + piece_if(local_changes(st) > 0, local);
    let p4 = p3 + piece_if(st.conflicts > 0, conflicts);
    let p5 = p4 + piece_if(st.no_upstream(), unpushed);
    lemma_note(p0, st.ahead > 0, ahead);
    lemma_note(p1, st.behind > 0, behind);
    lemma_note(p2, local_changes(st) > 0, local);
    lemma_note(p3, st.conflicts > 0, conflicts);
    lemma_note(p4, st.no_upstream(), unpushed);
    assert(p1 =~= piece_if(st.ahead > 0, ahead));
    assert(spaced(p0) =~= Seq::<char>::empty());
    match st.error {
        Some(e) => {
            let piece = "("@ + e + ")"@;
            lemma_note(p5, true, piece);
            assert(remarks(st) =~= p5 + piece_if(true, piece));
            assert(seq![' '] + piece =~= seq![' ', '('] + e + seq![')']);
        },
        None => {
            assert(remarks(st) =~= p5);
        },
    }
    assert(spaced(remarks(st)) =~= notes(st));
    if remarks(st).len() > 0 {
        lemma_spaced(remarks(st));
    }
}

/// The row on a repository is its glyph, a blank, its name filled up with blanks
/// to 24 characters, a blank, its branch, two blanks and what is said of it.
/// Where no branch is checked out, `(detached)` or a question mark stands for it.
pub proof fn row_shows_the_fields(st: StatusView)
    ensures
        ({
            let fill = if st.name.len() < 24 {
                Seq::new((24 - st.name.len()) as nat, |i: int| ' ')
            } else {
                Seq::<char>::empty()
            };
            let branch = match st.branch {
                Some(b) => b,
                None => if st.detached {
                    "(detached)"@
                } else {
                    seq!['?']
                },
            };
            row(st) == glyph_of(st.worst()) + seq![' '] + st.name + fill + seq![' '] + branch + seq![
                ' ',
                ' ',
            ] + detail(st)
        }),
{
    reveal_strlit(" ");
    reveal_strlit("  ");
    reveal_strlit("?");
    assert(" "@ =~= seq![' ']);
    assert("  "@ =~= seq![' ', ' ']);
    assert("?"@ =~= seq!['?']);
    let fill = if st.name.len() < 24 {
        Seq::new((24 - st.name.len()) as nat, |i: int| ' ')
    } else {
        Seq::<char>::empty()
    };
    padding_adds_blanks_behind(st.name, 24);
    assert(pad_right(st.name, 24) =~= st.name + fill);
    assert(glyph_of(st.worst()) + seq![' '] + (st.name + fill) =~= glyph_of(st.worst()) + seq![' ']
        + st.name + fill);
}

/// There is nothing to report on the repository.
pub open spec fn is_fine(st: StatusView) -> bool {
    &&& st.error is None
    &&& st.conflicts == 0
    &&& st.branch is None || st.detached || st.has_upstream
    &&& st.ahead == 0
    &&& st.behind == 0
    &&& !st.dirty
}

/// Where a repository stands in the tooltip: there is an order of all of them,
/// each once, in which those with something to report come before those without,
/// names within each group ascend, and of two with equal names the one found
/// first comes first; the rows under the heading are those of this order.
pub proof fn rows_follow_the_order(
    dir: Seq<char>,
    vs: Seq<StatusView>,
    lowered: Seq<Seq<char>>,
) -> (order: Seq<int>)
    ensures
        order.len() == vs.len(),
        order.no_duplicates(),
        tooltip_lines(dir, vs, lowered).len() == vs.len() + 1,
        tooltip_lines(dir, vs, lowered)[0] == heading(dir, vs.len()),
        forall|p: int|
            0 <= p < vs.len() ==> 0 <= #[trigger] order[p] < vs.len() && tooltip_lines(
                dir,
                vs,
                lowered,
            )[p + 1] == row(vs[order[p]]),
        forall|p: int, q: int|
            #![trigger order[p], order[q]]
            0 <= p < q < vs.len() ==> {
                let a = is_fine(vs[order[p]]);
                let b = is_fine(vs[order[q]]);
                &&& a ==> b
                &&& a == b ==> {
                    &&& !bytes_less(encode_utf8(lowered[order[q]]), encode_utf8(lowered[order[p]]))
                    &&& lowered[order[p]] == lowered[order[q]] ==> order[p] < order[q]
                }
            },
{
    let keys = row_keys(vs, lowered);
    let order = stable_order(keys);
    sorting_is_stable(keys);
    tooltip_is_complete_and_sorted(dir, vs, lowered);
    assert forall|p: int, q: int|
        #![trigger order[p], order[q]]
        0 <= p < q < vs.len() implies {
        let a = is_fine(vs[order[p]]);
        let b = is_fine(vs[order[q]]);
        &&& a ==> b
        &&& a == b ==> {
            &&& !bytes_less(encode_utf8(lowered[order[q]]), encode_utf8(lowered[order[p]]))
            &&& lowered[order[p]] == lowered[order[q]] ==> order[p] < order[q]
        }
    } by {
        clean_means_nothing_to_report(vs[order[p]]);
        clean_means_nothing_to_report(vs[order[q]]);
        if is_fine(vs[order[p]]) == is_fine(vs[order[q]]) && lowered[order[p]] == lowered[order[q]] {
            assert(keys[order[p]] == keys[order[q]]);
        }
    }
    order
}

} // verus!
