//! The report for a Waybar custom module.

use crate::icons::{I_AHEAD, I_BEHIND, I_CLEAN, I_CONFLICT, I_DIRTY, I_UNPUBLISHED, ICON_BAR};
use crate::order::{
    bytes_less, goes_before, is_stable_order, key_views, keys_are_totally_ordered, places,
    sorted_places, stable_order, stable_order_is_unique, KeyView, SortKey,
};
use crate::porcelain::{one_if, DETACHED};
use crate::status::{
    condition_glyph, glyph_of, glyphs_are_distinct, lowered_names, lowered_of, rank, status_views,
    worst_is_most_pressing, Condition, RepoStatus, StatusView,
};
use crate::text::{
    decimal, join, joined, pad_right, push_decimal, push_padded, strings,
};
use vstd::prelude::*;
use vstd::utf8::encode_utf8;

verus! {

/// What Waybar shows: the text in the bar, the tooltip, and the CSS class.
pub struct WaybarOut {
    pub text: String,
    pub tooltip: String,
    pub class: String,
}

/// The width of the name column of the tooltip.
pub const NAME_WIDTH: usize = 24;

// ---------------------------------------------------------------------------
// Specification: counts and text
// ---------------------------------------------------------------------------

/// How many repositories are in state `c`.
pub open spec fn count(vs: Seq<StatusView>, c: Condition) -> nat
    decreases vs.len(),
{
    if vs.len() == 0 {
        0
    } else {
        count(vs.drop_last(), c) + one_if(vs.last().meets(c))
    }
}

/// The part of the text for the repositories in state `c`: nothing if there are none.
pub open spec fn group(vs: Seq<StatusView>, c: Condition) -> Seq<char> {
    if count(vs, c) == 0 {
        seq![]
    } else {
        " "@ + glyph_of(c) + decimal(count(vs, c))
    }
}

/// The text in the bar: how many repositories there are, and how many are in
/// each state that any is in.
pub open spec fn summary(vs: Seq<StatusView>) -> Seq<char> {
    ICON_BAR@ + " "@ + decimal(vs.len()) + group(vs, Condition::Ahead) + group(vs, Condition::Behind)
        + group(vs, Condition::Diverged) + group(vs, Condition::Dirty) + group(
        vs,
        Condition::Unpublished,
    ) + group(vs, Condition::Conflict) + group(vs, Condition::Error)
}

/// The most pressing state that any repository is in.
pub open spec fn overall(vs: Seq<StatusView>) -> Condition {
    if count(vs, Condition::Error) > 0 {
        Condition::Error
    } else if count(vs, Condition::Conflict) > 0 {
        Condition::Conflict
    } else if count(vs, Condition::Unpublished) > 0 {
        Condition::Unpublished
    } else if count(vs, Condition::Diverged) > 0 {
        Condition::Diverged
    } else if count(vs, Condition::Behind) > 0 {
        Condition::Behind
    } else if count(vs, Condition::Ahead) > 0 {
        Condition::Ahead
    } else if count(vs, Condition::Dirty) > 0 {
        Condition::Dirty
    } else {
        Condition::Clean
    }
}

/// The CSS class of a condition.
pub open spec fn class_name(c: Condition) -> Seq<char> {
    match c {
        Condition::Error => "error"@,
        Condition::Conflict => "conflict"@,
        Condition::Unpublished => "unpublished"@,
        Condition::Diverged => "diverged"@,
        Condition::Behind => "behind"@,
        Condition::Ahead => "ahead"@,
        Condition::Dirty => "dirty"@,
        Condition::Clean => "clean"@,
    }
}

// ---------------------------------------------------------------------------
// Specification: tooltip
// ---------------------------------------------------------------------------

/// `piece` alone if it is wanted, nothing if not.
pub open spec fn piece_if(wanted: bool, piece: Seq<char>) -> Seq<Seq<char>> {
    if wanted {
        seq![piece]
    } else {
        seq![]
    }
}

/// The number of changed, new and deleted files, conflicts left out.
pub open spec fn local_changes(st: StatusView) -> nat {
    st.staged + st.unstaged + st.untracked
}

/// What there is to say on a repository, piece by piece.
pub open spec fn remarks(st: StatusView) -> Seq<Seq<char>> {
    piece_if(st.ahead > 0, I_AHEAD@ + decimal(st.ahead)) + piece_if(
        st.behind > 0,
        I_BEHIND@ + decimal(st.behind),
    ) + piece_if(local_changes(st) > 0, I_DIRTY@ + decimal(local_changes(st))) + piece_if(
        st.conflicts > 0,
        I_CONFLICT@ + decimal(st.conflicts),
    ) + piece_if(st.no_upstream(), I_UNPUBLISHED@ + "unpushed"@) + match st.error {
        Some(e) => seq!["("@ + e + ")"@],
        None => seq![],
    }
}

/// What there is to say on a repository, or the glyph for nothing to say.
pub open spec fn detail(st: StatusView) -> Seq<char> {
    if remarks(st).len() == 0 {
        I_CLEAN@
    } else {
        join(remarks(st), " "@)
    }
}

/// The branch, or what stands for it.
pub open spec fn branch_text(st: StatusView) -> Seq<char> {
    match st.branch {
        Some(b) => b,
        None => if st.detached {
            DETACHED@
        } else {
            "?"@
        },
    }
}

/// The line on one repository: its glyph, name and branch, and what there is to say.
pub open spec fn row(st: StatusView) -> Seq<char> {
    glyph_of(st.worst()) + " "@ + pad_right(st.name, NAME_WIDTH as int) + " "@ + branch_text(st)
        + "  "@ + detail(st)
}

/// The first line of the tooltip.
pub open spec fn heading(dir: Seq<char>, n: nat) -> Seq<char> {
    dir + " \u{2014} "@ + decimal(n) + " repos"@
}

/// The keys that the rows are sorted by: repositories with something to report
/// first, then by name in lowercase.
pub open spec fn row_keys(vs: Seq<StatusView>, lowered: Seq<Seq<char>>) -> Seq<KeyView> {
    Seq::new(
        vs.len(),
        |i: int| KeyView { late: vs[i].worst() is Clean, text: encode_utf8(lowered[i]) },
    )
}

/// The rows in the given order.
pub open spec fn rows(vs: Seq<StatusView>, order: Seq<int>) -> Seq<Seq<char>> {
    order.map_values(|i: int| row(vs[i]))
}

/// The lines of the tooltip: a heading, and one row for each repository, sorted.
pub open spec fn tooltip_lines(
    dir: Seq<char>,
    vs: Seq<StatusView>,
    lowered: Seq<Seq<char>>,
) -> Seq<Seq<char>> {
    seq![heading(dir, vs.len())] + rows(vs, stable_order(row_keys(vs, lowered)))
}

// ---------------------------------------------------------------------------
// Executable version
// ---------------------------------------------------------------------------

/// How many repositories are in state `c`.
pub fn count_of(statuses: &Vec<RepoStatus>, c: Condition) -> (r: usize)
    ensures
        r == count(status_views(statuses@), c),
{
    let mut n: usize = 0;
    let mut i: usize = 0;
    let ghost vs = status_views(statuses@);
    while i < statuses.len()
        invariant
            n <= i <= statuses@.len(),
            vs == status_views(statuses@),
            n == count(vs.take(i as int), c),
        decreases statuses@.len() - i,
    {
        proof {
            assert(vs.take(i + 1).drop_last() == vs.take(i as int));
        }
        if statuses[i].meets(c) {
            n = n + 1;
        }
        i = i + 1;
    }
    proof {
        assert(vs.take(i as int) == vs);
    }
    n
}

/// Appends the part of the text for the repositories in state `c`.
fn push_group(out: &mut String, statuses: &Vec<RepoStatus>, c: Condition)
    ensures
        final(out)@ == old(out)@ + group(status_views(statuses@), c),
{
    let n = count_of(statuses, c);
    if n > 0 {
        out.append(" ");
        out.append(condition_glyph(c));
        push_decimal(out, n as u128);
    }
}

/// The text in the bar.
pub fn summary_text(statuses: &Vec<RepoStatus>) -> (r: String)
    ensures
        r@ == summary(status_views(statuses@)),
{
    let mut out = ICON_BAR.to_owned();
    out.append(" ");
    push_decimal(&mut out, statuses.len() as u128);
    push_group(&mut out, statuses, Condition::Ahead);
    push_group(&mut out, statuses, Condition::Behind);
    push_group(&mut out, statuses, Condition::Diverged);
    push_group(&mut out, statuses, Condition::Dirty);
    push_group(&mut out, statuses, Condition::Unpublished);
    push_group(&mut out, statuses, Condition::Conflict);
    push_group(&mut out, statuses, Condition::Error);
    out
}

/// CSS class by highest-priority condition.
pub fn class_text(statuses: &Vec<RepoStatus>) -> (r: String)
    ensures
        r@ == class_name(overall(status_views(statuses@))),
{
    let class = if count_of(statuses, Condition::Error) > 0 {
        "error"
    } else if count_of(statuses, Condition::Conflict) > 0 {
        "conflict"
    } else if count_of(statuses, Condition::Unpublished) > 0 {
        "unpublished"
    } else if count_of(statuses, Condition::Diverged) > 0 {
        "diverged"
    } else if count_of(statuses, Condition::Behind) > 0 {
        "behind"
    } else if count_of(statuses, Condition::Ahead) > 0 {
        "ahead"
    } else if count_of(statuses, Condition::Dirty) > 0 {
        "dirty"
    } else {
        "clean"
    };
    class.to_owned()
}

/// A glyph with a number.
fn numbered(icon: &str, n: u128) -> (r: String)
    ensures
        r@ == icon@ + decimal(n as nat),
{
    let mut out = icon.to_owned();
    push_decimal(&mut out, n);
    out
}

/// Appends a piece where it is wanted.
fn push_piece(pieces: &mut Vec<String>, wanted: bool, piece: String)
    ensures
        strings(final(pieces)@) == strings(old(pieces)@) + piece_if(wanted, piece@),
{
    if wanted {
        pieces.push(piece);
        proof {
            assert(strings(pieces@) == strings(old(pieces)@).push(piece@));
        }
    }
    proof {
        assert(strings(pieces@) == strings(old(pieces)@) + piece_if(wanted, piece@));
    }
}

/// What there is to say on a repository, or the glyph for nothing to say.
pub fn detail_text(st: &RepoStatus) -> (r: String)
    ensures
        r@ == detail(st@),
{
    let mut pieces: Vec<String> = Vec::new();
    let local: u128 = st.staged as u128 + st.unstaged as u128 + st.untracked as u128;
    push_piece(&mut pieces, st.ahead > 0, numbered(I_AHEAD, st.ahead as u128));
    push_piece(&mut pieces, st.behind > 0, numbered(I_BEHIND, st.behind as u128));
    push_piece(&mut pieces, local > 0, numbered(I_DIRTY, local));
    push_piece(&mut pieces, st.conflicts > 0, numbered(I_CONFLICT, st.conflicts as u128));
    push_piece(&mut pieces, st.no_upstream(), I_UNPUBLISHED.to_owned().concat("unpushed"));
    if let Some(e) = &st.error {
        push_piece(&mut pieces, true, "(".to_owned().concat(e.as_str()).concat(")"));
    }
    proof {
        assert(strings(pieces@) == remarks(st@));
    }
    if pieces.len() == 0 {
        I_CLEAN.to_owned()
    } else {
        joined(&pieces, " ")
    }
}

/// The line on one repository.
pub fn row_text(st: &RepoStatus) -> (r: String)
    ensures
        r@ == row(st@),
{
    let mut out = st.glyph().to_owned();
    out.append(" ");
    push_padded(&mut out, st.name.as_str(), NAME_WIDTH);
    out.append(" ");
    match &st.branch {
        Some(b) => out.append(b.as_str()),
        None => if st.detached {
            out.append(DETACHED);
        } else {
            out.append("?");
        },
    }
    out.append("  ");
    let d = detail_text(st);
    out.append(d.as_str());
    out
}

/// The keys that the rows are sorted by.
fn row_sort_keys(statuses: &Vec<RepoStatus>, lowered: &Vec<String>) -> (r: Vec<SortKey>)
    requires
        lowered@.len() == statuses@.len(),
    ensures
        key_views(r@) == row_keys(status_views(statuses@), strings(lowered@)),
{
    let mut keys: Vec<SortKey> = Vec::new();
    let mut i: usize = 0;
    let ghost all = row_keys(status_views(statuses@), strings(lowered@));
    while i < statuses.len()
        invariant
            i <= statuses@.len(),
            lowered@.len() == statuses@.len(),
            all == row_keys(status_views(statuses@), strings(lowered@)),
            key_views(keys@) == all.take(i as int),
        decreases statuses@.len() - i,
    {
        let key = SortKey {
            late: statuses[i].is_clean_synced(),
            text: lowered[i].as_str().as_bytes_vec(),
        };
        let ghost before = keys@;
        keys.push(key);
        proof {
            assert(key_views(keys@) == key_views(before).push(key@));
            assert(all.take(i + 1) == all.take(i as int).push(all[i as int]));
        }
        i = i + 1;
    }
    proof {
        assert(all.take(i as int) == all);
    }
    keys
}

/// The tooltip, the names in lowercase being given.
pub fn tooltip_text(dir: &str, statuses: &Vec<RepoStatus>, lowered: &Vec<String>) -> (r: String)
    requires
        lowered@.len() == statuses@.len(),
    ensures
        r@ == join(tooltip_lines(dir@, status_views(statuses@), strings(lowered@)), "\n"@),
{
    let ghost vs = status_views(statuses@);
    let keys = row_sort_keys(statuses, lowered);
    let order = sorted_places(&keys);
    let ghost all = tooltip_lines(dir@, vs, strings(lowered@));
    let mut first = dir.to_owned();
    first.append(" \u{2014} ");
    push_decimal(&mut first, statuses.len() as u128);
    first.append(" repos");
    let mut lines: Vec<String> = Vec::new();
    lines.push(first);
    let mut i: usize = 0;
    proof {
        assert(strings(lines@) == all.take(1));
    }
    while i < order.len()
        invariant
            i <= order@.len(),
            vs == status_views(statuses@),
            key_views(keys@) == row_keys(vs, strings(lowered@)),
            is_stable_order(places(order@), key_views(keys@)),
            places(order@) == stable_order(key_views(keys@)),
            all == tooltip_lines(dir@, vs, strings(lowered@)),
            strings(lines@) == all.take(i + 1),
        decreases order@.len() - i,
    {
        proof {
            assert(places(order@)[i as int] == order@[i as int]);
            assert(places(order@).contains(order@[i as int] as int));
        }
        let line = row_text(&statuses[order[i]]);
        let ghost before = lines@;
        lines.push(line);
        proof {
            assert(strings(lines@) == strings(before).push(line@));
            assert(all[i + 1] == line@);
            assert(all.take(i + 2) == all.take(i + 1).push(all[i + 1]));
        }
        i = i + 1;
    }
    proof {
        assert(all.take(i + 1) == all);
    }
    joined(&lines, "\n")
}

/// What is printed and the exit code: on the statuses of the repositories under
/// `dir`, or on the error that kept `dir` from being scanned.
pub fn cmd_waybar_status(dir: &str, scanned: &Result<Vec<RepoStatus>, String>) -> (r: (
    WaybarOut,
    i32,
))
    ensures
        match scanned {
            Ok(statuses) => {
                let vs = status_views(statuses@);
                &&& r.0.text@ == summary(vs)
                &&& r.0.tooltip@ == join(tooltip_lines(dir@, vs, lowered_names(vs)), "\n"@)
                &&& r.0.class@ == class_name(overall(vs))
                &&& r.1 == 0
            },
            Err(e) => {
                &&& r.0.text@ == ICON_BAR@ + " err"@
                &&& r.0.tooltip@ == "cannot scan "@ + dir@ + ": "@ + e@
                &&& r.0.class@ == "error"@
                &&& r.1 == 1
            },
        },
{
    match scanned {
        Err(e) => {
            let out = WaybarOut {
                text: ICON_BAR.to_owned().concat(" err"),
                tooltip: "cannot scan ".to_owned().concat(dir).concat(": ").concat(e.as_str()),
                class: "error".to_owned(),
            };
            (out, 1)
        },
        Ok(statuses) => {
            let lowered = lowered_of(statuses);
            proof {
                assert(strings(lowered@).len() == statuses@.len());
            }
            let out = WaybarOut {
                text: summary_text(statuses),
                tooltip: tooltip_text(dir, statuses, &lowered),
                class: class_text(statuses),
            };
            (out, 0)
        },
    }
}

// ---------------------------------------------------------------------------
// Laws
// ---------------------------------------------------------------------------

/// Some repository is in state `c`.
pub open spec fn any_meets(vs: Seq<StatusView>, c: Condition) -> bool {
    exists|i: int| 0 <= i < vs.len() && #[trigger] vs[i].meets(c)
}

/// A count is 0 just when no repository is in the state, and never more than
/// there are repositories.
proof fn lemma_count(vs: Seq<StatusView>, c: Condition)
    ensures
        count(vs, c) <= vs.len(),
        count(vs, c) > 0 <==> any_meets(vs, c),
    decreases vs.len(),
{
    if vs.len() > 0 {
        let fewer = vs.drop_last();
        lemma_count(fewer, c);
        if vs.last().meets(c) {
            assert(vs[vs.len() - 1].meets(c));
        }
        if any_meets(fewer, c) {
            let i = choose|i: int| 0 <= i < fewer.len() && #[trigger] fewer[i].meets(c);
            assert(vs[i].meets(c));
        }
        if any_meets(vs, c) && !vs.last().meets(c) {
            let i = choose|i: int| 0 <= i < vs.len() && #[trigger] vs[i].meets(c);
            assert(fewer[i].meets(c));
        }
    }
}

/// The summary has a part for a state just when some repository is in it.
pub proof fn only_groups_with_members_are_shown(vs: Seq<StatusView>, c: Condition)
    ensures
        group(vs, c).len() > 0 <==> any_meets(vs, c),
        count(vs, c) <= vs.len(),
{
    lemma_count(vs, c);
    reveal_strlit(" ");
    glyphs_are_distinct(c, c);
}

/// A repository counts as ahead, as behind or as diverged, never as two of these.
pub proof fn sides_do_not_overlap(vs: Seq<StatusView>)
    ensures
        count(vs, Condition::Ahead) + count(vs, Condition::Behind) + count(vs, Condition::Diverged)
            <= vs.len(),
    decreases vs.len(),
{
    if vs.len() > 0 {
        sides_do_not_overlap(vs.drop_last());
    }
}

/// The class stands for the most pressing state that any repository is in: some
/// repository is in it, unless it is the class for nothing to report, and none
/// is in a more pressing one. No other class is so.
pub proof fn class_is_most_pressing(vs: Seq<StatusView>, c: Condition)
    ensures
        overall(vs) == c <==> (c is Clean || any_meets(vs, c)) && forall|d: Condition|
            rank(d) < rank(c) ==> !#[trigger] any_meets(vs, d),
{
    lemma_count(vs, Condition::Error);
    lemma_count(vs, Condition::Conflict);
    lemma_count(vs, Condition::Unpublished);
    lemma_count(vs, Condition::Diverged);
    lemma_count(vs, Condition::Behind);
    lemma_count(vs, Condition::Ahead);
    lemma_count(vs, Condition::Dirty);
    let o = overall(vs);
    if (c is Clean || any_meets(vs, c)) && forall|d: Condition|
        rank(d) < rank(c) ==> !#[trigger] any_meets(vs, d) {
        if rank(o) < rank(c) {
            assert(!any_meets(vs, o));
        }
    }
}

/// The class agrees with the rows of the tooltip: no row shows the glyph of a
/// more pressing state, and some row shows the glyph of this one.
pub proof fn class_agrees_with_rows(vs: Seq<StatusView>)
    ensures
        forall|i: int| 0 <= i < vs.len() ==> rank(overall(vs)) <= rank((#[trigger] vs[i]).worst()),
        vs.len() > 0 ==> exists|i: int|
            0 <= i < vs.len() && (#[trigger] vs[i]).worst() == overall(vs),
{
    let o = overall(vs);
    class_is_most_pressing(vs, o);
    assert forall|i: int| 0 <= i < vs.len() implies rank(o) <= rank((#[trigger] vs[i]).worst()) by {
        let w = vs[i].worst();
        worst_is_most_pressing(vs[i], w);
        assert(vs[i].meets(w));
        assert(any_meets(vs, w));
    }
    if vs.len() > 0 {
        if o is Clean {
            assert(rank(o) <= rank(vs[0].worst()));
            assert(vs[0].worst() == o);
        } else {
            let i = choose|i: int| 0 <= i < vs.len() && #[trigger] vs[i].meets(o);
            worst_is_most_pressing(vs[i], o);
            assert forall|d: Condition| rank(d) < rank(o) implies !#[trigger] vs[i].meets(d) by {
                if vs[i].meets(d) {
                    assert(any_meets(vs, d));
                }
            }
            assert(vs[i].worst() == o);
        }
    }
}

/// The tooltip has a heading and one row for each repository, each once; those
/// with something to report come first, and in both groups no name is followed
/// by one that comes before it.
pub proof fn tooltip_is_complete_and_sorted(
    dir: Seq<char>,
    vs: Seq<StatusView>,
    lowered: Seq<Seq<char>>,
)
    ensures
        ({
            let order = stable_order(row_keys(vs, lowered));
            let ls = tooltip_lines(dir, vs, lowered);
            &&& ls.len() == vs.len() + 1
            &&& ls[0] == heading(dir, vs.len())
            &&& order.len() == vs.len() && order.no_duplicates()
            &&& forall|p: int|
                0 <= p < vs.len() ==> 0 <= #[trigger] order[p] < vs.len() && ls[p + 1] == row(
                    vs[order[p]],
                )
            &&& forall|p: int, q: int|
                #![trigger order[p], order[q]]
                0 <= p < q < vs.len() ==> {
                    let a = vs[order[p]].worst() is Clean;
                    let b = vs[order[q]].worst() is Clean;
                    &&& a ==> b
                    &&& a == b ==> !bytes_less(
                        encode_utf8(lowered[order[q]]),
                        encode_utf8(lowered[order[p]]),
                    )
                }
        }),
{
    let keys = row_keys(vs, lowered);
    let order = stable_order(keys);
    let ls = tooltip_lines(dir, vs, lowered);
    stable_order_is_unique(keys, order);
    assert forall|p: int| 0 <= p < vs.len() implies 0 <= #[trigger] order[p] < vs.len() && ls[p + 1]
        == row(vs[order[p]]) by {
        assert(order.contains(order[p]));
    }
    assert forall|p: int, q: int| 0 <= p < q < vs.len() implies order[p] != order[q] && {
        let a = vs[#[trigger] order[p]].worst() is Clean;
        let b = vs[#[trigger] order[q]].worst() is Clean;
        &&& a ==> b
        &&& a == b ==> !bytes_less(
            encode_utf8(lowered[order[q]]),
            encode_utf8(lowered[order[p]]),
        )
    } by {
        assert(goes_before(keys, order[p], order[q]));
        keys_are_totally_ordered(keys[order[p]], keys[order[q]]);
        keys_are_totally_ordered(keys[order[q]], keys[order[q]]);
    }
}

} // verus!
