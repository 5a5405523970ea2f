//! The list of repositories for a rofi menu.

use crate::icons::{I_CLEAN_DOT, I_DIRTY};
use crate::order::{
    bytes_less, goes_before, is_stable_order, key_views, keys_are_totally_ordered, places,
    sorted_places, sorting_is_stable, stable_order, stable_order_is_unique, KeyView, SortKey,
};
use crate::status::{lowered_names, lowered_of, status_views, RepoStatus, StatusView};
use crate::text::{find, lemma_run_len_is, other_than, strings};
use vstd::prelude::*;
use vstd::utf8::encode_utf8;

verus! {

/// What the command prints, to the standard output and to the standard error,
/// line by line, and its exit code.
pub struct Listing {
    pub out: Vec<String>,
    pub err: Vec<String>,
    pub code: i32,
}

/// The icon of a repository in the list.
pub open spec fn icon(st: StatusView) -> Seq<char> {
    if st.dirty {
        I_DIRTY@
    } else {
        I_CLEAN_DOT@
    }
}

/// The line on one repository.
pub open spec fn entry(st: StatusView) -> Seq<char> {
    icon(st) + " "@ + st.name
}

/// The keys that the entries are sorted by: repositories with local changes
/// first, then by name in lowercase.
pub open spec fn entry_keys(vs: Seq<StatusView>, lowered: Seq<Seq<char>>) -> Seq<KeyView> {
    Seq::new(vs.len(), |i: int| KeyView { late: !vs[i].dirty, text: encode_utf8(lowered[i]) })
}

/// The list: one entry for each repository, sorted.
pub open spec fn entries(vs: Seq<StatusView>, lowered: Seq<Seq<char>>) -> Seq<Seq<char>> {
    stable_order(entry_keys(vs, lowered)).map_values(|i: int| entry(vs[i]))
}

/// The line on one repository.
pub fn entry_text(st: &RepoStatus) -> (r: String)
    ensures
        r@ == entry(st@),
{
    let icon = if st.dirty {
        I_DIRTY
    } else {
        I_CLEAN_DOT
    };
    icon.to_owned().concat(" ").concat(st.name.as_str())
}

/// The keys that the entries are sorted by.
fn entry_sort_keys(statuses: &Vec<RepoStatus>, lowered: &Vec<String>) -> (r: Vec<SortKey>)
    requires
        lowered@.len() == statuses@.len(),
    ensures
        key_views(r@) == entry_keys(status_views(statuses@), strings(lowered@)),
{
    let mut keys: Vec<SortKey> = Vec::new();
    let mut i: usize = 0;
    let ghost all = entry_keys(status_views(statuses@), strings(lowered@));
    while i < statuses.len()
        invariant
            i <= statuses@.len(),
            lowered@.len() == statuses@.len(),
            all == entry_keys(status_views(statuses@), strings(lowered@)),
            key_views(keys@) == all.take(i as int),
        decreases statuses@.len() - i,
    {
        let key = SortKey { late: !statuses[i].dirty, text: lowered[i].as_str().as_bytes_vec() };
        let ghost before = keys@;
        keys.push(key);
        proof {
            assert(key_views(keys@) == key_views(before).push(key@));
            assert(all.take(i + 1) == all.take(i as int).push(all[i as int]));
        }
        i = i + 1;
    }
    proof {
        assert(all.take(i as int) == all);
    }
    keys
}

/// The list, the names in lowercase being given.
pub fn list_entries(statuses: &Vec<RepoStatus>, lowered: &Vec<String>) -> (r: Vec<String>)
    requires
        lowered@.len() == statuses@.len(),
    ensures
        strings(r@) == entries(status_views(statuses@), strings(lowered@)),
{
    let ghost vs = status_views(statuses@);
    let keys = entry_sort_keys(statuses, lowered);
    let order = sorted_places(&keys);
    let ghost all = entries(vs, strings(lowered@));
    let mut out: Vec<String> = Vec::new();
    let mut i: usize = 0;
    while i < order.len()
        invariant
            i <= order@.len(),
            vs == status_views(statuses@),
            key_views(keys@) == entry_keys(vs, strings(lowered@)),
            is_stable_order(places(order@), key_views(keys@)),
            places(order@) == stable_order(key_views(keys@)),
            all == entries(vs, strings(lowered@)),
            strings(out@) == all.take(i as int),
        decreases order@.len() - i,
    {
        proof {
            assert(places(order@)[i as int] == order@[i as int]);
            assert(places(order@).contains(order@[i as int] as int));
        }
        let line = entry_text(&statuses[order[i]]);
        let ghost before = out@;
        out.push(line);
        proof {
            assert(strings(out@) == strings(before).push(line@));
            assert(all[i as int] == line@);
            assert(all.take(i + 1) == all.take(i as int).push(all[i as int]));
        }
        i = i + 1;
    }
    proof {
        assert(all.take(i as int) == all);
    }
    out
}

/// What is printed and the exit code: on the statuses of the repositories under
/// `dir`, or on the error that kept `dir` from being scanned.
pub fn cmd_rofi_list(dir: &str, scanned: &Result<Vec<RepoStatus>, String>) -> (r: Listing)
    ensures
        match scanned {
            Ok(statuses) => {
                let vs = status_views(statuses@);
                &&& strings(r.out@) == entries(vs, lowered_names(vs))
                &&& strings(r.err@) == Seq::<Seq<char>>::empty()
                &&& r.code == 0
            },
            Err(e) => {
                &&& strings(r.out@) == Seq::<Seq<char>>::empty()
                &&& strings(r.err@) == seq!["cannot scan "@ + dir@ + ": "@ + e@]
                &&& r.code == 1
            },
        },
{
    let mut err: Vec<String> = Vec::new();
    let out: Vec<String> = Vec::new();
    proof {
        assert(strings(err@) == Seq::<Seq<char>>::empty());
        assert(strings(out@) == Seq::<Seq<char>>::empty());
    }
    match scanned {
        Err(e) => {
            let line = "cannot scan ".to_owned().concat(dir).concat(": ").concat(e.as_str());
            err.push(line);
            proof {
                assert(strings(err@) == seq![line@]);
            }
            Listing { out, err, code: 1 }
        },
        Ok(statuses) => {
            let lowered = lowered_of(statuses);
            proof {
                assert(strings(lowered@).len() == statuses@.len());
            }
            Listing { out: list_entries(statuses, &lowered), err, code: 0 }
        },
    }
}

// ---------------------------------------------------------------------------
// Laws
// ---------------------------------------------------------------------------

/// The list has one entry for each repository, each once; those with local
/// changes come first, and in both groups no name is followed by one that comes
/// before it.
pub proof fn list_is_complete_and_sorted(vs: Seq<StatusView>, lowered: Seq<Seq<char>>)
    ensures
        ({
            let order = stable_order(entry_keys(vs, lowered));
            let ls = entries(vs, lowered);
            &&& ls.len() == vs.len()
            &&& order.len() == vs.len() && order.no_duplicates()
            &&& forall|p: int|
                0 <= p < vs.len() ==> 0 <= #[trigger] order[p] < vs.len() && ls[p] == entry(
                    vs[order[p]],
                )
            &&& forall|p: int, q: int|
                #![trigger order[p], order[q]]
                0 <= p < q < vs.len() ==> {
                    let a = vs[order[p]].dirty;
                    let b = vs[order[q]].dirty;
                    &&& b ==> a
                    &&& a == b ==> !bytes_less(
                        encode_utf8(lowered[order[q]]),
                        encode_utf8(lowered[order[p]]),
                    )
                }
        }),
{
    let keys = entry_keys(vs, lowered);
    let order = stable_order(keys);
    stable_order_is_unique(keys, order);
    assert forall|p: int| 0 <= p < vs.len() implies 0 <= #[trigger] order[p] < vs.len() by {
        assert(order.contains(order[p]));
    }
    assert forall|p: int, q: int| 0 <= p < q < vs.len() implies order[p] != order[q] && {
        let a = vs[#[trigger] order[p]].dirty;
        let b = vs[#[trigger] order[q]].dirty;
        &&& b ==> a
        &&& a == b ==> !bytes_less(
            encode_utf8(lowered[order[q]]),
            encode_utf8(lowered[order[p]]),
        )
    } by {
        assert(goes_before(keys, order[p], order[q]));
        keys_are_totally_ordered(keys[order[p]], keys[order[q]]);
        keys_are_totally_ordered(keys[order[q]], keys[order[q]]);
    }
}

/// What stands behind the first blank of an entry is the name, whatever it is.
pub proof fn name_can_be_cut_out(st: StatusView)
    ensures
        entry(st).skip(find(entry(st), ' ') + 1) == st.name,
{
    reveal_strlit("\u{25cf}");
    reveal_strlit("\u{25cb}");
    reveal_strlit(" ");
    let e = entry(st);
    assert(icon(st).len() == 1);
    assert(e[0] == icon(st)[0]);
    assert(e[1] == ' ');
    lemma_run_len_is(e, other_than(' '), 1);
    assert(e.skip(2) == st.name);
}

/// An entry starts with U+25CF where the repository is dirty and with U+25CB
/// where it is not, whatever the counts are; a blank and the name follow.
pub proof fn icon_tells_dirty(st: StatusView)
    ensures
        st.dirty ==> entry(st) == seq!['\u{25cf}', ' '] + st.name,
        !st.dirty ==> entry(st) == seq!['\u{25cb}', ' '] + st.name,
        entry(st)[0] == '\u{25cf}' <==> st.dirty,
        entry(st)[0] == '\u{25cb}' <==> !st.dirty,
{
    reveal_strlit("\u{25cf}");
    reveal_strlit("\u{25cb}");
    reveal_strlit(" ");
    assert(I_DIRTY@ == seq!['\u{25cf}']);
    assert(I_CLEAN_DOT@ == seq!['\u{25cb}']);
    assert(" "@ == seq![' ']);
    assert(entry(st) =~= if st.dirty {
        seq!['\u{25cf}', ' '] + st.name
    } else {
        seq!['\u{25cb}', ' '] + st.name
    });
}

/// Where a repository stands in the list and what its line is: there is an order
/// of all repositories, each once, in which those that are dirty come before
/// those that are not, names within each group ascend, and of two with equal
/// names the one found first comes first; the lines are those of this order.
pub proof fn lines_follow_the_order(vs: Seq<StatusView>, lowered: Seq<Seq<char>>) -> (order: Seq<
    int,
>)
    ensures
        order.len() == vs.len(),
        order.no_duplicates(),
        entries(vs, lowered).len() == vs.len(),
        forall|p: int|
            0 <= p < vs.len() ==> {
                let st = vs[#[trigger] order[p]];
                &&& 0 <= order[p] < vs.len()
                &&& entries(vs, lowered)[p] == if st.dirty {
                    seq!['\u{25cf}', ' '] + st.name
                } else {
                    seq!['\u{25cb}', ' '] + st.name
                }
            },
        forall|p: int, q: int|
            #![trigger order[p], order[q]]
            0 <= p < q < vs.len() ==> {
                &&& vs[order[q]].dirty ==> vs[order[p]].dirty
                &&& vs[order[p]].dirty == vs[order[q]].dirty ==> {
                    &&& !bytes_less(encode_utf8(lowered[order[q]]), encode_utf8(lowered[order[p]]))
                    &&& lowered[order[p]] == lowered[order[q]] ==> order[p] < order[q]
                }
            },
{
    let keys = entry_keys(vs, lowered);
    let order = stable_order(keys);
    sorting_is_stable(keys);
    list_is_complete_and_sorted(vs, lowered);
    assert forall|p: int| 0 <= p < vs.len() implies 0 <= #[trigger] order[p] < vs.len() && entries(
        vs,
        lowered,
    )[p] == if vs[order[p]].dirty {
        seq!['\u{25cf}', ' '] + vs[order[p]].name
    } else {
        seq!['\u{25cb}', ' '] + vs[order[p]].name
    } by {
        icon_tells_dirty(vs[order[p]]);
    }
    assert forall|p: int, q: int|
        #![trigger order[p], order[q]]
        0 <= p < q < vs.len() && vs[order[p]].dirty == vs[order[q]].dirty && lowered[order[p]]
            == lowered[order[q]] implies order[p] < order[q] by {
        assert(keys[order[p]] == keys[order[q]]);
    }
    order
}

} // verus!
