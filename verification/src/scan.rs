//! Picking the repositories out of a directory listing.

use crate::order::{
    bytes_less, goes_before, is_stable_order, key_views, keys_are_totally_ordered, places,
    sorted_places, sorting_is_stable, stable_order, stable_order_is_unique, KeyView, SortKey,
};
use vstd::prelude::*;

verus! {

/// What a directory listing shows of one entry: the bytes of its file name,
/// whether it is a directory, and whether it holds something named `.git`.
pub struct Entry {
    pub name: Vec<u8>,
    pub is_dir: bool,
    pub has_git: bool,
}

/// The entry is a repository.
pub open spec fn is_repo(e: Entry) -> bool {
    e.is_dir && e.has_git
}

/// Entry `i` of a listing that was read without error.
pub open spec fn entry_at(listing: Seq<Result<Entry, String>>, i: int) -> Entry {
    listing[i]->Ok_0
}

/// No entry of the listing is an error.
pub open spec fn is_readable(listing: Seq<Result<Entry, String>>) -> bool {
    forall|i: int| 0 <= i < listing.len() ==> #[trigger] listing[i] is Ok
}

/// `i` is the place of the first error in the listing.
pub open spec fn fails_first_at(listing: Seq<Result<Entry, String>>, i: int) -> bool {
    &&& 0 <= i < listing.len()
    &&& listing[i] is Err
    &&& forall|j: int| 0 <= j < i ==> #[trigger] listing[j] is Ok
}

/// The places of the repositories among the first `n` entries, as listed.
pub open spec fn repo_places(listing: Seq<Result<Entry, String>>, n: int) -> Seq<int>
    decreases n,
{
    if n <= 0 {
        seq![]
    } else if is_repo(entry_at(listing, n - 1)) {
        repo_places(listing, n - 1).push(n - 1)
    } else {
        repo_places(listing, n - 1)
    }
}

/// The keys that repositories are sorted by: the bytes of their file names.
pub open spec fn name_keys(listing: Seq<Result<Entry, String>>, found: Seq<int>) -> Seq<KeyView> {
    found.map_values(|i: int| KeyView { late: false, text: entry_at(listing, i).name@ })
}

/// The places of the repositories in the listing, sorted by file name.
pub open spec fn sorted_repos(listing: Seq<Result<Entry, String>>) -> Seq<int> {
    let found = repo_places(listing, listing.len() as int);
    stable_order(name_keys(listing, found)).map_values(|k: int| found[k])
}

/// The places that `repo_places` gives are those of the repositories, ascending.
pub proof fn lemma_repo_places(listing: Seq<Result<Entry, String>>, n: int)
    requires
        0 <= n <= listing.len(),
    ensures
        forall|k: int|
            0 <= k < repo_places(listing, n).len() ==> 0 <= #[trigger] repo_places(listing, n)[k] < n
                && is_repo(entry_at(listing, repo_places(listing, n)[k])),
        forall|i: int|
            0 <= i < n && is_repo(entry_at(listing, i)) ==> #[trigger] repo_places(
                listing,
                n,
            ).contains(i),
        forall|k: int, l: int|
            0 <= k < l < repo_places(listing, n).len() ==> repo_places(listing, n)[k] < repo_places(
                listing,
                n,
            )[l],
    decreases n,
{
    if n > 0 {
        lemma_repo_places(listing, n - 1);
        let before = repo_places(listing, n - 1);
        let now = repo_places(listing, n);
        assert forall|i: int|
            0 <= i < n && is_repo(entry_at(listing, i)) implies #[trigger] now.contains(i) by {
            if i == n - 1 {
                assert(now[now.len() - 1] == i);
            } else {
                assert(before.contains(i));
                let k = choose|k: int| 0 <= k < before.len() && before[k] == i;
                assert(now[k] == i);
            }
        }
    }
}

/// The repositories of a directory, given its listing, sorted by file name: their
/// places in the listing. An error, of the listing as a whole or the first of
/// an entry, comes back as it is.
pub fn scan_repos(listing: &Result<Vec<Result<Entry, String>>, String>) -> (r: Result<
    Vec<usize>,
    String,
>)
    ensures
        match (listing, r) {
            (Err(e), Err(f)) => f@ == e@,
            (Ok(v), Ok(found)) => is_readable(v@) && places(found@) == sorted_repos(v@),
            (Ok(v), Err(f)) => exists|i: int| #[trigger]
                fails_first_at(v@, i) && f@ == v@[i]->Err_0@,
            (Err(_), Ok(_)) => false,
        },
{
    let v = match listing {
        Ok(v) => v,
        Err(e) => return Err(e.clone()),
    };
    let mut found: Vec<usize> = Vec::new();
    let mut keys: Vec<SortKey> = Vec::new();
    let mut i: usize = 0;
    proof {
        assert(places(found@) == repo_places(v@, 0));
        assert(key_views(keys@) == name_keys(v@, places(found@)));
    }
    while i < v.len()
        invariant
            i <= v@.len(),
            *listing == Ok::<Vec<Result<Entry, String>>, String>(*v),
            forall|j: int| 0 <= j < i ==> #[trigger] v@[j] is Ok,
            places(found@) == repo_places(v@, i as int),
            key_views(keys@) == name_keys(v@, places(found@)),
        decreases v@.len() - i,
    {
        match &v[i] {
            Err(e) => {
                let e = e.clone();
                proof {
                    assert(fails_first_at(listing->Ok_0@, i as int));
                }
                return Err(e);
            },
            Ok(entry) => {
                if entry.is_dir && entry.has_git {
                    let name = entry.name.clone();
                    proof {
                        assert(name@ == entry.name@);
                    }
                    let ghost found0 = found@;
                    let ghost keys0 = keys@;
                    let key = SortKey { late: false, text: name };
                    found.push(i);
                    keys.push(key);
                    proof {
                        assert(places(found@) == places(found0).push(i as int));
                        assert(key_views(keys@) == key_views(keys0).push(key@));
                        assert(key_views(keys@) == name_keys(v@, places(found@)));
                    }
                }
            },
        }
        i = i + 1;
    }
    let order = sorted_places(&keys);
    let mut out: Vec<usize> = Vec::new();
    let mut k: usize = 0;
    let ghost all = sorted_repos(v@);
    while k < order.len()
        invariant
            k <= order@.len(),
            key_views(keys@) == name_keys(v@, places(found@)),
            places(found@) == repo_places(v@, v@.len() as int),
            is_stable_order(places(order@), key_views(keys@)),
            places(order@) == stable_order(key_views(keys@)),
            all == sorted_repos(v@),
            places(out@) == all.take(k as int),
        decreases order@.len() - k,
    {
        proof {
            assert(places(order@)[k as int] == order@[k as int]);
            assert(places(order@).contains(order@[k as int] as int));
            assert(key_views(keys@).len() == found@.len());
        }
        let ghost before = out@;
        out.push(found[order[k]]);
        proof {
            assert(places(out@) == places(before).push(all[k as int]));
            assert(all.take(k + 1) == all.take(k as int).push(all[k as int]));
        }
        k = k + 1;
    }
    proof {
        assert(all.take(k as int) == all);
    }
    Ok(out)
}

/// A scan gives the place of every repository, once, and of nothing else, and
/// no name is followed by one that comes before it.
pub proof fn scan_is_complete_and_sorted(listing: Seq<Result<Entry, String>>)
    requires
        is_readable(listing),
    ensures
        forall|i: int| #[trigger]
            sorted_repos(listing).contains(i) <==> 0 <= i < listing.len() && is_repo(
                entry_at(listing, i),
            ),
        sorted_repos(listing).no_duplicates(),
        forall|p: int, q: int|
            0 <= p < q < sorted_repos(listing).len() ==> !bytes_less(
                entry_at(listing, #[trigger] sorted_repos(listing)[q]).name@,
                entry_at(listing, #[trigger] sorted_repos(listing)[p]).name@,
            ),
{
    let n = listing.len() as int;
    let found = repo_places(listing, n);
    let keys = name_keys(listing, found);
    let order = stable_order(keys);
    let out = sorted_repos(listing);
    lemma_repo_places(listing, n);
    stable_order_is_unique(keys, order);
    assert forall|i: int| #[trigger] out.contains(i) <==> 0 <= i < n && is_repo(
        entry_at(listing, i),
    ) by {
        if out.contains(i) {
            let p = choose|p: int| 0 <= p < out.len() && out[p] == i;
            assert(order.contains(order[p]));
            assert(found[order[p]] == i);
        }
        if 0 <= i < n && is_repo(entry_at(listing, i)) {
            assert(found.contains(i));
            let k = choose|k: int| 0 <= k < found.len() && found[k] == i;
            assert(order.contains(k));
            let p = choose|p: int| 0 <= p < order.len() && order[p] == k;
            assert(out[p] == i);
        }
    }
    assert forall|p: int, q: int| 0 <= p < q < out.len() implies out[p] != out[q] && !bytes_less(
        entry_at(listing, #[trigger] out[q]).name@,
        entry_at(listing, #[trigger] out[p]).name@,
    ) by {
        assert(order.contains(order[p]) && order.contains(order[q]));
        assert(goes_before(keys, order[p], order[q]));
        keys_are_totally_ordered(keys[order[p]], keys[order[q]]);
        keys_are_totally_ordered(keys[order[q]], keys[order[q]]);
        if order[p] < order[q] {
            assert(found[order[p]] < found[order[q]]);
        } else if order[q] < order[p] {
            assert(found[order[q]] < found[order[p]]);
        }
    }
}

/// The repositories are the directories with something named `.git` in them: a
/// scan gives their places, each once, with names that ascend byte by byte and,
/// of two equal names, the one listed first.
pub proof fn directories_with_git_are_found(listing: Seq<Result<Entry, String>>)
    requires
        is_readable(listing),
    ensures
        forall|i: int|
            0 <= i < listing.len() ==> (#[trigger] sorted_repos(listing).contains(i)
                <==> listing[i]->Ok_0.is_dir && listing[i]->Ok_0.has_git),
        forall|i: int| #[trigger] sorted_repos(listing).contains(i) ==> 0 <= i < listing.len(),
        sorted_repos(listing).no_duplicates(),
        forall|p: int, q: int|
            #![trigger sorted_repos(listing)[p], sorted_repos(listing)[q]]
            0 <= p < q < sorted_repos(listing).len() ==> {
                let a = sorted_repos(listing)[p];
                let b = sorted_repos(listing)[q];
                &&& !bytes_less(listing[b]->Ok_0.name@, listing[a]->Ok_0.name@)
                &&& listing[a]->Ok_0.name@ == listing[b]->Ok_0.name@ ==> a < b
            },
{
    scan_is_complete_and_sorted(listing);
    let n = listing.len() as int;
    let found = repo_places(listing, n);
    let keys = name_keys(listing, found);
    let order = stable_order(keys);
    let out = sorted_repos(listing);
    lemma_repo_places(listing, n);
    sorting_is_stable(keys);
    assert forall|p: int, q: int|
        #![trigger out[p], out[q]]
        0 <= p < q < out.len() && listing[out[p]]->Ok_0.name@
            == listing[out[q]]->Ok_0.name@ implies out[p] < out[q] by {
        assert(out[p] == found[order[p]] && out[q] == found[order[q]]);
        assert(keys[order[p]] == keys[order[q]]);
        assert(order[p] < order[q]);
    }
    assert forall|p: int, q: int| #![trigger out[p], out[q]] 0 <= p < q < out.len() implies !bytes_less(
        listing[out[q]]->Ok_0.name@,
        listing[out[p]]->Ok_0.name@,
    ) by {
        assert(!bytes_less(entry_at(listing, out[q]).name@, entry_at(listing, out[p]).name@));
    }
}

/// A listing can be used just when none of its entries is an error; else the
/// error is that of the first such entry, and there is only one first.
pub proof fn first_error_is_found(listing: Seq<Result<Entry, String>>, i: int, j: int)
    ensures
        is_readable(listing) ==> !fails_first_at(listing, i),
        fails_first_at(listing, i) && fails_first_at(listing, j) ==> i == j,
        0 <= i < listing.len() && listing[i] is Err && (forall|k: int|
            0 <= k < i ==> #[trigger] listing[k] is Ok) ==> fails_first_at(listing, i),
{
    if fails_first_at(listing, i) && fails_first_at(listing, j) {
        if i < j {
            assert(listing[i] is Ok);
        } else if j < i {
            assert(listing[j] is Ok);
        }
    }
}

} // verus!
