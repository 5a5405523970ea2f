//! The status of one repository.

use crate::icons::{
    I_AHEAD, I_BEHIND, I_CLEAN, I_CONFLICT, I_DIRTY, I_DIVERGED, I_ERROR, I_UNPUBLISHED,
};
use crate::text::{lowercase, strings, to_lower};
use vstd::prelude::*;

verus! {

/// What is known of one repository.
pub struct RepoStatus {
    pub name: String,
    pub path: String,
    pub branch: Option<String>,
    pub detached: bool,
    pub has_upstream: bool,
    pub ahead: usize,
    pub behind: usize,
    pub staged: usize,
    pub unstaged: usize,
    pub untracked: usize,
    pub conflicts: usize,
    pub dirty: bool,
    pub fetch_error: bool,
    pub error: Option<String>,
}

/// The mathematical counterpart of [`RepoStatus`].
#[verifier::ext_equal]
pub struct StatusView {
    pub name: Seq<char>,
    pub path: Seq<char>,
    pub branch: Option<Seq<char>>,
    pub detached: bool,
    pub has_upstream: bool,
    pub ahead: nat,
    pub behind: nat,
    pub staged: nat,
    pub unstaged: nat,
    pub untracked: nat,
    pub conflicts: nat,
    pub dirty: bool,
    pub fetch_error: bool,
    pub error: Option<Seq<char>>,
}

/// The view of an optional string.
pub open spec fn opt_text(s: Option<String>) -> Option<Seq<char>> {
    match s {
        Some(t) => Some(t@),
        None => None,
    }
}

/// The views of a sequence of statuses.
pub open spec fn status_views(v: Seq<RepoStatus>) -> Seq<StatusView> {
    v.map_values(|st: RepoStatus| st@)
}

impl View for RepoStatus {
    type V = StatusView;

    open spec fn view(&self) -> StatusView {
        StatusView {
            name: self.name@,
            path: self.path@,
            branch: opt_text(self.branch),
            detached: self.detached,
            has_upstream: self.has_upstream,
            ahead: self.ahead as nat,
            behind: self.behind as nat,
            staged: self.staged as nat,
            unstaged: self.unstaged as nat,
            untracked: self.untracked as nat,
            conflicts: self.conflicts as nat,
            dirty: self.dirty,
            fetch_error: self.fetch_error,
            error: opt_text(self.error),
        }
    }
}

/// The states that a repository is classed by, the most pressing first.
#[derive(Clone, Copy, Debug, PartialEq, Eq, Structural)]
pub enum Condition {
    Error,
    Conflict,
    Unpublished,
    Diverged,
    Behind,
    Ahead,
    Dirty,
    Clean,
}

/// The place of a condition in the order of priority, from 0 for the most pressing.
pub open spec fn rank(c: Condition) -> int {
    match c {
        Condition::Error => 0,
        Condition::Conflict => 1,
        Condition::Unpublished => 2,
        Condition::Diverged => 3,
        Condition::Behind => 4,
        Condition::Ahead => 5,
        Condition::Dirty => 6,
        Condition::Clean => 7,
    }
}

impl StatusView {
    /// A branch is checked out that has never been pushed.
    pub open spec fn no_upstream(self) -> bool {
        self.branch is Some && !self.detached && !self.has_upstream
    }

    /// The repository is in this state.
    pub open spec fn meets(self, c: Condition) -> bool {
        match c {
            Condition::Error => self.error is Some,
            Condition::Conflict => self.conflicts > 0,
            Condition::Unpublished => self.no_upstream(),
            Condition::Diverged => self.ahead > 0 && self.behind > 0,
            Condition::Behind => self.behind > 0 && self.ahead == 0,
            Condition::Ahead => self.ahead > 0 && self.behind == 0,
            Condition::Dirty => self.dirty,
            Condition::Clean => true,
        }
    }

    /// The most pressing state that the repository is in.
    pub open spec fn worst(self) -> Condition {
        if self.meets(Condition::Error) {
            Condition::Error
        } else if self.meets(Condition::Conflict) {
            Condition::Conflict
        } else if self.meets(Condition::Unpublished) {
            Condition::Unpublished
        } else if self.meets(Condition::Diverged) {
            Condition::Diverged
        } else if self.meets(Condition::Behind) {
            Condition::Behind
        } else if self.meets(Condition::Ahead) {
            Condition::Ahead
        } else if self.meets(Condition::Dirty) {
            Condition::Dirty
        } else {
            Condition::Clean
        }
    }

    /// The number of entries that `git status` lists as changed.
    pub open spec fn total(self) -> nat {
        self.staged + self.unstaged + self.untracked + self.conflicts
    }
}

/// The glyph of a condition.
pub open spec fn glyph_of(c: Condition) -> Seq<char> {
    match c {
        Condition::Error => I_ERROR@,
        Condition::Conflict => I_CONFLICT@,
        Condition::Unpublished => I_UNPUBLISHED@,
        Condition::Diverged => I_DIVERGED@,
        Condition::Behind => I_BEHIND@,
        Condition::Ahead => I_AHEAD@,
        Condition::Dirty => I_DIRTY@,
        Condition::Clean => I_CLEAN@,
    }
}

/// The glyph of a condition.
pub fn condition_glyph(c: Condition) -> (r: &'static str)
    ensures
        r@ == glyph_of(c),
{
    match c {
        Condition::Error => I_ERROR,
        Condition::Conflict => I_CONFLICT,
        Condition::Unpublished => I_UNPUBLISHED,
        Condition::Diverged => I_DIVERGED,
        Condition::Behind => I_BEHIND,
        Condition::Ahead => I_AHEAD,
        Condition::Dirty => I_DIRTY,
        Condition::Clean => I_CLEAN,
    }
}

impl RepoStatus {
    /// A branch that exists but has never been pushed (no upstream configured).
    pub fn no_upstream(&self) -> (r: bool)
        ensures
            r == self@.no_upstream(),
    {
        self.branch.is_some() && !self.detached && !self.has_upstream
    }

    /// Whether the repository is in this state.
    pub fn meets(&self, c: Condition) -> (r: bool)
        ensures
            r == self@.meets(c),
    {
        match c {
            Condition::Error => self.error.is_some(),
            Condition::Conflict => self.conflicts > 0,
            Condition::Unpublished => self.no_upstream(),
            Condition::Diverged => self.ahead > 0 && self.behind > 0,
            Condition::Behind => self.behind > 0 && self.ahead == 0,
            Condition::Ahead => self.ahead > 0 && self.behind == 0,
            Condition::Dirty => self.dirty,
            Condition::Clean => true,
        }
    }

    /// Nothing to report: no error, no local change, nothing to push or pull.
    pub fn is_clean_synced(&self) -> (r: bool)
        ensures
            r == (self@.worst() is Clean),
    {
        self.error.is_none() && !self.dirty && self.conflicts == 0 && self.ahead == 0
            && self.behind == 0 && !self.no_upstream()
    }

    /// Single glyph summarizing the most important state of this repo.
    pub fn glyph(&self) -> (r: &'static str)
        ensures
            r@ == glyph_of(self@.worst()),
    {
        if self.error.is_some() {
            I_ERROR
        } else if self.conflicts > 0 {
            I_CONFLICT
        } else if self.no_upstream() {
            I_UNPUBLISHED
        } else if self.ahead > 0 && self.behind > 0 {
            I_DIVERGED
        } else if self.behind > 0 {
            I_BEHIND
        } else if self.ahead > 0 {
            I_AHEAD
        } else if self.dirty {
            I_DIRTY
        } else {
            I_CLEAN
        }
    }
}

/// The names in lowercase.
pub open spec fn lowered_names(vs: Seq<StatusView>) -> Seq<Seq<char>> {
    vs.map_values(|st: StatusView| lowercase(st.name))
}

/// The names of the repositories in lowercase.
pub(crate) fn lowered_of(statuses: &Vec<RepoStatus>) -> (r: Vec<String>)
    ensures
        strings(r@) == lowered_names(status_views(statuses@)),
{
    let mut out: Vec<String> = Vec::new();
    let mut i: usize = 0;
    let ghost all = lowered_names(status_views(statuses@));
    while i < statuses.len()
        invariant
            i <= statuses@.len(),
            all == lowered_names(status_views(statuses@)),
            strings(out@) == all.take(i as int),
        decreases statuses@.len() - i,
    {
        let low = to_lower(statuses[i].name.as_str());
        let ghost before = out@;
        out.push(low);
        proof {
            assert(strings(out@) == strings(before).push(low@));
            assert(all.take(i + 1) == all.take(i as int).push(all[i as int]));
        }
        i = i + 1;
    }
    proof {
        assert(all.take(i as int) == all);
    }
    out
}

/// A repository is in the state that it is classed by, and in none that is
/// more pressing; no other state is so.
pub proof fn worst_is_most_pressing(st: StatusView, c: Condition)
    ensures
        st.worst() == c <==> st.meets(c) && forall|d: Condition|
            rank(d) < rank(c) ==> !#[trigger] st.meets(d),
{
    if st.meets(c) && forall|d: Condition| rank(d) < rank(c) ==> !#[trigger] st.meets(d) {
        assert(!(rank(st.worst()) < rank(c)) || !st.meets(st.worst()));
    }
}

/// Different states have different glyphs, so the glyph tells the state.
pub proof fn glyphs_are_distinct(a: Condition, b: Condition)
    ensures
        glyph_of(a) == glyph_of(b) ==> a == b,
        glyph_of(a).len() == 1,
{
    reveal_strlit("\u{2713}");
    reveal_strlit("\u{2191}");
    reveal_strlit("\u{2193}");
    reveal_strlit("\u{21c5}");
    reveal_strlit("\u{25cf}");
    reveal_strlit("\u{26a0}");
    reveal_strlit("\u{21e1}");
    reveal_strlit("?");
    if glyph_of(a) == glyph_of(b) {
        assert(glyph_of(a)[0] == glyph_of(b)[0]);
    }
}

/// The view of a status has each of its fields.
pub proof fn view_is_field_by_field(st: RepoStatus)
    ensures
        st@.name == st.name@,
        st@.path == st.path@,
        match (st.branch, st@.branch) {
            (Some(b), Some(v)) => v == b@,
            (None, None) => true,
            _ => false,
        },
        st@.detached == st.detached,
        st@.has_upstream == st.has_upstream,
        st@.ahead == st.ahead,
        st@.behind == st.behind,
        st@.staged == st.staged,
        st@.unstaged == st.unstaged,
        st@.untracked == st.untracked,
        st@.conflicts == st.conflicts,
        st@.dirty == st.dirty,
        st@.fetch_error == st.fetch_error,
        match (st.error, st@.error) {
            (Some(e), Some(v)) => v == e@,
            (None, None) => true,
            _ => false,
        },
{
}

/// Which states a repository is in is told by its error, conflicts, branch,
/// upstream, commits and changes alone; whether a fetch failed or what the counts
/// of changes are makes no difference.
pub proof fn states_are_told_by_fields(st: StatusView)
    ensures
        st.meets(Condition::Error) <==> st.error is Some,
        st.meets(Condition::Conflict) <==> st.conflicts > 0,
        st.meets(Condition::Unpublished) <==> st.branch is Some && !st.detached && !st.has_upstream,
        st.no_upstream() <==> st.branch is Some && !st.detached && !st.has_upstream,
        st.meets(Condition::Diverged) <==> st.ahead > 0 && st.behind > 0,
        st.meets(Condition::Behind) <==> st.ahead == 0 && st.behind > 0,
        st.meets(Condition::Ahead) <==> st.ahead > 0 && st.behind == 0,
        st.meets(Condition::Dirty) <==> st.dirty,
        st.total() == st.staged + st.unstaged + st.untracked + st.conflicts,
{
}

/// There is nothing to report on a repository just when there is no error, no
/// conflict, no local change, nothing to push or pull, and no branch that was
/// never pushed.
pub proof fn clean_means_nothing_to_report(st: StatusView)
    ensures
        st.worst() is Clean <==> {
            &&& st.error is None
            &&& st.conflicts == 0
            &&& st.branch is None || st.detached || st.has_upstream
            &&& st.ahead == 0
            &&& st.behind == 0
            &&& !st.dirty
        },
{
}

/// What the glyph of a repository is, by its fields.
pub proof fn glyph_is_told_by_fields(st: StatusView)
    ensures
        ({
            let g = glyph_of(st.worst());
            let unpublished = st.branch is Some && !st.detached && !st.has_upstream;
            let fine = st.error is None && st.conflicts == 0 && !unpublished;
            &&& g.len() == 1
            &&& g[0] == '?' <==> st.error is Some
            &&& g[0] == '\u{26a0}' <==> st.error is None && st.conflicts > 0
            &&& g[0] == '\u{21e1}' <==> st.error is None && st.conflicts == 0 && unpublished
            &&& g[0] == '\u{21c5}' <==> fine && st.ahead > 0 && st.behind > 0
            &&& g[0] == '\u{2193}' <==> fine && st.ahead == 0 && st.behind > 0
            &&& g[0] == '\u{2191}' <==> fine && st.ahead > 0 && st.behind == 0
            &&& g[0] == '\u{25cf}' <==> fine && st.ahead == 0 && st.behind == 0 && st.dirty
            &&& g[0] == '\u{2713}' <==> fine && st.ahead == 0 && st.behind == 0 && !st.dirty
        }),
{
    glyphs_by_condition();
}

/// The glyph of each state.
pub proof fn glyphs_by_condition()
    ensures
        glyph_of(Condition::Error) == seq!['?'],
        glyph_of(Condition::Conflict) == seq!['\u{26a0}'],
        glyph_of(Condition::Unpublished) == seq!['\u{21e1}'],
        glyph_of(Condition::Diverged) == seq!['\u{21c5}'],
        glyph_of(Condition::Behind) == seq!['\u{2193}'],
        glyph_of(Condition::Ahead) == seq!['\u{2191}'],
        glyph_of(Condition::Dirty) == seq!['\u{25cf}'],
        glyph_of(Condition::Clean) == seq!['\u{2713}'],
{
    reveal_strlit("\u{2713}");
    reveal_strlit("\u{2191}");
    reveal_strlit("\u{2193}");
    reveal_strlit("\u{21c5}");
    reveal_strlit("\u{25cf}");
    reveal_strlit("\u{26a0}");
    reveal_strlit("\u{21e1}");
    reveal_strlit("?");
    assert(I_ERROR@ == seq!['?']);
    assert(I_CONFLICT@ == seq!['\u{26a0}']);
    assert(I_UNPUBLISHED@ == seq!['\u{21e1}']);
    assert(I_DIVERGED@ == seq!['\u{21c5}']);
    assert(I_BEHIND@ == seq!['\u{2193}']);
    assert(I_AHEAD@ == seq!['\u{2191}']);
    assert(I_DIRTY@ == seq!['\u{25cf}']);
    assert(I_CLEAN@ == seq!['\u{2713}']);
}

/// The names that are sorted by are the lowercase of each name, in order.
pub proof fn names_are_lowered_one_by_one(vs: Seq<StatusView>)
    ensures
        lowered_names(vs).len() == vs.len(),
        forall|i: int| 0 <= i < vs.len() ==> #[trigger] lowered_names(vs)[i] == lowercase(vs[i].name),
{
}

/// The statuses are taken in order.
pub proof fn statuses_are_taken_one_by_one(v: Seq<RepoStatus>)
    ensures
        status_views(v).len() == v.len(),
        forall|i: int| 0 <= i < v.len() ==> #[trigger] status_views(v)[i] == v[i]@,
{
}

} // verus!
