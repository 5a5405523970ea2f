//! Finding out the status of a repository: which `git` commands to run, one
//! after the other, and what their replies amount to.

use crate::git::{is_git_worktree, says_worktree, succeeded, GitReply};
use crate::porcelain::{
    lemma_counts_frame, parse_report, report_frame, report_ignores_failures, report_total_is_bounded,
    with_counts, with_lines, with_report, AHEAD_BEHIND,
};
use crate::porcelain_laws::{ahead_behind_line, report_tells_ahead_and_behind};
use crate::status::{RepoStatus, StatusView};
use crate::text::{chars_of, command, lines, strings, trim, trimmed, words};
use vstd::prelude::*;

verus! {

/// What to do next about a repository.
pub enum StatusStep {
    /// Run `git` with these arguments and come back with the reply.
    Run(Vec<String>),
    /// Nothing more to ask: this is the status.
    Done(RepoStatus),
}

/// The mathematical counterpart of [`StatusStep`].
#[verifier::ext_equal]
pub enum StepView {
    Run(Seq<Seq<char>>),
    Done(StatusView),
}

impl View for StatusStep {
    type V = StepView;

    open spec fn view(&self) -> StepView {
        match self {
            StatusStep::Run(args) => StepView::Run(strings(args@)),
            StatusStep::Done(st) => StepView::Done(st@),
        }
    }
}

/// Asks whether the directory is inside a work tree.
pub open spec fn worktree_args() -> Seq<Seq<char>> {
    seq!["rev-parse"@, "--is-inside-work-tree"@]
}

/// Fetches from all remotes.
pub open spec fn fetch_args() -> Seq<Seq<char>> {
    seq!["fetch"@, "--quiet"@, "--all"@, "--prune"@]
}

/// Asks for the branch and the changed entries.
pub open spec fn status_args() -> Seq<Seq<char>> {
    seq!["status"@, "--porcelain=v2"@, "--branch"@]
}

/// A status of which only name and path are known.
pub open spec fn unexamined(name: Seq<char>, path: Seq<char>) -> StatusView {
    StatusView {
        name,
        path,
        branch: None,
        detached: false,
        has_upstream: false,
        ahead: 0,
        behind: 0,
        staged: 0,
        unstaged: 0,
        untracked: 0,
        conflicts: 0,
        dirty: false,
        fetch_error: false,
        error: None,
    }
}

/// What the reply to `git status` makes of a status.
pub open spec fn settled(st: StatusView, reply: GitReply) -> StatusView {
    match reply {
        Err(e) => StatusView { error: Some("git status error: "@ + e@), ..st },
        Ok(out) => if !out.ok {
            StatusView { error: Some("git status failed: "@ + trim(out.stderr@)), ..st }
        } else {
            let read = with_report(st, out.stdout@);
            StatusView {
                dirty: read.total() > 0,
                error: if st.fetch_error {
                    Some("remote unreachable (fetch failed)"@)
                } else {
                    read.error
                },
                ..read
            }
        },
    }
}

/// The next step, given the replies to the commands run so far.
pub open spec fn next_step(
    name: Seq<char>,
    path: Seq<char>,
    do_fetch: bool,
    replies: Seq<GitReply>,
) -> StepView {
    let st = unexamined(name, path);
    let asked: int = if do_fetch {
        2
    } else {
        1
    };
    if replies.len() == 0 {
        StepView::Run(worktree_args())
    } else if !says_worktree(replies[0]) {
        StepView::Done(StatusView { error: Some("not a git repository"@), ..st })
    } else if do_fetch && replies.len() == 1 {
        StepView::Run(fetch_args())
    } else if replies.len() == asked {
        StepView::Run(status_args())
    } else {
        let fetch_error = do_fetch && !succeeded(replies[1]);
        StepView::Done(settled(StatusView { fetch_error, ..st }, replies[asked]))
    }
}

/// A status with nothing found out yet.
fn new_status(name: &str, path: &str) -> (r: RepoStatus)
    ensures
        r@ == unexamined(name@, path@),
{
    RepoStatus {
        name: name.to_owned(),
        path: path.to_owned(),
        branch: None,
        detached: false,
        has_upstream: false,
        ahead: 0,
        behind: 0,
        staged: 0,
        unstaged: 0,
        untracked: 0,
        conflicts: 0,
        dirty: false,
        fetch_error: false,
        error: None,
    }
}

/// Compute the status of a single repo, optionally fetching first: given the
/// replies to the `git` commands run so far, says which command to run next, or,
/// when all have been run, what the status is.
pub fn status_of(name: &str, path: &str, do_fetch: bool, replies: &Vec<GitReply>) -> (r: StatusStep)
    ensures
        r@ == next_step(name@, path@, do_fetch, replies@),
        r matches StatusStep::Done(st) ==> st@.total() <= usize::MAX,
{
    if replies.len() == 0 {
        let args = command(&["rev-parse", "--is-inside-work-tree"]);
        proof {
            assert(strings(args@) == worktree_args());
        }
        return StatusStep::Run(args);
    }
    let mut st = new_status(name, path);
    if !is_git_worktree(&replies[0]) {
        st.error = Some("not a git repository".to_owned());
        return StatusStep::Done(st);
    }
    if do_fetch && replies.len() == 1 {
        let args = command(&["fetch", "--quiet", "--all", "--prune"]);
        proof {
            assert(strings(args@) == fetch_args());
        }
        return StatusStep::Run(args);
    }
    let asked: usize = if do_fetch {
        2
    } else {
        1
    };
    if replies.len() == asked {
        let args = command(&["status", "--porcelain=v2", "--branch"]);
        proof {
            assert(strings(args@) == status_args());
        }
        return StatusStep::Run(args);
    }
    if do_fetch {
        match &replies[1] {
            Ok(out) => if !out.ok {
                st.fetch_error = true;
            },
            Err(_) => st.fetch_error = true,
        }
    }
    match &replies[asked] {
        Err(e) => {
            st.error = Some("git status error: ".to_owned().concat(e.as_str()));
        },
        Ok(out) => {
            if !out.ok {
                let why = trimmed(out.stderr.as_str());
                st.error = Some("git status failed: ".to_owned().concat(why.as_str()));
            } else {
                let report = chars_of(out.stdout.as_str());
                let ghost fresh = st@;
                proof {
                    assert(report@.len() == report.len());
                    report_total_is_bounded(fresh, out.stdout@);
                    report_frame(fresh, out.stdout@);
                }
                parse_report(&report, &mut st);
                st.dirty = st.staged + st.unstaged + st.untracked + st.conflicts > 0;
                if st.fetch_error {
                    // Keep whatever local ahead/behind we could compute, but flag the failure.
                    st.error = Some("remote unreachable (fetch failed)".to_owned());
                }
            }
        },
    }
    StatusStep::Done(st)
}

// ---------------------------------------------------------------------------
// Laws
// ---------------------------------------------------------------------------

/// What a repository is called and where it is come out as they went in; it
/// counts as dirty just when an entry is changed; a failed fetch is always
/// reported as an error, and there is none unless a fetch was asked for.
pub proof fn statuses_are_consistent(
    name: Seq<char>,
    path: Seq<char>,
    do_fetch: bool,
    replies: Seq<GitReply>,
)
    ensures
        next_step(name, path, do_fetch, replies) matches StepView::Done(st) ==> {
            &&& st.name == name
            &&& st.path == path
            &&& st.dirty <==> st.total() > 0
            &&& st.fetch_error ==> st.error is Some
            &&& st.fetch_error ==> do_fetch
        },
{
    let asked: int = if do_fetch {
        2
    } else {
        1
    };
    let fetch_error = do_fetch && !succeeded(replies[1]);
    let st = StatusView { fetch_error, ..unexamined(name, path) };
    if replies.len() > asked {
        if let Ok(out) = replies[asked] {
            report_frame(st, out.stdout@);
        }
    }
}

/// At most three commands are run on a repository.
pub proof fn three_replies_are_enough(
    name: Seq<char>,
    path: Seq<char>,
    do_fetch: bool,
    replies: Seq<GitReply>,
)
    requires
        replies.len() >= 3,
    ensures
        next_step(name, path, do_fetch, replies) is Done,
{
}

/// Nothing is fetched unless that is asked for: the commands are then only ones
/// that read.
pub proof fn no_fetch_unless_asked_for(name: Seq<char>, path: Seq<char>, replies: Seq<GitReply>)
    ensures
        next_step(name, path, false, replies) matches StepView::Run(args) ==> args
            == worktree_args() || args == status_args(),
        worktree_args() != fetch_args(),
        status_args() != fetch_args(),
{
    assert(worktree_args().len() == 2);
    assert(fetch_args().len() == 4);
    assert(status_args().len() == 3);
}

/// Where a fetch is asked for, it is run before the status is read.
pub proof fn fetch_comes_before_status(name: Seq<char>, path: Seq<char>, replies: Seq<GitReply>)
    requires
        next_step(name, path, true, replies) == StepView::Run(status_args()),
    ensures
        replies.len() == 2,
        next_step(name, path, true, replies.take(1)) == StepView::Run(fetch_args()),
{
    assert(worktree_args().len() == 2);
    assert(fetch_args().len() == 4);
    assert(status_args().len() == 3);
}

/// A failed fetch takes nothing away from what is known locally: the status is
/// that of a successful fetch, but for the failure.
pub proof fn failed_fetch_keeps_local_status(st: StatusView, reply: GitReply)
    requires
        succeeded(reply),
    ensures
        settled(StatusView { fetch_error: true, ..st }, reply) == (StatusView {
            fetch_error: true,
            error: Some("remote unreachable (fetch failed)"@),
            ..settled(StatusView { fetch_error: false, ..st }, reply)
        }),
{
    let report = reply->Ok_0.stdout@;
    report_ignores_failures(st, true, lines(report));
    report_ignores_failures(st, false, lines(report));
    report_frame(StatusView { fetch_error: false, ..st }, report);
    report_frame(StatusView { fetch_error: true, ..st }, report);
}

/// The reply says that the directory is inside a work tree.
pub open spec fn confirmed(reply: GitReply) -> bool {
    reply matches Ok(out) && out.ok && trim(out.stdout@) == "true"@
}

/// First it is asked whether the directory is inside a work tree; where it is,
/// comes the fetch, if that is asked for, and last the report.
pub proof fn commands_come_in_turn(
    name: Seq<char>,
    path: Seq<char>,
    do_fetch: bool,
    replies: Seq<GitReply>,
)
    ensures
        replies.len() == 0 ==> next_step(name, path, do_fetch, replies) == StepView::Run(
            seq!["rev-parse"@, "--is-inside-work-tree"@],
        ),
        replies.len() == 1 && confirmed(replies[0]) && do_fetch ==> next_step(
            name,
            path,
            do_fetch,
            replies,
        ) == StepView::Run(seq!["fetch"@, "--quiet"@, "--all"@, "--prune"@]),
        replies.len() == (if do_fetch {
            2int
        } else {
            1int
        }) && confirmed(replies[0]) ==> next_step(name, path, do_fetch, replies) == StepView::Run(
            seq!["status"@, "--porcelain=v2"@, "--branch"@],
        ),
{
}

/// What is no work tree is reported so, and nothing more is found out about it.
pub proof fn no_work_tree_is_an_error(
    name: Seq<char>,
    path: Seq<char>,
    do_fetch: bool,
    replies: Seq<GitReply>,
)
    requires
        replies.len() > 0,
        !confirmed(replies[0]),
    ensures
        next_step(name, path, do_fetch, replies) matches StepView::Done(st) && {
            &&& st.name == name && st.path == path
            &&& st.error == Some("not a git repository"@)
            &&& st.branch is None && !st.detached && !st.has_upstream
            &&& st.ahead == 0 && st.behind == 0
            &&& st.staged == 0 && st.unstaged == 0 && st.untracked == 0 && st.conflicts == 0
            &&& !st.dirty && !st.fetch_error
        },
{
}

/// A report that could not be had is an error with its reason, and nothing more
/// is found out; whether the fetch failed is still known.
pub proof fn failed_report_is_an_error(
    name: Seq<char>,
    path: Seq<char>,
    do_fetch: bool,
    replies: Seq<GitReply>,
)
    requires
        confirmed(replies[0]),
        replies.len() == (if do_fetch {
            3int
        } else {
            2int
        }),
        !(replies.last() matches Ok(out) && out.ok),
    ensures
        next_step(name, path, do_fetch, replies) matches StepView::Done(st) && {
            &&& st.name == name && st.path == path
            &&& match replies.last() {
                Ok(out) => st.error == Some("git status failed: "@ + trim(out.stderr@)),
                Err(e) => st.error == Some("git status error: "@ + e@),
            }
            &&& st.branch is None && !st.detached && !st.has_upstream
            &&& st.ahead == 0 && st.behind == 0
            &&& st.staged == 0 && st.unstaged == 0 && st.untracked == 0 && st.conflicts == 0
            &&& !st.dirty
            &&& st.fetch_error <==> do_fetch && !(replies[1] matches Ok(out) && out.ok)
        },
{
}

/// The report is taken as it is: the status has the branch, the upstream, the
/// commits and the counts that the report makes of a status of which nothing is
/// known yet. It counts as dirty just when one of the four counts is not 0, and
/// the only error there can be is that of a failed fetch.
pub proof fn status_is_what_the_report_says(
    name: Seq<char>,
    path: Seq<char>,
    do_fetch: bool,
    replies: Seq<GitReply>,
    fresh: StatusView,
)
    requires
        confirmed(replies[0]),
        replies.len() == (if do_fetch {
            3int
        } else {
            2int
        }),
        replies.last() matches Ok(out) && out.ok,
        fresh.branch is None && !fresh.detached && !fresh.has_upstream,
        fresh.ahead == 0 && fresh.behind == 0,
        fresh.staged == 0 && fresh.unstaged == 0 && fresh.untracked == 0 && fresh.conflicts == 0,
    ensures
        next_step(name, path, do_fetch, replies) matches StepView::Done(st) && {
            let read = with_report(fresh, replies.last()->Ok_0.stdout@);
            let fetch_failed = do_fetch && !(replies[1] matches Ok(out) && out.ok);
            &&& st.name == name && st.path == path
            &&& st.branch == read.branch
            &&& st.detached == read.detached
            &&& st.has_upstream == read.has_upstream
            &&& st.ahead == read.ahead
            &&& st.behind == read.behind
            &&& st.staged == read.staged
            &&& st.unstaged == read.unstaged
            &&& st.untracked == read.untracked
            &&& st.conflicts == read.conflicts
            &&& st.dirty <==> st.staged > 0 || st.unstaged > 0 || st.untracked > 0 || st.conflicts > 0
            &&& st.fetch_error == fetch_failed
            &&& fetch_failed ==> st.error == Some("remote unreachable (fetch failed)"@)
            &&& !fetch_failed ==> st.error is None
        },
{
    let text = replies.last()->Ok_0.stdout@;
    let fetch_error = do_fetch && !succeeded(replies[1]);
    let start = StatusView { fetch_error, ..unexamined(name, path) };
    lemma_reading_is_blind(start, fresh, lines(text));
    report_frame(start, text);
}

/// What the lines say of branch, commits and counts rests on what was known of
/// these alone.
proof fn lemma_reading_is_blind(a: StatusView, b: StatusView, ls: Seq<Seq<char>>)
    requires
        a.branch == b.branch && a.detached == b.detached && a.has_upstream == b.has_upstream,
        a.ahead == b.ahead && a.behind == b.behind,
        a.staged == b.staged && a.unstaged == b.unstaged,
        a.untracked == b.untracked && a.conflicts == b.conflicts,
    ensures
        ({
            let x = with_lines(a, ls);
            let y = with_lines(b, ls);
            &&& x.branch == y.branch && x.detached == y.detached && x.has_upstream == y.has_upstream
            &&& x.ahead == y.ahead && x.behind == y.behind
            &&& x.staged == y.staged && x.unstaged == y.unstaged
            &&& x.untracked == y.untracked && x.conflicts == y.conflicts
        }),
    decreases ls.len(),
{
    if ls.len() > 0 {
        lemma_reading_is_blind(a, b, ls.drop_last());
        let x = with_lines(a, ls.drop_last());
        let y = with_lines(b, ls.drop_last());
        let ws = words(ls.last().skip(AHEAD_BEHIND@.len() as int));
        lemma_counts_are_blind(x, y, ws);
        lemma_counts_frame(x, ws);
        lemma_counts_frame(y, ws);
    }
}

proof fn lemma_counts_are_blind(a: StatusView, b: StatusView, ws: Seq<Seq<char>>)
    requires
        a.ahead == b.ahead && a.behind == b.behind,
    ensures
        with_counts(a, ws).ahead == with_counts(b, ws).ahead,
        with_counts(a, ws).behind == with_counts(b, ws).behind,
    decreases ws.len(),
{
    if ws.len() > 0 {
        lemma_counts_are_blind(a, b, ws.drop_last());
    }
}

/// A report with the header `# branch.ab +<a> -<b>` makes a status that is `a`
/// commits ahead and `b` behind, whether or not any entry is changed and whether
/// or not a fetch was asked for or failed.
pub proof fn status_tells_ahead_and_behind(
    name: Seq<char>,
    path: Seq<char>,
    do_fetch: bool,
    replies: Seq<GitReply>,
    first: Seq<char>,
    a: nat,
    b: nat,
    later: Seq<char>,
)
    requires
        confirmed(replies[0]),
        replies.len() == (if do_fetch {
            3int
        } else {
            2int
        }),
        replies.last() matches Ok(out) && out.ok && out.stdout@ == first + ahead_behind_line(a, b)
            + seq!['\n'] + later,
        a <= usize::MAX,
        b <= usize::MAX,
        first.len() == 0 || first.last() == '\n',
        forall|i: int|
            0 <= i < lines(later).len() ==> !"# branch.ab "@.is_prefix_of(#[trigger] lines(later)[i]),
    ensures
        next_step(name, path, do_fetch, replies) matches StepView::Done(st) && st.ahead == a
            && st.behind == b,
{
    let fresh = unexamined(name, path);
    status_is_what_the_report_says(name, path, do_fetch, replies, fresh);
    report_tells_ahead_and_behind(fresh, first, a, b, later);
}

/// The view of a step is the command, word by word, or the status.
pub proof fn step_is_viewed_as_it_is(args: Vec<String>, st: RepoStatus)
    ensures
        StatusStep::Run(args)@ == StepView::Run(strings(args@)),
        StatusStep::Done(st)@ == StepView::Done(st@),
{
}

} // verus!
