//! What a run of the synchronisation asks for, step by step, and what it does
//! with each reply.

use crate::git::GitOut;
use crate::sync::{
    confirms_worktree, lock_trouble, request_of, said, turn, upstream_of, went_well, HereView,
    LockFailure, Phase, Reply, Request, RequestView, RunView, Surroundings, SyncRun,
};
use crate::sync_laws::{run_after, run_at};
use crate::text::{signed_decimal, strings, trim};
use vstd::prelude::*;

verus! {

/// Whether a reply is favourable is told by its own content: that the directory
/// exists, that `git` exited successfully, that the lock file is open, that the
/// lock is taken. The output of `git` is taken trimmed.
pub proof fn replies_are_told_by_their_content(
    flag: bool,
    out: GitOut,
    error: String,
    failure: LockFailure,
)
    ensures
        went_well(Reply::Access(flag)) <==> flag,
        went_well(Reply::LockTaken(flag)) <==> flag,
        went_well(Reply::Git(Ok(out))) <==> out.ok,
        !went_well(Reply::Git(Err(error))),
        went_well(Reply::LockOpened(Ok(()))),
        !went_well(Reply::LockOpened(Err(failure))),
        said(Reply::Git(Ok(out))) == trim(out.stdout@),
        said(Reply::Git(Err(error))).len() == 0,
        confirms_worktree(Reply::Git(Ok(out))) <==> out.ok && trim(out.stdout@) == "true"@,
        !confirms_worktree(Reply::Git(Err(error))),
        lock_trouble(Reply::LockOpened(Err(failure))) == failure.path@ + seq![':', ' ']
            + failure.error@,
{
    reveal_strlit(": ");
    assert(": "@ =~= seq![':', ' ']);
    assert(trim(seq![]) =~= Seq::<char>::empty());
}

// ---------------------------------------------------------------------------
// Where the name of the branch comes from
// ---------------------------------------------------------------------------

/// The branch has been named, and the run is not over.
pub open spec fn knows_branch(phase: Phase) -> bool {
    !(phase is Access || phase is Worktree || phase is GitDir || phase is LockOpen || phase is LockTake
        || phase is Head || phase is Done)
}

/// The first steps come one after the other, and the repository stays the same.
proof fn lemma_first_steps(repo: Seq<char>, replies: Seq<Reply>, heres: Seq<HereView>)
    ensures
        ({
            let run = run_after(repo, replies, heres);
            let n = replies.len();
            &&& run.repo == repo
            &&& run.phase is Access ==> n == 0
            &&& run.phase is Worktree ==> n == 1
            &&& run.phase is GitDir ==> n == 2
            &&& run.phase is LockOpen ==> n == 3
            &&& run.phase is LockTake ==> n == 4
            &&& run.phase is Head ==> n == 5
            &&& knows_branch(run.phase) ==> n > 5
        }),
    decreases replies.len(),
{
    if replies.len() > 0 {
        lemma_first_steps(repo, replies.drop_last(), heres);
    }
}

/// What the sixth reply says, trimmed.
pub open spec fn sixth_reply(replies: Seq<Reply>) -> Seq<char> {
    match replies[5] {
        Reply::Git(Ok(out)) => trim(out.stdout@),
        _ => seq![],
    }
}

/// The branch of a run is, character for character, the trimmed output of the
/// successful `git symbolic-ref --short -q HEAD`, the sixth thing that the run
/// asks for; it is never empty.
pub proof fn branch_is_what_git_named(repo: Seq<char>, replies: Seq<Reply>, heres: Seq<HereView>)
    requires
        knows_branch(run_after(repo, replies, heres).phase),
    ensures
        replies.len() > 5,
        request_of(run_at(repo, replies, heres, 5)) == RequestView::Git(
            seq!["symbolic-ref"@, "--short"@, "-q"@, "HEAD"@],
        ),
        replies[5] matches Reply::Git(Ok(out)) && out.ok && trim(out.stdout@).len() > 0
            && run_after(repo, replies, heres).branch == trim(out.stdout@),
    decreases replies.len(),
{
    lemma_first_steps(repo, replies, heres);
    let fewer = replies.drop_last();
    let last = run_after(repo, fewer, heres);
    lemma_first_steps(repo, fewer, heres);
    assert(replies.take(5) =~= fewer.take(5));
    if knows_branch(last.phase) {
        branch_is_what_git_named(repo, fewer, heres);
        assert(fewer[5] == replies[5]);
    } else {
        assert(last.phase is Head);
        assert(fewer.take(5) =~= fewer);
        match replies[5] {
            Reply::Git(Ok(out)) => {},
            Reply::Git(Err(e)) => {
                assert(trim(seq![]) =~= Seq::<char>::empty());
            },
            _ => {},
        }
    }
}

/// The ref that is verified, rebased onto and reset to is `origin/` and the name
/// of the branch, character for character.
pub proof fn upstream_is_origin_and_the_branch(
    repo: Seq<char>,
    replies: Seq<Reply>,
    heres: Seq<HereView>,
)
    ensures
        ({
            let run = run_after(repo, replies, heres);
            let b = sixth_reply(replies);
            let up = "origin/"@ + b;
            &&& up.len() == 7 + b.len()
            &&& up.skip(7) == b
            &&& run.phase is Upstream ==> request_of(run) == RequestView::Git(
                seq!["rev-parse"@, "--verify"@, "--quiet"@, up],
            )
            &&& run.phase is Rebase ==> request_of(run) == RequestView::Git(
                seq!["rebase"@, "--quiet"@, up],
            )
            &&& run.phase is Reset ==> request_of(run) == RequestView::Git(
                seq!["branch"@, "-f"@, b, up],
            )
        }),
{
    reveal_strlit("origin/");
    assert(("origin/"@ + sixth_reply(replies)).skip(7) =~= sixth_reply(replies));
    if knows_branch(run_after(repo, replies, heres).phase) {
        branch_is_what_git_named(repo, replies, heres);
    }
}

/// The upstream of any branch is `origin/` and the name of the branch, character
/// for character.
pub proof fn upstream_ends_in_the_branch(branch: Seq<char>)
    ensures
        upstream_of(branch).len() == 7 + branch.len(),
        upstream_of(branch).take(7) == seq!['o', 'r', 'i', 'g', 'i', 'n', '/'],
        upstream_of(branch).skip(7) == branch,
{
    reveal_strlit("origin/");
    assert(upstream_of(branch).take(7) =~= seq!['o', 'r', 'i', 'g', 'i', 'n', '/']);
    assert(upstream_of(branch).skip(7) =~= branch);
}

// ---------------------------------------------------------------------------
// The steps
// ---------------------------------------------------------------------------

/// The run goes on, and logs nothing.
pub open spec fn goes_on(run: RunView, reply: Reply, here: HereView, next: RequestView) -> bool {
    &&& request_of(turn(run, reply, here).run) == next
    &&& turn(run, reply, here).log.len() == 0
}

/// The run ends with this code, and logs these lines.
pub open spec fn ends(
    run: RunView,
    reply: Reply,
    here: HereView,
    code: int,
    log: Seq<Seq<char>>,
) -> bool {
    &&& request_of(turn(run, reply, here).run) == RequestView::Exit(code)
    &&& turn(run, reply, here).log == log
}

/// Up to the lock: the directory has to exist and be a work tree, its git
/// directory has to be known, and the lock file in it has to be opened and locked.
pub proof fn steps_up_to_the_lock(
    repo: Seq<char>,
    replies: Seq<Reply>,
    heres: Seq<HereView>,
    reply: Reply,
    here: HereView,
)
    ensures
        ({
            let run = run_after(repo, replies, heres);
            &&& replies.len() == 0 ==> run.phase is Access
            &&& run.phase is Access ==> {
                &&& request_of(run) is CheckAccess
                &&& reply == Reply::Access(true) ==> goes_on(
                    run,
                    reply,
                    here,
                    RequestView::Git(seq!["rev-parse"@, "--is-inside-work-tree"@]),
                ) && turn(run, reply, here).run.phase is Worktree
                &&& reply == Reply::Access(false) ==> ends(
                    run,
                    reply,
                    here,
                    1,
                    seq!["ERROR: "@ + ("cannot access "@ + repo)],
                )
            }
            &&& run.phase is Worktree ==> {
                &&& request_of(run) == RequestView::Git(seq!["rev-parse"@, "--is-inside-work-tree"@])
                &&& if reply matches Reply::Git(Ok(out)) && out.ok && trim(out.stdout@) == "true"@ {
                    goes_on(
                        run,
                        reply,
                        here,
                        RequestView::Git(seq!["rev-parse"@, "--absolute-git-dir"@]),
                    ) && turn(run, reply, here).run.phase is GitDir
                } else {
                    ends(run, reply, here, 1, seq!["ERROR: "@ + (repo + " is not a git repository"@)])
                }
            }
            &&& run.phase is GitDir ==> {
                &&& request_of(run) == RequestView::Git(seq!["rev-parse"@, "--absolute-git-dir"@])
                &&& match reply {
                    Reply::Git(Ok(out)) => if out.ok {
                        goes_on(
                            run,
                            reply,
                            here,
                            RequestView::OpenLock(trim(out.stdout@), "auto-sync.lock"@),
                        ) && turn(run, reply, here).run.phase is LockOpen
                    } else {
                        ends(run, reply, here, 1, seq!["ERROR: "@ + "cannot resolve git dir"@])
                    },
                    Reply::Git(Err(_)) => ends(
                        run,
                        reply,
                        here,
                        1,
                        seq!["ERROR: "@ + "cannot resolve git dir"@],
                    ),
                    _ => true,
                }
            }
            &&& run.phase is LockOpen ==> {
                &&& reply == Reply::LockOpened(Ok(())) ==> goes_on(
                    run,
                    reply,
                    here,
                    RequestView::TakeLock,
                ) && turn(run, reply, here).run.phase is LockTake
                &&& reply matches Reply::LockOpened(Err(f)) ==> ends(
                    run,
                    reply,
                    here,
                    1,
                    seq!["ERROR: "@ + ("cannot open lock file "@ + (f.path@ + ": "@ + f.error@))],
                )
            }
            &&& run.phase is LockTake ==> {
                &&& request_of(run) is TakeLock
                &&& reply == Reply::LockTaken(true) ==> goes_on(
                    run,
                    reply,
                    here,
                    RequestView::Git(seq!["symbolic-ref"@, "--short"@, "-q"@, "HEAD"@]),
                ) && turn(run, reply, here).run.phase is Head
                &&& reply == Reply::LockTaken(false) ==> ends(
                    run,
                    reply,
                    here,
                    1,
                    seq!["ERROR: "@ + "another run in progress"@],
                )
            }
        }),
{
    lemma_first_steps(repo, replies, heres);
}

/// From the branch to the fetch: a branch has to be checked out; where there is
/// anything to commit, whether or not `git status` exited successfully, all of it
/// is staged and committed, with the moment and the host in the message.
pub proof fn steps_up_to_the_fetch(
    repo: Seq<char>,
    replies: Seq<Reply>,
    heres: Seq<HereView>,
    reply: Reply,
    here: HereView,
)
    requires
        reply is Git,
    ensures
        ({
            let run = run_after(repo, replies, heres);
            let b = sixth_reply(replies);
            let ok = reply matches Reply::Git(Ok(out)) && out.ok;
            let text = match reply {
                Reply::Git(Ok(out)) => trim(out.stdout@),
                _ => Seq::<char>::empty(),
            };
            let fetch = RequestView::Git(seq!["fetch"@, "--quiet"@]);
            &&& run.phase is Head ==> {
                &&& request_of(run) == RequestView::Git(
                    seq!["symbolic-ref"@, "--short"@, "-q"@, "HEAD"@],
                )
                &&& if ok && text.len() > 0 {
                    goes_on(run, reply, here, RequestView::Git(seq!["status"@, "--porcelain"@]))
                        && turn(run, reply, here).run.phase is Tree && turn(run, reply, here).run.branch
                        == text
                } else {
                    ends(run, reply, here, 1, seq!["ERROR: "@ + "detached HEAD, doing nothing"@])
                }
            }
            &&& run.phase is Tree ==> {
                &&& request_of(run) == RequestView::Git(seq!["status"@, "--porcelain"@])
                &&& text.len() > 0 ==> goes_on(
                    run,
                    reply,
                    here,
                    RequestView::Git(seq!["add"@, "-A"@]),
                ) && turn(run, reply, here).run.phase is Stage
                &&& text.len() == 0 ==> goes_on(run, reply, here, fetch) && turn(
                    run,
                    reply,
                    here,
                ).run.phase is Fetch
            }
            &&& run.phase is Stage ==> {
                &&& request_of(run) == RequestView::Git(seq!["add"@, "-A"@])
                &&& if ok {
                    goes_on(
                        run,
                        reply,
                        here,
                        RequestView::Git(
                            seq!["commit"@, "-m"@, "auto: "@ + here.stamp + " on "@ + here.host],
                        ),
                    ) && turn(run, reply, here).run.phase is Commit
                } else {
                    ends(run, reply, here, 1, seq!["ERROR: "@ + "git add failed"@])
                }
            }
            &&& run.phase is Commit ==> if ok {
                &&& request_of(turn(run, reply, here).run) == fetch
                &&& turn(run, reply, here).run.phase is Fetch
                &&& turn(run, reply, here).log == seq!["commit done on "@ + b]
            } else {
                ends(run, reply, here, 1, seq!["ERROR: "@ + "commit failed"@])
            }
        }),
{
    lemma_first_steps(repo, replies, heres);
    assert(trim(seq![]) =~= Seq::<char>::empty());
    if knows_branch(run_after(repo, replies, heres).phase) {
        branch_is_what_git_named(repo, replies, heres);
    }
}

/// From the fetch to the push: a branch that does not exist upstream is pushed
/// for the first time; any other is rebased onto its upstream and pushed.
pub proof fn steps_up_to_the_push(
    repo: Seq<char>,
    replies: Seq<Reply>,
    heres: Seq<HereView>,
    reply: Reply,
    here: HereView,
)
    requires
        reply is Git,
    ensures
        ({
            let run = run_after(repo, replies, heres);
            let b = sixth_reply(replies);
            let up = "origin/"@ + b;
            let ok = reply matches Reply::Git(Ok(out)) && out.ok;
            &&& run.phase is Fetch ==> {
                &&& request_of(run) == RequestView::Git(seq!["fetch"@, "--quiet"@])
                &&& if ok {
                    goes_on(
                        run,
                        reply,
                        here,
                        RequestView::Git(seq!["rev-parse"@, "--verify"@, "--quiet"@, up]),
                    ) && turn(run, reply, here).run.phase is Upstream
                } else {
                    ends(run, reply, here, 1, seq!["ERROR: "@ + "git fetch has failed"@])
                }
            }
            &&& run.phase is Upstream ==> if ok {
                goes_on(run, reply, here, RequestView::Git(seq!["rebase"@, "--quiet"@, up])) && turn(
                    run,
                    reply,
                    here,
                ).run.phase is Rebase
            } else {
                goes_on(run, reply, here, RequestView::Git(seq!["push"@, "-u"@, "origin"@, b]))
                    && turn(run, reply, here).run.phase is FirstPush
            }
            &&& run.phase is FirstPush ==> if ok {
                ends(run, reply, here, 0, seq!["branch "@ + b + " pushed for the first time"@])
            } else {
                ends(run, reply, here, 1, seq!["ERROR: "@ + "first push failed"@])
            }
            &&& run.phase is Rebase ==> if ok {
                goes_on(run, reply, here, RequestView::Git(seq!["push"@, "--quiet"@])) && turn(
                    run,
                    reply,
                    here,
                ).run.phase is Push
            } else {
                goes_on(run, reply, here, RequestView::Git(seq!["rebase"@, "--abort"@])) && turn(
                    run,
                    reply,
                    here,
                ).run.phase is Abort
            }
            &&& run.phase is Push ==> if ok {
                ends(run, reply, here, 0, seq!["synchronized with "@ + up])
            } else {
                ends(run, reply, here, 1, seq!["ERROR: "@ + "push refused"@])
            }
        }),
{
    if knows_branch(run_after(repo, replies, heres).phase) {
        branch_is_what_git_named(repo, replies, heres);
    }
}

/// The way out of a conflict: whatever becomes of the abort, a safety branch named
/// after the branch and the seconds since 1970 is created, the branch is reset to
/// its upstream, and the safety branch is pushed.
pub proof fn steps_out_of_a_conflict(
    repo: Seq<char>,
    replies: Seq<Reply>,
    heres: Seq<HereView>,
    reply: Reply,
    here: HereView,
)
    requires
        reply is Git,
    ensures
        ({
            let run = run_after(repo, replies, heres);
            let b = sixth_reply(replies);
            let up = "origin/"@ + b;
            let named = "sync/conflit-"@ + b + "-"@ + signed_decimal(here.epoch);
            let ok = reply matches Reply::Git(Ok(out)) && out.ok;
            let next = turn(run, reply, here).run;
            &&& run.phase is Abort ==> {
                &&& goes_on(
                    run,
                    reply,
                    here,
                    RequestView::Git(seq!["checkout"@, "-q"@, "-b"@, named]),
                )
                &&& next.phase is Safety && next.safety == named
            }
            &&& run.phase is Safety ==> {
                &&& request_of(run) == RequestView::Git(seq!["checkout"@, "-q"@, "-b"@, run.safety])
                &&& if ok {
                    goes_on(run, reply, here, RequestView::Git(seq!["branch"@, "-f"@, b, up]))
                        && next.phase is Reset && next.safety == run.safety
                } else {
                    ends(
                        run,
                        reply,
                        here,
                        1,
                        seq!["ERROR: "@ + ("cannot create safety branch "@ + run.safety)],
                    )
                }
            }
            &&& run.phase is Reset ==> if ok {
                goes_on(
                    run,
                    reply,
                    here,
                    RequestView::Git(seq!["push"@, "-u"@, "--quiet"@, "origin"@, run.safety]),
                ) && next.phase is SafetyPush && next.safety == run.safety
            } else {
                ends(run, reply, here, 1, seq!["ERROR: "@ + ("cannot reset "@ + b + " to "@ + up)])
            }
            &&& run.phase is SafetyPush ==> if ok {
                ends(
                    run,
                    reply,
                    here,
                    2,
                    seq![
                        "CONFLICT with "@ + up + ": work has been stored on "@ + run.safety
                            + " (HEAD is now on it)"@,
                        "  "@ + b + " has been reset to "@ + up,
                    ],
                )
            } else {
                ends(
                    run,
                    reply,
                    here,
                    1,
                    seq!["ERROR: "@ + ("cannot push the safety branch "@ + run.safety)],
                )
            }
        }),
{
    if knows_branch(run_after(repo, replies, heres).phase) {
        branch_is_what_git_named(repo, replies, heres);
    }
}

/// The views of a run, of what it asks for and of its surroundings have all that
/// these have.
pub proof fn runs_are_viewed_as_they_are(
    run: SyncRun,
    args: Vec<String>,
    dir: String,
    file: String,
    code: i32,
    here: Surroundings,
)
    ensures
        run@.phase == run.phase,
        run@.repo == run.repo@,
        run@.git_dir == run.git_dir@,
        run@.branch == run.branch@,
        run@.message == run.message@,
        run@.safety == run.safety@,
        run@.code == run.code,
        Request::CheckAccess@ == RequestView::CheckAccess,
        Request::Git(args)@ == RequestView::Git(strings(args@)),
        Request::OpenLock(dir, file)@ == RequestView::OpenLock(dir@, file@),
        Request::TakeLock@ == RequestView::TakeLock,
        Request::Exit(code)@ == RequestView::Exit(code as int),
        here@.stamp == here.stamp@,
        here@.host == here.host@,
        here@.epoch == here.epoch,
{
}

} // verus!
