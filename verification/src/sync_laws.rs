//! What holds of every run of the synchronisation, whatever the replies.

use crate::sync::{
    confirms_worktree, conflict_log, fail, is_plausible, request_of, safety_branch, said, start, turn,
    upstream_of, went_well, HereView, Phase, Reply, RequestView, RunView,
};
use crate::text::{all_digits, decimal, digits_value, lemma_decimal};
use vstd::prelude::*;

verus! {

/// The run on `repo` once these replies have come in, each in its surroundings.
pub open spec fn run_after(repo: Seq<char>, replies: Seq<Reply>, heres: Seq<HereView>) -> RunView
    decreases replies.len(),
{
    if replies.len() == 0 {
        start(repo)
    } else {
        let n = replies.len() - 1;
        turn(run_after(repo, replies.drop_last(), heres), replies[n], heres[n]).run
    }
}

/// The run as it was when `k` of the replies had come in.
pub open spec fn run_at(
    repo: Seq<char>,
    replies: Seq<Reply>,
    heres: Seq<HereView>,
    k: int,
) -> RunView {
    run_after(repo, replies.take(k), heres)
}

/// When `k` of the replies had come in, the run asked for the lock, and the
/// next reply was that it is taken.
pub open spec fn lock_was_taken(
    repo: Seq<char>,
    replies: Seq<Reply>,
    heres: Seq<HereView>,
    k: int,
) -> bool {
    &&& 0 <= k < replies.len()
    &&& request_of(run_at(repo, replies, heres, k)) is TakeLock
    &&& went_well(replies[k])
}

/// How many replies a run in this phase waits for at most.
pub open spec fn remaining(phase: Phase) -> int {
    match phase {
        Phase::Access => 16,
        Phase::Worktree => 15,
        Phase::GitDir => 14,
        Phase::LockOpen => 13,
        Phase::LockTake => 12,
        Phase::Head => 11,
        Phase::Tree => 10,
        Phase::Stage => 9,
        Phase::Commit => 8,
        Phase::Fetch => 7,
        Phase::Upstream => 6,
        Phase::FirstPush => 1,
        Phase::Rebase => 5,
        Phase::Push => 1,
        Phase::Abort => 4,
        Phase::Safety => 3,
        Phase::Reset => 2,
        Phase::SafetyPush => 1,
        Phase::Done => 0,
    }
}

/// The lock has to be held in this phase.
pub open spec fn needs_lock(phase: Phase) -> bool {
    remaining(phase) <= remaining(Phase::Head) && !(phase is Done)
}

/// One more reply is one more turn, and does not change the past.
proof fn lemma_last_turn(repo: Seq<char>, replies: Seq<Reply>, heres: Seq<HereView>)
    requires
        replies.len() > 0,
    ensures
        run_at(repo, replies, heres, replies.len() - 1) == run_after(repo, replies.drop_last(), heres),
        run_at(repo, replies, heres, replies.len() as int) == run_after(repo, replies, heres),
        forall|k: int|
            0 <= k < replies.len() ==> #[trigger] run_at(repo, replies, heres, k) == run_at(
                repo,
                replies.drop_last(),
                heres,
                k,
            ),
{
    assert(replies.take(replies.len() - 1) == replies.drop_last());
    assert(replies.take(replies.len() as int) == replies);
    assert forall|k: int| 0 <= k < replies.len() implies #[trigger] run_at(repo, replies, heres, k)
        == run_at(repo, replies.drop_last(), heres, k) by {
        assert(replies.drop_last().take(k) == replies.take(k));
    }
}

/// A run is over when at most sixteen replies have come in.
pub proof fn every_run_ends(repo: Seq<char>, replies: Seq<Reply>, heres: Seq<HereView>)
    requires
        replies.len() >= 16,
    ensures
        request_of(run_after(repo, replies, heres)) is Exit,
{
    lemma_remaining(repo, replies, heres);
}

proof fn lemma_remaining(repo: Seq<char>, replies: Seq<Reply>, heres: Seq<HereView>)
    ensures
        0 <= remaining(run_after(repo, replies, heres).phase),
        remaining(run_after(repo, replies, heres).phase) <= if replies.len() <= 16 {
            16 - replies.len()
        } else {
            0
        },
    decreases replies.len(),
{
    if replies.len() > 0 {
        lemma_remaining(repo, replies.drop_last(), heres);
    }
}

/// A run that is over stays so, with the same exit code and nothing more to log.
pub proof fn a_run_that_is_over_stays_so(run: RunView, reply: Reply, here: HereView)
    requires
        request_of(run) is Exit,
    ensures
        turn(run, reply, here).run == run,
        turn(run, reply, here).log.len() == 0,
{
}

/// The exit codes are 0, 1 and 2.
pub proof fn exit_codes(repo: Seq<char>, replies: Seq<Reply>, heres: Seq<HereView>)
    ensures
        request_of(run_after(repo, replies, heres)) matches RequestView::Exit(code) ==> code == 0
            || code == 1 || code == 2,
    decreases replies.len(),
{
    if replies.len() > 0 {
        exit_codes(repo, replies.drop_last(), heres);
    }
}

/// A turn that ends a run with exit code 1 logs exactly one line, which tells
/// of the error.
pub proof fn failure_is_logged(run: RunView, reply: Reply, here: HereView)
    requires
        !(request_of(run) is Exit),
        request_of(turn(run, reply, here).run) == RequestView::Exit(1),
    ensures
        exists|why: Seq<char>| turn(run, reply, here) == #[trigger] fail(run, why),
{
    let log = turn(run, reply, here).log;
    assert(log.len() == 1);
    let why = log[0].skip("ERROR: "@.len() as int);
    assert forall|x: Seq<char>| ("ERROR: "@ + x).skip("ERROR: "@.len() as int) == x by {
        assert(("ERROR: "@ + x).skip("ERROR: "@.len() as int) =~= x);
    }
    assert(turn(run, reply, here) == fail(run, why));
}

/// Exit code 1 means that some reply made the run fail, with its reason logged.
pub proof fn exit_1_means_failure(
    repo: Seq<char>,
    replies: Seq<Reply>,
    heres: Seq<HereView>,
) -> (k: int)
    requires
        request_of(run_after(repo, replies, heres)) == RequestView::Exit(1),
    ensures
        0 <= k < replies.len(),
        ({
            let run = run_at(repo, replies, heres, k);
            &&& !(request_of(run) is Exit)
            &&& exists|why: Seq<char>| turn(run, replies[k], heres[k]) == #[trigger] fail(run, why)
        }),
    decreases replies.len(),
{
    let n = replies.len() as int;
    if n == 0 {
        0
    } else {
        lemma_last_turn(repo, replies, heres);
        let fewer = replies.drop_last();
        let last = run_after(repo, fewer, heres);
        if last.phase is Done {
            a_run_that_is_over_stays_so(last, replies[n - 1], heres[n - 1]);
            let k = exit_1_means_failure(repo, fewer, heres);
            assert(run_at(repo, replies, heres, k) == run_at(repo, fewer, heres, k));
            k
        } else {
            failure_is_logged(last, replies[n - 1], heres[n - 1]);
            n - 1
        }
    }
}

/// Exit code 0 means that the branch was pushed: for the first time, after it
/// was found to have no upstream, or after it was rebased onto its upstream.
pub proof fn exit_0_means_pushed(repo: Seq<char>, replies: Seq<Reply>, heres: Seq<HereView>) -> (k: int)
    requires
        request_of(run_after(repo, replies, heres)) == RequestView::Exit(0),
    ensures
        1 <= k < replies.len(),
        ({
            let b = run_after(repo, replies, heres).branch;
            let asked = |i: int| request_of(run_at(repo, replies, heres, i));
            ||| {
                &&& asked(k - 1) == RequestView::Git(
                    seq!["rev-parse"@, "--verify"@, "--quiet"@, upstream_of(b)],
                )
                &&& !went_well(replies[k - 1])
                &&& asked(k) == RequestView::Git(seq!["push"@, "-u"@, "origin"@, b])
                &&& went_well(replies[k])
            }
            ||| {
                &&& asked(k - 1) == RequestView::Git(seq!["rebase"@, "--quiet"@, upstream_of(b)])
                &&& went_well(replies[k - 1])
                &&& asked(k) == RequestView::Git(seq!["push"@, "--quiet"@])
                &&& went_well(replies[k])
            }
        }),
    decreases replies.len(),
{
    let n = replies.len() as int;
    if n == 0 {
        0
    } else {
        lemma_last_turn(repo, replies, heres);
        let fewer = replies.drop_last();
        let last = run_after(repo, fewer, heres);
        if last.phase is Done {
            let k = exit_0_means_pushed(repo, fewer, heres);
            assert(run_at(repo, replies, heres, k) == run_at(repo, fewer, heres, k));
            assert(run_at(repo, replies, heres, k - 1) == run_at(repo, fewer, heres, k - 1));
            k
        } else {
            assert(fewer.len() > 0);
            lemma_last_turn(repo, fewer, heres);
            assert(run_at(repo, replies, heres, n - 2) == run_at(repo, fewer, heres, n - 2));
            n - 1
        }
    }
}

/// The run has no other way to go on than with what it asks for.
pub open spec fn is_necessary(phase: Phase) -> bool {
    !(phase is Tree || phase is Upstream || phase is Rebase || phase is Abort || phase is Done)
}

/// A necessary step that is refused ends the run at once, with exit code 1 and
/// the reason logged: a directory that does not exist or is no repository, a
/// lock that cannot be opened or that another run holds, a detached HEAD, and a
/// failed staging, commit, fetch, push, safety branch or reset.
pub proof fn refused_step_is_an_error(run: RunView, reply: Reply, here: HereView)
    requires
        is_necessary(run.phase),
        !went_well(reply) || run.phase is Worktree && !confirms_worktree(reply) || run.phase is Head
            && said(reply).len() == 0,
    ensures
        request_of(turn(run, reply, here).run) == RequestView::Exit(1),
        exists|why: Seq<char>| turn(run, reply, here) == #[trigger] fail(run, why),
{
    failure_is_logged(run, reply, here);
}

/// Where the branch exists upstream and both the rebase and the push succeed,
/// the run ends with exit code 0; so it does where the branch does not exist
/// upstream and its first push succeeds.
pub proof fn pushed_means_exit_0(
    run: RunView,
    first: Reply,
    second: Reply,
    third: Reply,
    heres: Seq<HereView>,
)
    requires
        run.phase is Upstream,
        went_well(second),
    ensures
        ({
            let run1 = turn(run, first, heres[0]).run;
            let run2 = turn(run1, second, heres[1]).run;
            let run3 = turn(run2, third, heres[2]).run;
            &&& went_well(first) && went_well(third) ==> request_of(run3) == RequestView::Exit(0)
            &&& !went_well(first) ==> request_of(run2) == RequestView::Exit(0)
        }),
{
}

/// A rebase that fails ends the run with exit code 2 where the safety branch is
/// created, the branch is reset and the safety branch is pushed, however the
/// abort of the rebase went.
pub proof fn conflict_means_exit_2(
    run: RunView,
    rebased: Reply,
    aborted: Reply,
    created: Reply,
    reset: Reply,
    pushed: Reply,
    heres: Seq<HereView>,
)
    requires
        run.phase is Rebase,
        !went_well(rebased),
        went_well(created),
        went_well(reset),
        went_well(pushed),
    ensures
        ({
            let run1 = turn(run, rebased, heres[0]).run;
            let run2 = turn(run1, aborted, heres[1]).run;
            let run3 = turn(run2, created, heres[2]).run;
            let run4 = turn(run3, reset, heres[3]).run;
            let last = turn(run4, pushed, heres[4]);
            &&& request_of(last.run) == RequestView::Exit(2)
            &&& last.run.safety == safety_branch(run.branch, heres[1].epoch)
            &&& last.log == conflict_log(last.run)
        }),
{
}

/// The safety branch is named after the branch and the seconds since 1970: the
/// name ends in digits, without a sign, which give back those seconds.
pub proof fn safety_branch_ends_in_the_epoch(run: RunView, aborted: Reply, here: HereView)
    requires
        run.phase is Abort,
        is_plausible(here),
    ensures
        ({
            let digits = decimal(here.epoch as nat);
            &&& turn(run, aborted, here).run.safety == "sync/conflit-"@ + run.branch + "-"@ + digits
            &&& digits.len() > 0
            &&& all_digits(digits)
            &&& digits_value(digits) == here.epoch
        }),
{
    lemma_decimal(here.epoch as nat);
}

/// How a run comes to each phase of the way out of a conflict.
proof fn lemma_conflict_turn(run: RunView, reply: Reply, here: HereView)
    ensures
        ({
            let next = turn(run, reply, here).run;
            &&& next.phase is Abort ==> run.phase is Rebase && !went_well(reply) && next.branch
                == run.branch
            &&& next.phase is Safety ==> run.phase is Abort && next.branch == run.branch
                && next.safety == safety_branch(run.branch, here.epoch)
            &&& next.phase is Reset ==> run.phase is Safety && went_well(reply) && next.branch
                == run.branch && next.safety == run.safety
            &&& next.phase is SafetyPush ==> run.phase is Reset && went_well(reply) && next.branch
                == run.branch && next.safety == run.safety
            &&& next.phase is Done && next.code == 2 && !(run.phase is Done)
                ==> run.phase is SafetyPush && went_well(reply) && next.branch == run.branch
                && next.safety == run.safety
        }),
{
}

/// One turn of a run, at any place of its history.
proof fn lemma_turn_at(repo: Seq<char>, replies: Seq<Reply>, heres: Seq<HereView>, k: int)
    requires
        0 < k <= replies.len(),
    ensures
        run_at(repo, replies, heres, k) == turn(
            run_at(repo, replies, heres, k - 1),
            replies[k - 1],
            heres[k - 1],
        ).run,
{
    assert(replies.take(k).drop_last() == replies.take(k - 1));
}

/// The run went through the way out of a conflict, ending with reply `k`.
pub open spec fn left_conflict(
    repo: Seq<char>,
    replies: Seq<Reply>,
    heres: Seq<HereView>,
    k: int,
) -> bool {
    let run = run_after(repo, replies, heres);
    let up = upstream_of(run.branch);
    &&& 4 <= k < replies.len()
    &&& request_of(run_at(repo, replies, heres, k - 4)) == RequestView::Git(
        seq!["rebase"@, "--quiet"@, up],
    )
    &&& !went_well(replies[k - 4])
    &&& request_of(run_at(repo, replies, heres, k - 3)) == RequestView::Git(
        seq!["rebase"@, "--abort"@],
    )
    &&& run.safety == safety_branch(run.branch, heres[k - 3].epoch)
    &&& request_of(run_at(repo, replies, heres, k - 2)) == RequestView::Git(
        seq!["checkout"@, "-q"@, "-b"@, run.safety],
    )
    &&& went_well(replies[k - 2])
    &&& request_of(run_at(repo, replies, heres, k - 1)) == RequestView::Git(
        seq!["branch"@, "-f"@, run.branch, up],
    )
    &&& went_well(replies[k - 1])
    &&& request_of(run_at(repo, replies, heres, k)) == RequestView::Git(
        seq!["push"@, "-u"@, "--quiet"@, "origin"@, run.safety],
    )
    &&& went_well(replies[k])
}

/// Exit code 2 means that the rebase failed and was aborted, that a safety
/// branch was created where the work stood, that the branch was reset to its
/// upstream, and that the safety branch was pushed, in this order and each done.
pub proof fn exit_2_means_work_is_safe(
    repo: Seq<char>,
    replies: Seq<Reply>,
    heres: Seq<HereView>,
) -> (k: int)
    requires
        request_of(run_after(repo, replies, heres)) == RequestView::Exit(2),
    ensures
        left_conflict(repo, replies, heres, k),
    decreases replies.len(),
{
    let n = replies.len() as int;
    if n == 0 {
        0
    } else {
        lemma_last_turn(repo, replies, heres);
        let fewer = replies.drop_last();
        if run_after(repo, fewer, heres).phase is Done {
            a_run_that_is_over_stays_so(run_after(repo, fewer, heres), replies[n - 1], heres[n - 1]);
            let k = exit_2_means_work_is_safe(repo, fewer, heres);
            assert(run_at(repo, replies, heres, k) == run_at(repo, fewer, heres, k));
            assert(run_at(repo, replies, heres, k - 1) == run_at(repo, fewer, heres, k - 1));
            assert(run_at(repo, replies, heres, k - 2) == run_at(repo, fewer, heres, k - 2));
            assert(run_at(repo, replies, heres, k - 3) == run_at(repo, fewer, heres, k - 3));
            assert(run_at(repo, replies, heres, k - 4) == run_at(repo, fewer, heres, k - 4));
            k
        } else {
            lemma_way_out(repo, replies, heres);
            n - 1
        }
    }
}

/// The last five turns of a run that has just ended with exit code 2.
proof fn lemma_way_out(repo: Seq<char>, replies: Seq<Reply>, heres: Seq<HereView>)
    requires
        replies.len() > 0,
        request_of(run_after(repo, replies, heres)) == RequestView::Exit(2),
        !(run_after(repo, replies.drop_last(), heres).phase is Done),
    ensures
        left_conflict(repo, replies, heres, replies.len() - 1),
{
    let n = replies.len() as int;
    lemma_last_turn(repo, replies, heres);
    lemma_conflict_at(repo, replies, heres, n);
    lemma_enough(repo, replies, heres, n - 1);
    lemma_conflict_at(repo, replies, heres, n - 1);
    lemma_conflict_at(repo, replies, heres, n - 2);
    lemma_conflict_at(repo, replies, heres, n - 3);
    lemma_conflict_at(repo, replies, heres, n - 4);
}

/// How a run came to each phase of the way out of a conflict, at any place of its
/// history.
proof fn lemma_conflict_at(repo: Seq<char>, replies: Seq<Reply>, heres: Seq<HereView>, k: int)
    requires
        0 < k <= replies.len(),
    ensures
        ({
            let run = run_at(repo, replies, heres, k - 1);
            let next = run_at(repo, replies, heres, k);
            let well = went_well(replies[k - 1]);
            &&& next.phase is Abort ==> run.phase is Rebase && !well && next.branch == run.branch
            &&& next.phase is Safety ==> run.phase is Abort && next.branch == run.branch
                && next.safety == safety_branch(run.branch, heres[k - 1].epoch)
            &&& next.phase is Reset ==> run.phase is Safety && well && next.branch == run.branch
                && next.safety == run.safety
            &&& next.phase is SafetyPush ==> run.phase is Reset && well && next.branch == run.branch
                && next.safety == run.safety
            &&& next.phase is Done && next.code == 2 && !(run.phase is Done)
                ==> run.phase is SafetyPush && well && next.branch == run.branch && next.safety
                == run.safety
        }),
{
    lemma_turn_at(repo, replies, heres, k);
    lemma_conflict_turn(run_at(repo, replies, heres, k - 1), replies[k - 1], heres[k - 1]);
}

/// A run has taken at least as many turns as its phase is away from the start
/// of the way out of a conflict.
proof fn lemma_enough(repo: Seq<char>, replies: Seq<Reply>, heres: Seq<HereView>, k: int)
    requires
        0 <= k <= replies.len(),
    ensures
        ({
            let p = run_at(repo, replies, heres, k).phase;
            &&& p is Abort ==> k >= 1
            &&& p is Safety ==> k >= 2
            &&& p is Reset ==> k >= 3
            &&& p is SafetyPush ==> k >= 4
        }),
    decreases k,
{
    if k > 0 {
        lemma_enough(repo, replies, heres, k - 1);
        lemma_turn_at(repo, replies, heres, k);
        lemma_conflict_turn(run_at(repo, replies, heres, k - 1), replies[k - 1], heres[k - 1]);
    } else {
        assert(replies.take(0).len() == 0);
    }
}

/// While the lock is not held, the only `git` command asked for is `rev-parse`,
/// which changes nothing; any other comes after the lock was taken.
pub proof fn nothing_is_changed_without_the_lock(
    repo: Seq<char>,
    replies: Seq<Reply>,
    heres: Seq<HereView>,
)
    ensures
        request_of(run_after(repo, replies, heres)) matches RequestView::Git(args) ==> args[0]
            == "rev-parse"@ || exists|j: int| #[trigger]
            lock_was_taken(repo, replies, heres, j),
{
    lemma_lock(repo, replies, heres);
}

proof fn lemma_lock(repo: Seq<char>, replies: Seq<Reply>, heres: Seq<HereView>)
    ensures
        needs_lock(run_after(repo, replies, heres).phase) ==> exists|j: int| #[trigger]
            lock_was_taken(repo, replies, heres, j),
    decreases replies.len(),
{
    if replies.len() > 0 {
        let fewer = replies.drop_last();
        lemma_lock(repo, fewer, heres);
        lemma_last_turn(repo, replies, heres);
        let last = run_after(repo, fewer, heres);
        if needs_lock(last.phase) {
            let j = choose|j: int| #[trigger] lock_was_taken(repo, fewer, heres, j);
            assert(run_at(repo, replies, heres, j) == run_at(repo, fewer, heres, j));
            assert(lock_was_taken(repo, replies, heres, j));
        } else if needs_lock(run_after(repo, replies, heres).phase) {
            assert(lock_was_taken(repo, replies, heres, replies.len() - 1));
        }
    }
}

/// As an argument of `git push`, `arg` may force the push: it is an option other
/// than `-u` and `--quiet`, or has the leading plus sign of a forced refspec.
pub open spec fn may_force(arg: Seq<char>) -> bool {
    &&& arg.len() > 0
    &&& arg[0] == '+' || arg[0] == '-' && arg != "-u"@ && arg != "--quiet"@
}

/// In the phases that use the safety branch, its name starts with a letter.
proof fn lemma_safety_name(repo: Seq<char>, replies: Seq<Reply>, heres: Seq<HereView>)
    ensures
        ({
            let run = run_after(repo, replies, heres);
            run.phase is Safety || run.phase is Reset || run.phase is SafetyPush ==> run.safety.len()
                > 0 && run.safety[0] == 's'
        }),
    decreases replies.len(),
{
    if replies.len() > 0 {
        let n = replies.len() - 1;
        let last = run_after(repo, replies.drop_last(), heres);
        lemma_safety_name(repo, replies.drop_last(), heres);
        lemma_conflict_turn(last, replies[n], heres[n]);
        reveal_strlit("sync/conflit-");
        assert("sync/conflit-"@[0] == 's');
        assert(safety_branch(last.branch, heres[n].epoch)[0] == 's');
    }
}

/// No other command that a run asks for is a push.
proof fn lemma_push_is_its_own()
    ensures
        "rev-parse"@ != "push"@,
        "symbolic-ref"@ != "push"@,
        "status"@ != "push"@,
        "add"@ != "push"@,
        "commit"@ != "push"@,
        "fetch"@ != "push"@,
        "rebase"@ != "push"@,
        "checkout"@ != "push"@,
        "branch"@ != "push"@,
{
    reveal_strlit("push");
    reveal_strlit("rev-parse");
    reveal_strlit("symbolic-ref");
    reveal_strlit("status");
    reveal_strlit("add");
    reveal_strlit("commit");
    reveal_strlit("fetch");
    reveal_strlit("rebase");
    reveal_strlit("checkout");
    reveal_strlit("branch");
    assert("push"@[0] == 'p');
    assert("rev-parse"@[0] == 'r');
    assert("symbolic-ref"@[0] == 's');
    assert("status"@[0] == 's');
    assert("add"@[0] == 'a');
    assert("commit"@[0] == 'c');
    assert("fetch"@[0] == 'f');
    assert("rebase"@[0] == 'r');
    assert("checkout"@[0] == 'c');
    assert("branch"@[0] == 'b');
}

/// No push is forced: nothing that a run hands to `git push` can force it, but
/// for the name of the branch, where git lets a branch be named so.
pub proof fn no_push_is_forced(
    repo: Seq<char>,
    replies: Seq<Reply>,
    heres: Seq<HereView>,
    args: Seq<Seq<char>>,
    i: int,
)
    requires
        request_of(run_after(repo, replies, heres)) == RequestView::Git(args),
        args[0] == "push"@,
        0 <= i < args.len(),
    ensures
        may_force(args[i]) ==> args[i] == run_after(repo, replies, heres).branch,
{
    lemma_safety_name(repo, replies, heres);
    lemma_push_is_its_own();
    reveal_strlit("push");
    reveal_strlit("origin");
    reveal_strlit("-u");
    reveal_strlit("--quiet");
    assert("push"@[0] == 'p');
    assert("origin"@[0] == 'o');
    assert("-u"@[0] == '-');
    assert("--quiet"@[0] == '-');
    let run = run_after(repo, replies, heres);
    match run.phase {
        Phase::FirstPush => assert(args == seq!["push"@, "-u"@, "origin"@, run.branch]),
        Phase::Push => assert(args == seq!["push"@, "--quiet"@]),
        Phase::SafetyPush => assert(args == seq![
            "push"@,
            "-u"@,
            "--quiet"@,
            "origin"@,
            run.safety,
        ]),
        _ => assert(false),
    }
}

/// The run is past the commit: the fetch and all that comes after it.
pub open spec fn past_commit(phase: Phase) -> bool {
    remaining(phase) <= remaining(Phase::Fetch) && !(phase is Done)
}

/// When `k` of the replies had come in, the run asked for what there is to
/// commit and there was nothing, or it asked for the commit and it was made.
pub open spec fn work_is_committed(
    repo: Seq<char>,
    replies: Seq<Reply>,
    heres: Seq<HereView>,
    k: int,
) -> bool {
    &&& 0 <= k < replies.len()
    &&& {
        let run = run_at(repo, replies, heres, k);
        ||| request_of(run) == RequestView::Git(seq!["status"@, "--porcelain"@]) && said(
            replies[k],
        ).len() == 0
        ||| request_of(run) == RequestView::Git(seq!["commit"@, "-m"@, run.message]) && went_well(
            replies[k],
        )
    }
}

/// Nothing is fetched, rebased, reset or pushed before all local changes are
/// committed.
pub proof fn work_is_committed_first(repo: Seq<char>, replies: Seq<Reply>, heres: Seq<HereView>)
    requires
        past_commit(run_after(repo, replies, heres).phase),
    ensures
        exists|j: int| #[trigger] work_is_committed(repo, replies, heres, j),
    decreases replies.len(),
{
    if replies.len() > 0 {
        let fewer = replies.drop_last();
        lemma_last_turn(repo, replies, heres);
        let last = run_after(repo, fewer, heres);
        if past_commit(last.phase) {
            work_is_committed_first(repo, fewer, heres);
            let j = choose|j: int| #[trigger] work_is_committed(repo, fewer, heres, j);
            assert(run_at(repo, replies, heres, j) == run_at(repo, fewer, heres, j));
            assert(work_is_committed(repo, replies, heres, j));
        } else {
            assert(work_is_committed(repo, replies, heres, replies.len() - 1));
        }
    }
}

/// The branch is reset to its upstream only when the safety branch that holds
/// the work has just been created.
pub proof fn branch_is_reset_only_when_work_is_saved(
    repo: Seq<char>,
    replies: Seq<Reply>,
    heres: Seq<HereView>,
)
    requires
        run_after(repo, replies, heres).phase is Reset,
    ensures
        replies.len() > 0,
        ({
            let run = run_after(repo, replies, heres);
            let k = replies.len() - 1;
            &&& request_of(run) == RequestView::Git(
                seq!["branch"@, "-f"@, run.branch, upstream_of(run.branch)],
            )
            &&& request_of(run_at(repo, replies, heres, k)) == RequestView::Git(
                seq!["checkout"@, "-q"@, "-b"@, run.safety],
            )
            &&& went_well(replies[k])
        }),
{
    lemma_last_turn(repo, replies, heres);
}

} // verus!
