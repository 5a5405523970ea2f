//! Synchronising one repository: commit everything, fetch, rebase onto the
//! upstream and push; on conflict, move the work to a safety branch.
//!
//! A run is a conversation. In each phase the run waits for the reply to one
//! request; the reply takes it to the next phase and may leave lines to log.

use crate::git::{is_git_worktree, output, says_worktree, succeeded, GitReply};
use crate::surroundings::{epoch_now, hostname_short, is_stamp, now_iso};
use crate::text::{command, push_signed, signed_decimal, strings, trim, trimmed};
use vstd::prelude::*;

verus! {

/// The file in the git directory by which a run keeps others out.
pub const LOCK_FILE: &'static str = "auto-sync.lock";

/// What a run is waiting for.
#[derive(Clone, Copy, Debug, PartialEq, Eq, Structural)]
pub enum Phase {
    /// Whether the directory exists.
    Access,
    /// Whether it is inside a work tree.
    Worktree,
    /// Where its git directory is.
    GitDir,
    /// The lock file to be opened.
    LockOpen,
    /// The lock to be taken.
    LockTake,
    /// Which branch is checked out.
    Head,
    /// Whether there is anything to commit.
    Tree,
    /// All changes to be staged.
    Stage,
    /// The commit.
    Commit,
    /// The fetch.
    Fetch,
    /// Whether the branch exists upstream.
    Upstream,
    /// The first push of the branch.
    FirstPush,
    /// The rebase onto the upstream.
    Rebase,
    /// The push of the rebased branch.
    Push,
    /// A failed rebase to be aborted.
    Abort,
    /// The safety branch to be created.
    Safety,
    /// The branch to be reset to the upstream.
    Reset,
    /// The push of the safety branch.
    SafetyPush,
    /// Nothing: the run is over.
    Done,
}

/// A run of the synchronisation.
pub struct SyncRun {
    pub phase: Phase,
    /// The repository, as shown to the user.
    pub repo: String,
    pub git_dir: String,
    pub branch: String,
    /// The message of the commit.
    pub message: String,
    /// The safety branch.
    pub safety: String,
    /// The exit code, once the run is over.
    pub code: i32,
}

/// The mathematical counterpart of [`SyncRun`].
#[verifier::ext_equal]
pub struct RunView {
    pub phase: Phase,
    pub repo: Seq<char>,
    pub git_dir: Seq<char>,
    pub branch: Seq<char>,
    pub message: Seq<char>,
    pub safety: Seq<char>,
    pub code: int,
}

impl View for SyncRun {
    type V = RunView;

    open spec fn view(&self) -> RunView {
        RunView {
            phase: self.phase,
            repo: self.repo@,
            git_dir: self.git_dir@,
            branch: self.branch@,
            message: self.message@,
            safety: self.safety@,
            code: self.code as int,
        }
    }
}

/// What a run asks for.
pub enum Request {
    /// Look whether the directory exists.
    CheckAccess,
    /// Run `git` with these arguments.
    Git(Vec<String>),
    /// Open the file of this name in this git directory, to be locked.
    OpenLock(String, String),
    /// Take the lock without waiting.
    TakeLock,
    /// Exit with this code.
    Exit(i32),
}

/// The mathematical counterpart of [`Request`].
#[verifier::ext_equal]
pub enum RequestView {
    CheckAccess,
    Git(Seq<Seq<char>>),
    OpenLock(Seq<char>, Seq<char>),
    TakeLock,
    Exit(int),
}

impl View for Request {
    type V = RequestView;

    open spec fn view(&self) -> RequestView {
        match self {
            Request::CheckAccess => RequestView::CheckAccess,
            Request::Git(args) => RequestView::Git(strings(args@)),
            Request::OpenLock(dir, file) => RequestView::OpenLock(dir@, file@),
            Request::TakeLock => RequestView::TakeLock,
            Request::Exit(code) => RequestView::Exit(*code as int),
        }
    }
}

/// Why a lock file could not be opened.
pub struct LockFailure {
    pub path: String,
    pub error: String,
}

/// The reply to a request.
pub enum Reply {
    /// The directory exists, or does not.
    Access(bool),
    /// How the run of `git` ended.
    Git(GitReply),
    /// The lock file is open, or could not be opened.
    LockOpened(Result<(), LockFailure>),
    /// The lock is taken, or another run holds it.
    LockTaken(bool),
}

/// The moment, the host and the seconds since 1970 that a run takes note of.
pub struct Surroundings {
    pub stamp: String,
    pub host: String,
    pub epoch: i64,
}

/// The mathematical counterpart of [`Surroundings`].
#[verifier::ext_equal]
pub struct HereView {
    pub stamp: Seq<char>,
    pub host: Seq<char>,
    pub epoch: int,
}

impl View for Surroundings {
    type V = HereView;

    open spec fn view(&self) -> HereView {
        HereView { stamp: self.stamp@, host: self.host@, epoch: self.epoch as int }
    }
}

/// What the clock and the host name can be.
pub open spec fn is_plausible(here: HereView) -> bool {
    &&& is_stamp(here.stamp)
    &&& !here.host.contains('.')
    &&& here.epoch >= 0
}

// ---------------------------------------------------------------------------
// Specification
// ---------------------------------------------------------------------------

/// The reply is that what was asked for has been done, or is so.
pub open spec fn went_well(reply: Reply) -> bool {
    match reply {
        Reply::Access(found) => found,
        Reply::Git(r) => succeeded(r),
        Reply::LockOpened(r) => r is Ok,
        Reply::LockTaken(taken) => taken,
    }
}

/// The output of `git` in the reply, trimmed.
pub open spec fn said(reply: Reply) -> Seq<char> {
    match reply {
        Reply::Git(r) => trim(output(r)),
        _ => seq![],
    }
}

/// The reply is that the directory is inside a work tree.
pub open spec fn confirms_worktree(reply: Reply) -> bool {
    reply matches Reply::Git(r) && says_worktree(r)
}

/// Why the lock file could not be opened.
pub open spec fn lock_trouble(reply: Reply) -> Seq<char> {
    match reply {
        Reply::LockOpened(Err(f)) => f.path@ + ": "@ + f.error@,
        _ => seq![],
    }
}

/// The upstream of a branch.
pub open spec fn upstream_of(branch: Seq<char>) -> Seq<char> {
    "origin/"@ + branch
}

/// The message of an automatic commit.
pub open spec fn commit_message(here: HereView) -> Seq<char> {
    "auto: "@ + here.stamp + " on "@ + here.host
}

/// The name of the safety branch for `branch`.
pub open spec fn safety_branch(branch: Seq<char>, epoch: int) -> Seq<char> {
    "sync/conflit-"@ + branch + "-"@ + signed_decimal(epoch)
}

/// The start of a run.
pub open spec fn start(repo: Seq<char>) -> RunView {
    RunView {
        phase: Phase::Access,
        repo,
        git_dir: seq![],
        branch: seq![],
        message: seq![],
        safety: seq![],
        code: 0,
    }
}

/// What a run asks for in its phase.
pub open spec fn request_of(run: RunView) -> RequestView {
    match run.phase {
        Phase::Access => RequestView::CheckAccess,
        Phase::Worktree => RequestView::Git(seq!["rev-parse"@, "--is-inside-work-tree"@]),
        Phase::GitDir => RequestView::Git(seq!["rev-parse"@, "--absolute-git-dir"@]),
        Phase::LockOpen => RequestView::OpenLock(run.git_dir, LOCK_FILE@),
        Phase::LockTake => RequestView::TakeLock,
        Phase::Head => RequestView::Git(seq!["symbolic-ref"@, "--short"@, "-q"@, "HEAD"@]),
        Phase::Tree => RequestView::Git(seq!["status"@, "--porcelain"@]),
        Phase::Stage => RequestView::Git(seq!["add"@, "-A"@]),
        Phase::Commit => RequestView::Git(seq!["commit"@, "-m"@, run.message]),
        Phase::Fetch => RequestView::Git(seq!["fetch"@, "--quiet"@]),
        Phase::Upstream => RequestView::Git(
            seq!["rev-parse"@, "--verify"@, "--quiet"@, upstream_of(run.branch)],
        ),
        Phase::FirstPush => RequestView::Git(seq!["push"@, "-u"@, "origin"@, run.branch]),
        Phase::Rebase => RequestView::Git(seq!["rebase"@, "--quiet"@, upstream_of(run.branch)]),
        Phase::Push => RequestView::Git(seq!["push"@, "--quiet"@]),
        Phase::Abort => RequestView::Git(seq!["rebase"@, "--abort"@]),
        Phase::Safety => RequestView::Git(seq!["checkout"@, "-q"@, "-b"@, run.safety]),
        Phase::Reset => RequestView::Git(
            seq!["branch"@, "-f"@, run.branch, upstream_of(run.branch)],
        ),
        Phase::SafetyPush => RequestView::Git(
            seq!["push"@, "-u"@, "--quiet"@, "origin"@, run.safety],
        ),
        Phase::Done => RequestView::Exit(run.code),
    }
}

/// Where a reply takes a run, and what there is to log.
#[verifier::ext_equal]
pub struct TurnView {
    pub run: RunView,
    pub log: Seq<Seq<char>>,
}

/// The run goes on in another phase, with nothing to log.
pub open spec fn go(run: RunView, phase: Phase) -> TurnView {
    TurnView { run: RunView { phase, ..run }, log: seq![] }
}

/// The run is over.
pub open spec fn finish(run: RunView, code: int, log: Seq<Seq<char>>) -> TurnView {
    TurnView { run: RunView { phase: Phase::Done, code, ..run }, log }
}

/// The run is over with an error.
pub open spec fn fail(run: RunView, why: Seq<char>) -> TurnView {
    finish(run, 1, seq!["ERROR: "@ + why])
}

/// The lines that tell of a conflict.
pub open spec fn conflict_log(run: RunView) -> Seq<Seq<char>> {
    let up = upstream_of(run.branch);
    seq![
        "CONFLICT with "@ + up + ": work has been stored on "@ + run.safety
            + " (HEAD is now on it)"@,
        "  "@ + run.branch + " has been reset to "@ + up,
    ]
}

/// In this phase the run takes note of the clock or the host name.
pub open spec fn takes_note(phase: Phase) -> bool {
    phase is Stage || phase is Abort
}

/// Where the reply to its request takes a run.
pub open spec fn turn(run: RunView, reply: Reply, here: HereView) -> TurnView {
    let ok = went_well(reply);
    let up = upstream_of(run.branch);
    match run.phase {
        Phase::Access => if ok {
            go(run, Phase::Worktree)
        } else {
            fail(run, "cannot access "@ + run.repo)
        },
        Phase::Worktree => if confirms_worktree(reply) {
            go(run, Phase::GitDir)
        } else {
            fail(run, run.repo + " is not a git repository"@)
        },
        Phase::GitDir => if ok {
            go(RunView { git_dir: said(reply), ..run }, Phase::LockOpen)
        } else {
            fail(run, "cannot resolve git dir"@)
        },
        Phase::LockOpen => if ok {
            go(run, Phase::LockTake)
        } else {
            fail(run, "cannot open lock file "@ + lock_trouble(reply))
        },
        Phase::LockTake => if ok {
            go(run, Phase::Head)
        } else {
            fail(run, "another run in progress"@)
        },
        Phase::Head => if ok && said(reply).len() > 0 {
            go(RunView { branch: said(reply), ..run }, Phase::Tree)
        } else {
            fail(run, "detached HEAD, doing nothing"@)
        },
        Phase::Tree => if said(reply).len() > 0 {
            go(run, Phase::Stage)
        } else {
            go(run, Phase::Fetch)
        },
        Phase::Stage => if ok {
            go(RunView { message: commit_message(here), ..run }, Phase::Commit)
        } else {
            fail(run, "git add failed"@)
        },
        Phase::Commit => if ok {
            TurnView { log: seq!["commit done on "@ + run.branch], ..go(run, Phase::Fetch) }
        } else {
            fail(run, "commit failed"@)
        },
        Phase::Fetch => if ok {
            go(run, Phase::Upstream)
        } else {
            fail(run, "git fetch has failed"@)
        },
        Phase::Upstream => if ok {
            go(run, Phase::Rebase)
        } else {
            go(run, Phase::FirstPush)
        },
        Phase::FirstPush => if ok {
            finish(run, 0, seq!["branch "@ + run.branch + " pushed for the first time"@])
        } else {
            fail(run, "first push failed"@)
        },
        Phase::Rebase => if ok {
            go(run, Phase::Push)
        } else {
            go(run, Phase::Abort)
        },
        Phase::Push => if ok {
            finish(run, 0, seq!["synchronized with "@ + up])
        } else {
            fail(run, "push refused"@)
        },
        Phase::Abort => go(
            RunView { safety: safety_branch(run.branch, here.epoch), ..run },
            Phase::Safety,
        ),
        Phase::Safety => if ok {
            go(run, Phase::Reset)
        } else {
            fail(run, "cannot create safety branch "@ + run.safety)
        },
        Phase::Reset => if ok {
            go(run, Phase::SafetyPush)
        } else {
            fail(run, "cannot reset "@ + run.branch + " to "@ + up)
        },
        Phase::SafetyPush => if ok {
            finish(run, 2, conflict_log(run))
        } else {
            fail(run, "cannot push the safety branch "@ + run.safety)
        },
        Phase::Done => go(run, Phase::Done),
    }
}

// ---------------------------------------------------------------------------
// Executable version
// ---------------------------------------------------------------------------

/// Starts the synchronisation of a repository.
pub fn cmd_sync(repo: &str) -> (r: SyncRun)
    ensures
        r@ == start(repo@),
{
    SyncRun {
        phase: Phase::Access,
        repo: repo.to_owned(),
        git_dir: String::new(),
        branch: String::new(),
        message: String::new(),
        safety: String::new(),
        code: 0,
    }
}

impl Reply {
    /// Whether what was asked for has been done, or is so.
    pub fn ok(&self) -> (r: bool)
        ensures
            r == went_well(*self),
    {
        match self {
            Reply::Access(found) => *found,
            Reply::Git(r) => match r {
                Ok(out) => out.ok,
                Err(_) => false,
            },
            Reply::LockOpened(r) => r.is_ok(),
            Reply::LockTaken(taken) => *taken,
        }
    }

    /// The output of `git`, trimmed.
    pub fn text(&self) -> (r: String)
        ensures
            r@ == said(*self),
    {
        match self {
            Reply::Git(Ok(out)) => trimmed(out.stdout.as_str()),
            _ => {
                proof {
                    assert(trim(seq![]) == Seq::<char>::empty());
                }
                String::new()
            },
        }
    }

    /// Whether the directory is inside a work tree.
    pub fn worktree(&self) -> (r: bool)
        ensures
            r == confirms_worktree(*self),
    {
        match self {
            Reply::Git(r) => is_git_worktree(r),
            _ => false,
        }
    }

    /// Why the lock file could not be opened.
    pub fn trouble(&self) -> (r: String)
        ensures
            r@ == lock_trouble(*self),
    {
        match self {
            Reply::LockOpened(Err(f)) => f.path.as_str().to_owned().concat(": ").concat(
                f.error.as_str(),
            ),
            _ => String::new(),
        }
    }
}

/// The upstream of a branch.
pub fn upstream_name(branch: &str) -> (r: String)
    ensures
        r@ == upstream_of(branch@),
{
    "origin/".to_owned().concat(branch)
}

impl Surroundings {
    /// The surroundings at present.
    pub fn now() -> (r: Surroundings)
        ensures
            is_plausible(r@),
    {
        Surroundings { stamp: now_iso(), host: hostname_short(), epoch: epoch_now() }
    }

    /// The message of an automatic commit.
    pub fn message(&self) -> (r: String)
        ensures
            r@ == commit_message(self@),
    {
        "auto: ".to_owned().concat(self.stamp.as_str()).concat(" on ").concat(self.host.as_str())
    }

    /// The name of the safety branch for `branch`.
    pub fn safety(&self, branch: &str) -> (r: String)
        ensures
            r@ == safety_branch(branch@, self.epoch as int),
    {
        let mut out = "sync/conflit-".to_owned().concat(branch).concat("-");
        push_signed(&mut out, self.epoch);
        out
    }
}

/// One line to log.
fn one_line(line: String) -> (r: Vec<String>)
    ensures
        strings(r@) == seq![line@],
{
    let mut v: Vec<String> = Vec::new();
    v.push(line);
    proof {
        assert(strings(v@) == seq![line@]);
    }
    v
}

/// Nothing to log.
fn no_lines() -> (r: Vec<String>)
    ensures
        strings(r@) == Seq::<Seq<char>>::empty(),
{
    let v: Vec<String> = Vec::new();
    proof {
        assert(strings(v@) == Seq::<Seq<char>>::empty());
    }
    v
}

impl SyncRun {
    /// What the run asks for.
    pub fn request(&self) -> (r: Request)
        ensures
            r@ == request_of(self@),
    {
        let up = upstream_name(self.branch.as_str());
        let branch = self.branch.as_str();
        let safety = self.safety.as_str();
        let args: Vec<String> = match self.phase {
            Phase::Access => return Request::CheckAccess,
            Phase::LockOpen => return Request::OpenLock(self.git_dir.clone(), LOCK_FILE.to_owned()),
            Phase::LockTake => return Request::TakeLock,
            Phase::Done => return Request::Exit(self.code),
            Phase::Worktree => command(&["rev-parse", "--is-inside-work-tree"]),
            Phase::GitDir => command(&["rev-parse", "--absolute-git-dir"]),
            Phase::Head => command(&["symbolic-ref", "--short", "-q", "HEAD"]),
            Phase::Tree => command(&["status", "--porcelain"]),
            Phase::Stage => command(&["add", "-A"]),
            Phase::Commit => command(&["commit", "-m", self.message.as_str()]),
            Phase::Fetch => command(&["fetch", "--quiet"]),
            Phase::Upstream => command(&["rev-parse", "--verify", "--quiet", up.as_str()]),
            Phase::FirstPush => command(&["push", "-u", "origin", branch]),
            Phase::Rebase => command(&["rebase", "--quiet", up.as_str()]),
            Phase::Push => command(&["push", "--quiet"]),
            Phase::Abort => command(&["rebase", "--abort"]),
            Phase::Safety => command(&["checkout", "-q", "-b", safety]),
            Phase::Reset => command(&["branch", "-f", branch, up.as_str()]),
            Phase::SafetyPush => command(&["push", "-u", "--quiet", "origin", safety]),
        };
        proof {
            assert(RequestView::Git(strings(args@)) =~~= request_of(self@));
        }
        Request::Git(args)
    }

    /// The run is over with an error.
    fn fail(&mut self, why: String) -> (r: Vec<String>)
        ensures
            (TurnView { run: final(self)@, log: strings(r@) }) == fail(old(self)@, why@),
    {
        self.phase = Phase::Done;
        self.code = 1;
        one_line("ERROR: ".to_owned().concat(why.as_str()))
    }

    /// The run is over with a code and one line to log.
    fn finish(&mut self, code: i32, line: String) -> (r: Vec<String>)
        ensures
            (TurnView { run: final(self)@, log: strings(r@) }) == finish(
                old(self)@,
                code as int,
                seq![line@],
            ),
    {
        self.phase = Phase::Done;
        self.code = code;
        one_line(line)
    }

    /// Takes the reply to the run's request, in given surroundings; what there
    /// is to log comes back.
    pub fn advance_at(&mut self, reply: &Reply, here: &Surroundings) -> (r: Vec<String>)
        ensures
            (TurnView { run: final(self)@, log: strings(r@) }) == turn(old(self)@, *reply, here@),
    {
        let ok = reply.ok();
        let up = upstream_name(self.branch.as_str());
        match self.phase {
            Phase::Access => if ok {
                self.phase = Phase::Worktree;
            } else {
                return self.fail("cannot access ".to_owned().concat(self.repo.as_str()));
            },
            Phase::Worktree => if reply.worktree() {
                self.phase = Phase::GitDir;
            } else {
                return self.fail(self.repo.clone().concat(" is not a git repository"));
            },
            Phase::GitDir => if ok {
                self.git_dir = reply.text();
                self.phase = Phase::LockOpen;
            } else {
                return self.fail("cannot resolve git dir".to_owned());
            },
            Phase::LockOpen => if ok {
                self.phase = Phase::LockTake;
            } else {
                let why = reply.trouble();
                return self.fail("cannot open lock file ".to_owned().concat(why.as_str()));
            },
            Phase::LockTake => if ok {
                self.phase = Phase::Head;
            } else {
                return self.fail("another run in progress".to_owned());
            },
            Phase::Head => {
                let branch = reply.text();
                if ok && !branch.as_str().is_empty() {
                    self.branch = branch;
                    self.phase = Phase::Tree;
                } else {
                    return self.fail("detached HEAD, doing nothing".to_owned());
                }
            },
            Phase::Tree => if !reply.text().as_str().is_empty() {
                self.phase = Phase::Stage;
            } else {
                self.phase = Phase::Fetch;
            },
            Phase::Stage => if ok {
                self.message = here.message();
                self.phase = Phase::Commit;
            } else {
                return self.fail("git add failed".to_owned());
            },
            Phase::Commit => if ok {
                self.phase = Phase::Fetch;
                return one_line("commit done on ".to_owned().concat(self.branch.as_str()));
            } else {
                return self.fail("commit failed".to_owned());
            },
            Phase::Fetch => if ok {
                self.phase = Phase::Upstream;
            } else {
                return self.fail("git fetch has failed".to_owned());
            },
            Phase::Upstream => if ok {
                self.phase = Phase::Rebase;
            } else {
                self.phase = Phase::FirstPush;
            },
            Phase::FirstPush => if ok {
                let line = "branch ".to_owned().concat(self.branch.as_str()).concat(
                    " pushed for the first time",
                );
                return self.finish(0, line);
            } else {
                return self.fail("first push failed".to_owned());
            },
            Phase::Rebase => if ok {
                self.phase = Phase::Push;
            } else {
                self.phase = Phase::Abort;
            },
            Phase::Push => if ok {
                return self.finish(0, "synchronized with ".to_owned().concat(up.as_str()));
            } else {
                return self.fail("push refused".to_owned());
            },
            Phase::Abort => {
                self.safety = here.safety(self.branch.as_str());
                self.phase = Phase::Safety;
            },
            Phase::Safety => if ok {
                self.phase = Phase::Reset;
            } else {
                let why = "cannot create safety branch ".to_owned().concat(self.safety.as_str());
                return self.fail(why);
            },
            Phase::Reset => if ok {
                self.phase = Phase::SafetyPush;
            } else {
                let why = "cannot reset ".to_owned().concat(self.branch.as_str()).concat(" to ").concat(
                    up.as_str(),
                );
                return self.fail(why);
            },
            Phase::SafetyPush => if ok {
                let line = "CONFLICT with ".to_owned().concat(up.as_str()).concat(
                    ": work has been stored on ",
                ).concat(self.safety.as_str()).concat(" (HEAD is now on it)");
                let more = "  ".to_owned().concat(self.branch.as_str()).concat(
                    " has been reset to ",
                ).concat(up.as_str());
                let mut log = self.finish(2, line);
                let ghost first = log@;
                log.push(more);
                proof {
                    assert(strings(log@) == strings(first).push(more@));
                    assert(strings(log@) == seq![line@, more@]);
                }
                return log;
            } else {
                let why = "cannot push the safety branch ".to_owned().concat(self.safety.as_str());
                return self.fail(why);
            },
            Phase::Done => {},
        }
        no_lines()
    }

    /// Takes the reply to the run's request. The clock and the host name are
    /// read where the run takes note of them.
    pub fn advance(&mut self, reply: &Reply) -> (r: Vec<String>)
        ensures
            takes_note(old(self).phase) ==> exists|here: HereView|
                is_plausible(here) && #[trigger] turn(old(self)@, *reply, here) == (TurnView {
                    run: final(self)@,
                    log: strings(r@),
                }),
            !takes_note(old(self).phase) ==> forall|here: HereView| #[trigger]
                turn(old(self)@, *reply, here) == (TurnView { run: final(self)@, log: strings(r@) }),
    {
        match self.phase {
            Phase::Stage | Phase::Abort => {
                let here = Surroundings::now();
                self.advance_at(reply, &here)
            },
            _ => {
                let nowhere = Surroundings { stamp: String::new(), host: String::new(), epoch: 0 };
                let log = self.advance_at(reply, &nowhere);
                proof {
                    assert forall|here: HereView| #[trigger] turn(old(self)@, *reply, here) == turn(
                        old(self)@,
                        *reply,
                        nowhere@,
                    ) by {}
                }
                log
            },
        }
    }
}

} // verus!
