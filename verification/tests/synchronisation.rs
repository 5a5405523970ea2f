use gitwatch::git::GitOut;
use gitwatch::surroundings::{hostname_short, log_line, log_line_at, now_iso, short_name};
use gitwatch::sync::{cmd_sync, LockFailure, Phase, Reply, Request, Surroundings, SyncRun};

fn out(ok: bool, stdout: &str) -> Reply {
    Reply::Git(Ok(GitOut { ok, stdout: stdout.to_string(), stderr: String::new() }))
}

fn yes() -> Reply {
    out(true, "")
}

fn no() -> Reply {
    out(false, "")
}

fn here() -> Surroundings {
    Surroundings {
        stamp: "2024-02-03T04:05:06+0100".to_string(),
        host: "box".to_string(),
        epoch: 1706929506,
    }
}

/// Feeds the replies and collects what was asked for and what was logged.
fn play(replies: Vec<Reply>) -> (SyncRun, Vec<String>, Vec<String>) {
    let mut run = cmd_sync("/r");
    let mut asked = Vec::new();
    let mut logged = Vec::new();
    for reply in replies {
        asked.push(match run.request() {
            Request::CheckAccess => "access".to_string(),
            Request::Git(args) => args.join(" "),
            Request::OpenLock(dir, file) => format!("open {dir} {file}"),
            Request::TakeLock => "lock".to_string(),
            Request::Exit(code) => format!("exit {code}"),
        });
        logged.extend(run.advance_at(&reply, &here()));
    }
    (run, asked, logged)
}

/// The replies up to and with the name of the branch.
fn opening() -> Vec<Reply> {
    vec![
        Reply::Access(true),
        out(true, "true\n"),
        out(true, "/r/.git\n"),
        Reply::LockOpened(Ok(())),
        Reply::LockTaken(true),
        out(true, "main\n"),
    ]
}

fn then(more: Vec<Reply>) -> Vec<Reply> {
    let mut all = opening();
    all.extend(more);
    all
}

fn exit_code(run: &SyncRun) -> i32 {
    match run.request() {
        Request::Exit(code) => code,
        _ => panic!("the run is not over"),
    }
}

fn fails_with(replies: Vec<Reply>, message: &str) {
    let (run, _, logged) = play(replies);
    assert_eq!(exit_code(&run), 1);
    assert_eq!(logged.last().unwrap(), &format!("ERROR: {message}"));
}

#[test]
fn changes_are_committed_rebased_and_pushed() {
    let (run, asked, logged) =
        play(then(vec![out(true, " M a\n"), yes(), yes(), yes(), yes(), yes(), yes()]));
    assert_eq!(
        asked,
        vec![
            "access",
            "rev-parse --is-inside-work-tree",
            "rev-parse --absolute-git-dir",
            "open /r/.git auto-sync.lock",
            "lock",
            "symbolic-ref --short -q HEAD",
            "status --porcelain",
            "add -A",
            "commit -m auto: 2024-02-03T04:05:06+0100 on box",
            "fetch --quiet",
            "rev-parse --verify --quiet origin/main",
            "rebase --quiet origin/main",
            "push --quiet",
        ]
    );
    assert_eq!(logged, vec!["commit done on main", "synchronized with origin/main"]);
    assert_eq!(exit_code(&run), 0);
}

#[test]
fn a_clean_tree_is_not_committed() {
    let (run, asked, logged) = play(then(vec![out(true, "\n"), yes(), yes(), yes(), yes()]));
    assert_eq!(asked[6..8], ["status --porcelain".to_string(), "fetch --quiet".to_string()]);
    assert_eq!(logged, vec!["synchronized with origin/main"]);
    assert_eq!(exit_code(&run), 0);
    let (run, _, _) = play(then(vec![Reply::Git(Err("lost".to_string()))]));
    assert_eq!(run.phase, Phase::Fetch);
    let (run, _, _) = play(then(vec![out(false, "?? a")]));
    assert_eq!(run.phase, Phase::Stage);
}

#[test]
fn a_branch_without_upstream_is_pushed_for_the_first_time() {
    let (run, asked, logged) = play(then(vec![yes(), yes(), no(), yes()]));
    assert_eq!(asked.last().unwrap(), "push -u origin main");
    assert_eq!(logged, vec!["branch main pushed for the first time"]);
    assert_eq!(exit_code(&run), 0);
}

#[test]
fn a_conflict_moves_the_work_to_a_safety_branch() {
    let (run, asked, logged) =
        play(then(vec![yes(), yes(), yes(), no(), no(), yes(), yes(), yes()]));
    let safety = "sync/conflit-main-1706929506";
    assert_eq!(
        asked[9..],
        [
            "rebase --quiet origin/main".to_string(),
            "rebase --abort".to_string(),
            format!("checkout -q -b {safety}"),
            "branch -f main origin/main".to_string(),
            format!("push -u --quiet origin {safety}"),
        ]
    );
    assert_eq!(
        logged,
        vec![
            format!(
                "CONFLICT with origin/main: work has been stored on {safety} (HEAD is now on it)"
            ),
            "  main has been reset to origin/main".to_string(),
        ]
    );
    assert_eq!(exit_code(&run), 2);
}

#[test]
fn no_push_has_an_option_that_forces_it() {
    let ways = vec![
        vec![yes(), yes(), no(), yes()],
        vec![yes(), yes(), yes(), yes(), yes()],
        vec![yes(), yes(), yes(), no(), yes(), yes(), yes(), yes()],
    ];
    for way in ways {
        let (_, asked, _) = play(then(way));
        let push = asked.last().unwrap();
        let mut words = push.split(' ');
        assert_eq!(words.next(), Some("push"));
        for word in words {
            assert!(!word.starts_with('+'));
            assert!(!word.starts_with('-') || word == "-u" || word == "--quiet");
        }
    }
}

#[test]
fn every_failure_is_logged_with_its_reason() {
    fails_with(vec![Reply::Access(false)], "cannot access /r");
    fails_with(vec![Reply::Access(true), out(true, "false")], "/r is not a git repository");
    fails_with(
        vec![Reply::Access(true), Reply::Git(Err("x".to_string()))],
        "/r is not a git repository",
    );
    fails_with(vec![Reply::Access(true), out(true, "true"), no()], "cannot resolve git dir");
    let failure = LockFailure { path: "/r/.git/auto-sync.lock".to_string(), error: "denied".to_string() };
    fails_with(
        vec![Reply::Access(true), out(true, "true"), yes(), Reply::LockOpened(Err(failure))],
        "cannot open lock file /r/.git/auto-sync.lock: denied",
    );
    let busy = vec![
        Reply::Access(true),
        out(true, "true"),
        yes(),
        Reply::LockOpened(Ok(())),
        Reply::LockTaken(false),
    ];
    fails_with(busy, "another run in progress");
    let mut detached = opening();
    detached.pop();
    detached.push(out(true, " \n"));
    fails_with(detached, "detached HEAD, doing nothing");
    let mut detached = opening();
    detached.pop();
    detached.push(out(false, "main"));
    fails_with(detached, "detached HEAD, doing nothing");
    fails_with(then(vec![out(true, "M"), no()]), "git add failed");
    fails_with(then(vec![out(true, "M"), yes(), no()]), "commit failed");
    fails_with(then(vec![yes(), no()]), "git fetch has failed");
    fails_with(then(vec![yes(), yes(), no(), no()]), "first push failed");
    fails_with(then(vec![yes(), yes(), yes(), yes(), no()]), "push refused");
    let safety = "sync/conflit-main-1706929506";
    fails_with(
        then(vec![yes(), yes(), yes(), no(), yes(), no()]),
        &format!("cannot create safety branch {safety}"),
    );
    fails_with(
        then(vec![yes(), yes(), yes(), no(), yes(), yes(), no()]),
        "cannot reset main to origin/main",
    );
    fails_with(
        then(vec![yes(), yes(), yes(), no(), yes(), yes(), yes(), no()]),
        &format!("cannot push the safety branch {safety}"),
    );
}

#[test]
fn a_run_that_is_over_stays_so() {
    let (run, _, logged) = play(vec![Reply::Access(false), yes(), yes()]);
    assert_eq!(logged.len(), 1);
    assert_eq!(exit_code(&run), 1);
}

#[test]
fn a_run_reads_the_clock_and_the_host_itself() {
    let mut run = cmd_sync("/r");
    for reply in then(vec![out(true, "M a")]) {
        assert!(run.advance(&reply).is_empty());
    }
    assert!(run.advance(&yes()).is_empty());
    let message = match run.request() {
        Request::Git(args) => args[2].clone(),
        _ => panic!("no commit"),
    };
    let rest = message.strip_prefix("auto: ").unwrap();
    let (stamp, host) = rest.split_once(" on ").unwrap();
    assert_eq!(stamp.len(), 24);
    assert_eq!(host, hostname_short());
    for reply in [yes(), yes(), yes(), no()] {
        run.advance(&reply);
    }
    assert!(run.advance(&no()).is_empty());
    let digits = run.safety.strip_prefix("sync/conflit-main-").unwrap();
    assert!(digits.chars().all(|c| c.is_ascii_digit()));
    let epoch: i64 = digits.parse().unwrap();
    assert!(epoch > 1_600_000_000);
}

#[test]
fn a_moment_has_the_layout_of_iso_8601() {
    let now = now_iso();
    let shape: String = now.chars().map(|c| if c.is_ascii_digit() { '0' } else { c }).collect();
    assert!(shape == "0000-00-00T00:00:00+0000" || shape == "0000-00-00T00:00:00-0000");
    assert!(chrono::DateTime::parse_from_str(&now, "%Y-%m-%dT%H:%M:%S%z").is_ok());
}

#[test]
fn host_names_are_cut_at_the_first_dot() {
    assert_eq!(short_name("box.example.org"), "box");
    assert_eq!(short_name("box"), "box");
    assert_eq!(short_name(".x"), "");
    assert_eq!(short_name(""), "");
    let full = gethostname::gethostname().to_string_lossy().into_owned();
    assert_eq!(hostname_short(), full.split('.').next().unwrap());
}

#[test]
fn log_lines_start_with_the_moment() {
    assert_eq!(log_line_at("T", "done"), "T done");
    let line = log_line("ERROR: x y");
    assert_eq!(line.split_once(' ').unwrap().1, "ERROR: x y");
}
