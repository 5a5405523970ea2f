use gitwatch::git::{git, git_ok, is_git_worktree, GitOut, GitReply, RawOut};
use gitwatch::inspect::{status_of, StatusStep};
use gitwatch::porcelain::parse_porcelain_v2;
use gitwatch::status::RepoStatus;

fn fresh() -> RepoStatus {
    RepoStatus {
        name: "api".to_string(),
        path: "/dev/api".to_string(),
        branch: None,
        detached: false,
        has_upstream: false,
        ahead: 0,
        behind: 0,
        staged: 0,
        unstaged: 0,
        untracked: 0,
        conflicts: 0,
        dirty: false,
        fetch_error: false,
        error: None,
    }
}

fn said(ok: bool, stdout: &str, stderr: &str) -> GitReply {
    Ok(GitOut { ok, stdout: stdout.to_string(), stderr: stderr.to_string() })
}

fn done(step: StatusStep) -> RepoStatus {
    match step {
        StatusStep::Done(st) => st,
        StatusStep::Run(args) => panic!("still asks for {args:?}"),
    }
}

fn asked(step: StatusStep) -> Vec<String> {
    match step {
        StatusStep::Run(args) => args,
        StatusStep::Done(_) => panic!("already done"),
    }
}

const REPORT: &str = "# branch.oid 1234\n\
# branch.head main\n\
# branch.upstream origin/main\n\
# branch.ab +3 -2\n\
1 M. N... 100644 100644 100644 a b staged.txt\n\
1 .M N... 100644 100644 100644 a b changed.txt\n\
1 MM N... 100644 100644 100644 a b both.txt\n\
2 R. N... 100644 100644 100644 a b R100 new.txt\told.txt\n\
u UU N... 100644 100644 100644 100644 a b c conflict.txt\n\
? new file.txt\n\
? other.txt\n\
! ignored.txt\n";

#[test]
fn a_report_is_read() {
    let mut st = fresh();
    parse_porcelain_v2(REPORT, &mut st);
    assert_eq!(st.branch.as_deref(), Some("main"));
    assert!(!st.detached);
    assert!(st.has_upstream);
    assert_eq!((st.ahead, st.behind), (3, 2));
    assert_eq!((st.staged, st.unstaged, st.untracked, st.conflicts), (3, 2, 2, 1));
    assert_eq!(st.name, "api");
    assert!(st.error.is_none() && !st.dirty);
}

#[test]
fn a_detached_head_has_no_branch() {
    let mut st = fresh();
    st.branch = Some("old".to_string());
    parse_porcelain_v2("# branch.head (detached)\n", &mut st);
    assert!(st.detached);
    assert!(st.branch.is_none());
    assert!(!st.no_upstream());
}

#[test]
fn odd_headers_are_tolerated() {
    let mut st = fresh();
    st.ahead = 9;
    parse_porcelain_v2("# branch.head   topic \r\n# branch.ab +x -4 junk\n1\n1 \n2 A\n", &mut st);
    assert_eq!(st.branch.as_deref(), Some("topic"));
    assert_eq!((st.ahead, st.behind), (0, 4));
    assert_eq!((st.staged, st.unstaged), (1, 0));
    assert!(st.no_upstream());
}

#[test]
fn counts_add_to_those_before() {
    let mut st = fresh();
    parse_porcelain_v2("? a\n", &mut st);
    parse_porcelain_v2("? b\n? c\n", &mut st);
    assert_eq!(st.untracked, 3);
}

#[test]
fn a_report_can_be_read_part_by_part() {
    for (at, _) in REPORT.match_indices('\n') {
        let (first, later) = REPORT.split_at(at + 1);
        let mut st = fresh();
        parse_porcelain_v2(first, &mut st);
        parse_porcelain_v2(later, &mut st);
        assert_eq!(st.branch.as_deref(), Some("main"));
        assert!(st.has_upstream);
        assert_eq!((st.ahead, st.behind), (3, 2));
        assert_eq!((st.staged, st.unstaged, st.untracked, st.conflicts), (3, 2, 2, 1));
    }
}

#[test]
fn the_glyph_shows_the_most_pressing_state() {
    let mut st = fresh();
    assert_eq!(st.glyph(), "\u{2713}");
    assert!(st.is_clean_synced());
    st.dirty = true;
    assert_eq!(st.glyph(), "\u{25cf}");
    assert!(!st.is_clean_synced());
    st.ahead = 1;
    assert_eq!(st.glyph(), "\u{2191}");
    st.ahead = 0;
    st.behind = 1;
    assert_eq!(st.glyph(), "\u{2193}");
    st.ahead = 1;
    assert_eq!(st.glyph(), "\u{21c5}");
    st.branch = Some("main".to_string());
    assert_eq!(st.glyph(), "\u{21e1}");
    st.conflicts = 1;
    assert_eq!(st.glyph(), "\u{26a0}");
    st.error = Some("gone".to_string());
    assert_eq!(st.glyph(), "?");
}

#[test]
fn each_single_flaw_is_not_clean() {
    let flaws: Vec<fn(&mut RepoStatus)> = vec![
        |st| st.error = Some("e".to_string()),
        |st| st.dirty = true,
        |st| st.conflicts = 1,
        |st| st.ahead = 1,
        |st| st.behind = 1,
        |st| st.branch = Some("main".to_string()),
    ];
    for flaw in flaws {
        let mut st = fresh();
        flaw(&mut st);
        assert!(!st.is_clean_synced());
    }
    let mut st = fresh();
    st.branch = Some("main".to_string());
    st.has_upstream = true;
    assert!(st.is_clean_synced());
}

#[test]
fn replies_of_git_are_judged() {
    assert_eq!(git_ok(&said(true, " /x/.git\n", "")), Some("/x/.git".to_string()));
    assert_eq!(git_ok(&said(false, "x", "")), None);
    assert_eq!(git_ok(&Err("no git".to_string())), None);
    assert!(is_git_worktree(&said(true, "true\n", "")));
    assert!(!is_git_worktree(&said(true, "false\n", "")));
    assert!(!is_git_worktree(&said(false, "true\n", "")));
    assert!(!is_git_worktree(&Err("no git".to_string())));
}

#[test]
fn output_becomes_text() {
    let raw = RawOut { ok: true, stdout: "é\n".as_bytes().to_vec(), stderr: vec![0x61, 0xff, 0x62] };
    let out = git(Ok(raw)).ok().unwrap();
    assert!(out.ok);
    assert_eq!(out.stdout, "é\n");
    assert_eq!(out.stderr, "a\u{fffd}b");
    assert_eq!(git(Err("not found".to_string())).err(), Some("not found".to_string()));
}

#[test]
fn a_status_without_fetch_takes_two_commands() {
    let mut replies: Vec<GitReply> = Vec::new();
    let first = asked(status_of("api", "/dev/api", false, &replies));
    assert_eq!(first, vec!["rev-parse", "--is-inside-work-tree"]);
    replies.push(said(true, "true\n", ""));
    let second = asked(status_of("api", "/dev/api", false, &replies));
    assert_eq!(second, vec!["status", "--porcelain=v2", "--branch"]);
    replies.push(said(true, REPORT, ""));
    let st = done(status_of("api", "/dev/api", false, &replies));
    assert_eq!((st.name.as_str(), st.path.as_str()), ("api", "/dev/api"));
    assert!(st.dirty && st.error.is_none() && !st.fetch_error);
    assert_eq!(st.conflicts, 1);
}

#[test]
fn a_failed_fetch_keeps_the_local_status() {
    let mut replies: Vec<GitReply> = vec![said(true, "true\n", "")];
    let second = asked(status_of("api", "/dev/api", true, &replies));
    assert_eq!(second, vec!["fetch", "--quiet", "--all", "--prune"]);
    replies.push(said(false, "", "no route"));
    assert_eq!(asked(status_of("api", "/dev/api", true, &replies))[0], "status");
    replies.push(said(true, REPORT, ""));
    let st = done(status_of("api", "/dev/api", true, &replies));
    assert!(st.fetch_error);
    assert_eq!(st.error.as_deref(), Some("remote unreachable (fetch failed)"));
    assert_eq!((st.ahead, st.behind), (3, 2));

    replies[1] = said(true, "", "");
    let st = done(status_of("api", "/dev/api", true, &replies));
    assert!(!st.fetch_error && st.error.is_none());
    replies[1] = Err("no git".to_string());
    assert!(done(status_of("api", "/dev/api", true, &replies)).fetch_error);
}

#[test]
fn what_is_no_repository_is_reported_so() {
    let replies: Vec<GitReply> = vec![said(true, "false\n", "")];
    let st = done(status_of("x", "/x", true, &replies));
    assert_eq!(st.error.as_deref(), Some("not a git repository"));
    assert!(!st.dirty);
}

#[test]
fn a_failed_status_is_reported() {
    let failed: Vec<GitReply> = vec![said(true, "true", ""), said(false, "? a\n", " fatal: bad\n")];
    let st = done(status_of("x", "/x", false, &failed));
    assert_eq!(st.error.as_deref(), Some("git status failed: fatal: bad"));
    assert_eq!(st.untracked, 0);
    let lost: Vec<GitReply> = vec![said(true, "true", ""), Err("gone".to_string())];
    let st = done(status_of("x", "/x", false, &lost));
    assert_eq!(st.error.as_deref(), Some("git status error: gone"));
}

#[test]
fn a_clean_report_is_not_dirty() {
    let report = "# branch.head main\n# branch.upstream origin/main\n# branch.ab +0 -0\n! x\n";
    let replies: Vec<GitReply> = vec![said(true, "true", ""), said(true, report, "")];
    let st = done(status_of("x", "/x", false, &replies));
    assert!(!st.dirty);
    assert!(st.is_clean_synced());
}
