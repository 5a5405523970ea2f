use gitwatch::order::{less_bytes, sorted_places, SortKey};
use gitwatch::pool::{worker_count, Pool};
use gitwatch::rofi::{cmd_rofi_list, entry_text, list_entries};
use gitwatch::scan::{scan_repos, Entry};
use gitwatch::status::{Condition, RepoStatus};
use gitwatch::waybar::{
    class_text, cmd_waybar_status, count_of, detail_text, row_text, summary_text, tooltip_text,
};

fn synced(name: &str) -> RepoStatus {
    RepoStatus {
        name: name.to_string(),
        path: format!("/dev/{name}"),
        branch: Some("main".to_string()),
        detached: false,
        has_upstream: true,
        ahead: 0,
        behind: 0,
        staged: 0,
        unstaged: 0,
        untracked: 0,
        conflicts: 0,
        dirty: false,
        fetch_error: false,
        error: None,
    }
}

fn ahead(name: &str, n: usize) -> RepoStatus {
    RepoStatus { ahead: n, ..synced(name) }
}

fn dirty(name: &str, n: usize) -> RepoStatus {
    RepoStatus { unstaged: n, dirty: true, ..synced(name) }
}

#[test]
fn the_summary_shows_groups_with_members_only() {
    let all = vec![
        ahead("a", 3),
        ahead("b", 1),
        RepoStatus { behind: 5, ..synced("c") },
        RepoStatus { ahead: 1, behind: 1, ..synced("d") },
        dirty("e", 2),
        RepoStatus { has_upstream: false, ..synced("f") },
        RepoStatus { conflicts: 1, dirty: true, ..synced("g") },
        RepoStatus { error: Some("gone".to_string()), ..synced("h") },
        synced("i"),
    ];
    assert_eq!(
        summary_text(&all),
        "\u{e0a0} 9 \u{2191}2 \u{2193}1 \u{21c5}1 \u{25cf}2 \u{21e1}1 \u{26a0}1 ?1"
    );
    assert_eq!(count_of(&all, Condition::Dirty), 2);
    assert_eq!(count_of(&all, Condition::Clean), 9);
    assert_eq!(class_text(&all), "error");
    assert_eq!(summary_text(&vec![synced("i")]), "\u{e0a0} 1");
    assert_eq!(summary_text(&Vec::new()), "\u{e0a0} 0");
}

#[test]
fn the_class_follows_the_priority() {
    let mut all = vec![synced("z")];
    let steps: Vec<(RepoStatus, &str)> = vec![
        (dirty("a", 1), "dirty"),
        (ahead("b", 1), "ahead"),
        (RepoStatus { behind: 1, ..synced("c") }, "behind"),
        (RepoStatus { ahead: 1, behind: 1, ..synced("d") }, "diverged"),
        (RepoStatus { has_upstream: false, ..synced("e") }, "unpublished"),
        (RepoStatus { conflicts: 1, ..synced("f") }, "conflict"),
        (RepoStatus { error: Some("x".to_string()), ..synced("g") }, "error"),
    ];
    assert_eq!(class_text(&all), "clean");
    assert_eq!(class_text(&Vec::new()), "clean");
    for (st, class) in steps {
        all.insert(0, st);
        assert_eq!(class_text(&all), class);
    }
}

#[test]
fn details_are_listed_in_turn() {
    let st = RepoStatus {
        ahead: 1,
        behind: 2,
        staged: 3,
        unstaged: 4,
        untracked: 5,
        conflicts: 6,
        has_upstream: false,
        dirty: true,
        error: Some("gone".to_string()),
        ..synced("x")
    };
    assert_eq!(
        detail_text(&st),
        "\u{2191}1 \u{2193}2 \u{25cf}12 \u{26a0}6 \u{21e1}unpushed (gone)"
    );
    assert_eq!(detail_text(&synced("x")), "\u{2713}");
}

#[test]
fn a_row_shows_glyph_name_branch_and_detail() {
    assert_eq!(row_text(&ahead("api", 3)), format!("\u{2191} {:<24} main  \u{2191}3", "api"));
    let st = RepoStatus { branch: None, detached: true, ..synced("x") };
    assert_eq!(row_text(&st), format!("\u{2713} {:<24} (detached)  \u{2713}", "x"));
    let st = RepoStatus { branch: None, error: Some("not a git repository".to_string()), ..synced("y") };
    assert_eq!(row_text(&st), format!("? {:<24} ?  (not a git repository)", "y"));
}

#[test]
fn the_tooltip_has_problems_first_then_names_in_order() {
    let all = vec![synced("Beta"), ahead("zeta", 1), synced("alpha"), dirty("Gamma", 2)];
    let (out, code) = cmd_waybar_status("/home/u/dev", &Ok(all));
    assert_eq!(code, 0);
    let lines: Vec<&str> = out.tooltip.split('\n').collect();
    assert_eq!(lines.len(), 5);
    assert_eq!(lines[0], "/home/u/dev \u{2014} 4 repos");
    assert!(lines[1].starts_with("\u{25cf} Gamma"));
    assert!(lines[2].starts_with("\u{2191} zeta"));
    assert!(lines[3].starts_with("\u{2713} alpha"));
    assert!(lines[4].starts_with("\u{2713} Beta"));
    assert_eq!(out.class, "ahead");
    assert_eq!(out.text, "\u{e0a0} 4 \u{2191}1 \u{25cf}1");
}

#[test]
fn the_tooltip_goes_by_the_keys_given() {
    let all = vec![synced("a"), synced("b")];
    let keys = vec!["2".to_string(), "1".to_string()];
    let tip = tooltip_text("d", &all, &keys);
    let lines: Vec<&str> = tip.split('\n').collect();
    assert!(lines[1].starts_with("\u{2713} b"));
    assert!(lines[2].starts_with("\u{2713} a"));
}

#[test]
fn a_directory_that_cannot_be_scanned_is_reported() {
    let (out, code) = cmd_waybar_status("/nowhere", &Err("No such file".to_string()));
    assert_eq!(code, 1);
    assert_eq!(out.text, "\u{e0a0} err");
    assert_eq!(out.tooltip, "cannot scan /nowhere: No such file");
    assert_eq!(out.class, "error");
    let list = cmd_rofi_list("/nowhere", &Err("No such file".to_string()));
    assert_eq!(list.code, 1);
    assert!(list.out.is_empty());
    assert_eq!(list.err, vec!["cannot scan /nowhere: No such file"]);
}

#[test]
fn the_list_has_dirty_first_then_clean() {
    let all = vec![synced("Beta"), dirty("zeta", 1), ahead("alpha", 1), dirty("Gamma", 2)];
    let list = cmd_rofi_list("/dev", &Ok(all));
    assert_eq!(list.code, 0);
    assert!(list.err.is_empty());
    assert_eq!(
        list.out,
        vec!["\u{25cf} Gamma", "\u{25cf} zeta", "\u{25cb} alpha", "\u{25cb} Beta"]
    );
}

#[test]
fn names_differ_in_case_only_keep_their_order() {
    let all = vec![synced("b"), synced("API"), synced("api")];
    let list = cmd_rofi_list("/dev", &Ok(all));
    assert_eq!(list.out, vec!["\u{25cb} API", "\u{25cb} api", "\u{25cb} b"]);
    let all = vec![synced("É"), synced("z"), synced("é")];
    let list = cmd_rofi_list("/dev", &Ok(all));
    assert_eq!(list.out, vec!["\u{25cb} z", "\u{25cb} É", "\u{25cb} é"]);
    let keyed = list_entries(&vec![synced("a"), synced("b")], &vec!["2".to_string(), "1".to_string()]);
    assert_eq!(keyed, vec!["\u{25cb} b", "\u{25cb} a"]);
}

#[test]
fn the_name_stands_behind_the_first_blank() {
    for name in ["api", "two words", " lead", ""] {
        let line = entry_text(&synced(name));
        let (_, rest) = line.split_once(' ').unwrap();
        assert_eq!(rest, name);
    }
}

fn entry(name: &str, is_dir: bool, has_git: bool) -> Result<Entry, String> {
    Ok(Entry { name: name.as_bytes().to_vec(), is_dir, has_git })
}

#[test]
fn a_scan_finds_repositories_in_order_of_name() {
    let listing = Ok(vec![
        entry("zeta", true, true),
        entry("plain", true, false),
        entry("Beta", true, true),
        entry("file", false, true),
        entry("alpha", true, true),
    ]);
    assert_eq!(scan_repos(&listing), Ok(vec![2, 4, 0]));
    assert_eq!(scan_repos(&Ok(Vec::new())), Ok(Vec::new()));
}

#[test]
fn a_scan_stops_at_the_first_error() {
    let listing = Ok(vec![entry("a", true, true), Err("one".to_string()), Err("two".to_string())]);
    assert_eq!(scan_repos(&listing), Err("one".to_string()));
    assert_eq!(scan_repos(&Err("denied".to_string())), Err("denied".to_string()));
}

#[test]
fn sorting_is_stable() {
    let key = |late: bool, text: &str| SortKey { late, text: text.as_bytes().to_vec() };
    let keys = vec![key(true, "a"), key(false, "b"), key(false, ""), key(false, "b"), key(false, "ab")];
    assert_eq!(sorted_places(&keys), vec![2, 4, 1, 3, 0]);
    assert!(less_bytes(&vec![1], &vec![1, 0]));
    assert!(!less_bytes(&vec![1, 0], &vec![1]));
    assert!(!less_bytes(&vec![2], &vec![2]));
    assert!(less_bytes(&vec![1, 9], &vec![2]));
}

#[test]
fn workers_are_capped() {
    assert_eq!(worker_count(0, 16), 0);
    assert_eq!(worker_count(5, 0), 1);
    assert_eq!(worker_count(5, 16), 5);
    assert_eq!(worker_count(40, 16), 16);
}

#[test]
fn results_come_out_in_the_order_of_the_items() {
    let mut pool: Pool<&str, usize> = Pool::new(vec!["a", "bbb", "cc"]);
    let first = pool.take().unwrap();
    let second = pool.take().unwrap();
    let third = pool.take().unwrap();
    assert!(pool.take().is_none());
    assert_eq!((first, second, third), ((0, "a"), (1, "bbb"), (2, "cc")));
    for (place, item) in [third, first, second] {
        pool.put(place, item.len());
    }
    assert_eq!(pool.finish(), vec![1, 3, 2]);
    let none: Pool<&str, usize> = Pool::new(Vec::new());
    assert!(none.finish().is_empty());
}
