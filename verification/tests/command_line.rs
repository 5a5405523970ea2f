use gitwatch::cli::{expand_path, parse_args, require_positional, Action, Location, USAGE};

fn parse(args: &[&str]) -> Action {
    parse_args(&args.iter().map(|a| a.to_string()).collect())
}

fn said(args: &[&str]) -> (String, String, i32) {
    match parse(args) {
        Action::Say { out, err, code } => (out, err, code),
        _ => panic!("{args:?} is a command"),
    }
}

fn waybar(args: &[&str]) -> (String, usize, bool) {
    match parse(args) {
        Action::WaybarStatus { dir, jobs, fetch } => (dir, jobs, fetch),
        _ => panic!("{args:?} is no report"),
    }
}

fn rofi(args: &[&str]) -> (String, usize, bool) {
    match parse(args) {
        Action::RofiList { dir, jobs, fetch } => (dir, jobs, fetch),
        _ => panic!("{args:?} is no list"),
    }
}

fn refused(text: &str) -> (String, String, i32) {
    (String::new(), text.to_string(), 2)
}

#[test]
fn help_and_version() {
    let help = (USAGE.to_string(), String::new(), 0);
    assert_eq!(said(&["-h"]), help);
    assert_eq!(said(&["--help"]), help);
    assert_eq!(said(&["help"]), help);
    assert_eq!(said(&["sync", "x", "--help", "--bogus"]), help);
    assert_eq!(said(&["nonsense", "-h"]), help);
    assert_eq!(said(&["--version"]), ("gitwatch 0.1.0\n".to_string(), String::new(), 0));
    assert_eq!(said(&[]), refused(USAGE));
    assert!(USAGE.starts_with("gitwatch \u{2014} monitor"));
    assert!(USAGE.ends_with("--version   show version\n"));
}

#[test]
fn commands_have_their_defaults() {
    assert_eq!(waybar(&["waybar_status", "~/dev"]), ("~/dev".to_string(), 16, true));
    assert_eq!(rofi(&["rofi_list", "~/dev"]), ("~/dev".to_string(), 16, false));
    match parse(&["sync", "repo"]) {
        Action::Sync { repo } => assert_eq!(repo, "repo"),
        _ => panic!("no synchronisation"),
    }
}

#[test]
fn the_last_option_wins() {
    assert_eq!(
        waybar(&["waybar_status", "--fetch", "-j", "4", "d", "--no-fetch", "--jobs", "8", "e"]),
        ("d".to_string(), 8, false)
    );
    assert_eq!(rofi(&["rofi_list", "-j", "+0", "d", "--no-fetch", "--fetch"]), ("d".to_string(), 0, true));
}

#[test]
fn bad_options_are_refused() {
    assert_eq!(said(&["sync", "x", "-j"]), refused("-j requires a number\n"));
    assert_eq!(said(&["sync", "-j", "x"]), refused("invalid -j value: x\n"));
    assert_eq!(said(&["sync", "-j", "-1"]), refused("invalid -j value: -1\n"));
    assert_eq!(said(&["sync", "-x"]), refused("unknown option: -x\n"));
    assert_eq!(said(&["nonsense", "-"]), refused("unknown option: -\n"));
}

#[test]
fn missing_arguments_and_unknown_commands_are_refused() {
    assert_eq!(
        said(&["waybar_status"]),
        refused("missing argument\nusage: gitwatch waybar_status <dir>\n")
    );
    assert_eq!(said(&["rofi_list", "--fetch"]), refused("missing argument\nusage: gitwatch rofi_list <dir>\n"));
    assert_eq!(said(&["sync"]), refused("missing argument\nusage: gitwatch sync <repo>\n"));
    assert_eq!(said(&["nonsense"]), refused(&format!("unknown command: nonsense\n\n{USAGE}")));
    assert_eq!(require_positional(&vec!["a".to_string(), "b".to_string()], "x"), Ok("a".to_string()));
}

#[test]
fn a_tilde_leads_home() {
    let home = || Some("/home/u".to_string());
    match expand_path("~/dev/x", home()) {
        Location::Below { home, rest } => assert_eq!((home.as_str(), rest.as_str()), ("/home/u", "dev/x")),
        Location::AsGiven(p) => panic!("{p}"),
    }
    for (path, home) in [("~/dev", None), ("~", home()), ("~user/x", home()), ("/a/~/b", home())] {
        match expand_path(path, home) {
            Location::AsGiven(p) => assert_eq!(p, path),
            Location::Below { rest, .. } => panic!("{rest}"),
        }
    }
}
