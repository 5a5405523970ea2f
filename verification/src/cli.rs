//! The command line.

use crate::status::opt_text;
use crate::text::{
    chars_of, decimal, decimal_reads_back, has_prefix, number, parse_number, part_string, same_text,
    strings,
};
use vstd::prelude::*;

verus! {

/// The help text.
pub const USAGE: &'static str = "\
gitwatch — monitor a directory of git repos and auto-sync them

USAGE:
    gitwatch <COMMAND> [ARGS]

COMMANDS:
    waybar_status <dir> [-j N] [--no-fetch]
        Fetch every repo under <dir> (in parallel) and print a single JSON line
        for a Waybar custom module (fields: text, tooltip, class).

    rofi_list <dir> [-j N] [--fetch]
        Print one \"<icon> <name>\" line per repo (dirty first, then clean).
        Does NOT fetch by default (fast local check); pass --fetch to fetch.

    sync <repo>
        Commit all changes, fetch, rebase onto origin/<branch> and push.
        On conflict: abort, move local work to a sync/conflit-* branch, push it,
        and reset <branch> to the upstream. Exit codes: 0 ok, 2 conflict, 1 error.

OPTIONS:
    -j N        max concurrent git processes for scans (default 16)
    --no-fetch  skip fetching (waybar_status)
    --fetch     force fetching (rofi_list)
    -h, --help  show this help
    --version   show version
";

/// The version of the package.
pub const VERSION: &'static str = "0.1.0";

/// How many `git` processes run at once unless the user says otherwise.
pub const DEFAULT_JOBS: usize = 16;

/// What a command line asks for.
pub enum Action {
    /// Print these texts, to the standard output and to the standard error, and
    /// exit with this code.
    Say { out: String, err: String, code: i32 },
    /// Report on the repositories under a directory to Waybar.
    WaybarStatus { dir: String, jobs: usize, fetch: bool },
    /// List the repositories under a directory for rofi.
    RofiList { dir: String, jobs: usize, fetch: bool },
    /// Synchronise a repository.
    Sync { repo: String },
}

/// The mathematical counterpart of [`Action`].
#[verifier::ext_equal]
pub enum ActionView {
    Say { out: Seq<char>, err: Seq<char>, code: int },
    WaybarStatus { dir: Seq<char>, jobs: nat, fetch: bool },
    RofiList { dir: Seq<char>, jobs: nat, fetch: bool },
    Sync { repo: Seq<char> },
}

impl View for Action {
    type V = ActionView;

    open spec fn view(&self) -> ActionView {
        match self {
            Action::Say { out, err, code } => ActionView::Say {
                out: out@,
                err: err@,
                code: *code as int,
            },
            Action::WaybarStatus { dir, jobs, fetch } => ActionView::WaybarStatus {
                dir: dir@,
                jobs: *jobs as nat,
                fetch: *fetch,
            },
            Action::RofiList { dir, jobs, fetch } => ActionView::RofiList {
                dir: dir@,
                jobs: *jobs as nat,
                fetch: *fetch,
            },
            Action::Sync { repo } => ActionView::Sync { repo: repo@ },
        }
    }
}

// ---------------------------------------------------------------------------
// Specification
// ---------------------------------------------------------------------------

/// Print to the standard output and exit successfully.
pub open spec fn tell(out: Seq<char>) -> ActionView {
    ActionView::Say { out, err: seq![], code: 0 }
}

/// Print to the standard error and exit with code 2.
pub open spec fn complain(err: Seq<char>) -> ActionView {
    ActionView::Say { out: seq![], err, code: 2 }
}

/// The options and arguments read so far.
#[verifier::ext_equal]
pub struct OptionsView {
    pub positional: Seq<Seq<char>>,
    pub jobs: nat,
    pub fetch: Option<bool>,
}

/// The options when nothing has been read.
pub open spec fn no_options() -> OptionsView {
    OptionsView { positional: seq![], jobs: DEFAULT_JOBS as nat, fetch: None }
}

/// The argument starts with a dash.
pub open spec fn is_dashed(a: Seq<char>) -> bool {
    a.len() > 0 && a[0] == '-'
}

/// What the arguments behind the command add to the options: the options, or
/// what to do instead of the command.
pub open spec fn read_options(opts: OptionsView, rest: Seq<Seq<char>>) -> Result<
    OptionsView,
    ActionView,
>
    decreases rest.len(),
{
    if rest.len() == 0 {
        Ok(opts)
    } else {
        let a = rest[0];
        if a == "-j"@ || a == "--jobs"@ {
            if rest.len() < 2 {
                Err(complain("-j requires a number\n"@))
            } else {
                match number(rest[1]) {
                    Some(n) => read_options(OptionsView { jobs: n, ..opts }, rest.skip(2)),
                    None => Err(complain("invalid -j value: "@ + rest[1] + "\n"@)),
                }
            }
        } else if a == "--no-fetch"@ {
            read_options(OptionsView { fetch: Some(false), ..opts }, rest.skip(1))
        } else if a == "--fetch"@ {
            read_options(OptionsView { fetch: Some(true), ..opts }, rest.skip(1))
        } else if a == "-h"@ || a == "--help"@ {
            Err(tell(USAGE@))
        } else if is_dashed(a) {
            Err(complain("unknown option: "@ + a + "\n"@))
        } else {
            read_options(
                OptionsView { positional: opts.positional.push(a), ..opts },
                rest.skip(1),
            )
        }
    }
}

/// Whether to fetch: as the user says, or else by default.
pub open spec fn fetch_or(opts: OptionsView, default: bool) -> bool {
    match opts.fetch {
        Some(b) => b,
        None => default,
    }
}

/// The complaint about a missing argument.
pub open spec fn missing_argument(usage: Seq<char>) -> Seq<char> {
    "missing argument\nusage: gitwatch "@ + usage + "\n"@
}

/// What a command with these options asks for.
pub open spec fn dispatched(command: Seq<char>, opts: OptionsView) -> ActionView {
    if command == "waybar_status"@ {
        if opts.positional.len() == 0 {
            complain(missing_argument("waybar_status <dir>"@))
        } else {
            ActionView::WaybarStatus {
                dir: opts.positional[0],
                jobs: opts.jobs,
                fetch: fetch_or(opts, true),
            }
        }
    } else if command == "rofi_list"@ {
        if opts.positional.len() == 0 {
            complain(missing_argument("rofi_list <dir>"@))
        } else {
            ActionView::RofiList {
                dir: opts.positional[0],
                jobs: opts.jobs,
                fetch: fetch_or(opts, false),
            }
        }
    } else if command == "sync"@ {
        if opts.positional.len() == 0 {
            complain(missing_argument("sync <repo>"@))
        } else {
            ActionView::Sync { repo: opts.positional[0] }
        }
    } else {
        complain("unknown command: "@ + command + "\n\n"@ + USAGE@)
    }
}

/// What a command line asks for.
pub open spec fn asked_for(args: Seq<Seq<char>>) -> ActionView {
    if args.len() == 0 {
        complain(USAGE@)
    } else if args[0] == "-h"@ || args[0] == "--help"@ || args[0] == "help"@ {
        tell(USAGE@)
    } else if args[0] == "--version"@ {
        tell("gitwatch "@ + VERSION@ + "\n"@)
    } else {
        match read_options(no_options(), args.skip(1)) {
            Ok(opts) => dispatched(args[0], opts),
            Err(action) => action,
        }
    }
}

// ---------------------------------------------------------------------------
// Executable version
// ---------------------------------------------------------------------------

/// The options and arguments behind the command.
struct Options {
    positional: Vec<String>,
    jobs: usize,
    fetch: Option<bool>,
}

impl View for Options {
    type V = OptionsView;

    closed spec fn view(&self) -> OptionsView {
        OptionsView {
            positional: strings(self.positional@),
            jobs: self.jobs as nat,
            fetch: self.fetch,
        }
    }
}

/// Print to the standard output and exit successfully.
fn say(out: String) -> (r: Action)
    ensures
        r@ == tell(out@),
{
    Action::Say { out, err: String::new(), code: 0 }
}

/// Print to the standard error and exit with code 2.
fn refuse(err: String) -> (r: Action)
    ensures
        r@ == complain(err@),
{
    Action::Say { out: String::new(), err, code: 2 }
}

/// Whether `a` is one of two spellings.
fn either(a: &str, x: &str, y: &str) -> (r: bool)
    ensures
        r == (a@ == x@ || a@ == y@),
{
    same_text(a, x) || same_text(a, y)
}

/// Reads the arguments from `from` on.
fn parse_options(args: &Vec<String>, from: usize) -> (r: Result<Options, Action>)
    requires
        from <= args@.len(),
    ensures
        match (r, read_options(no_options(), strings(args@).skip(from as int))) {
            (Ok(opts), Ok(view)) => opts@ == view,
            (Err(action), Err(view)) => action@ == view,
            _ => false,
        },
{
    let ghost all = strings(args@);
    let ghost goal = read_options(no_options(), all.skip(from as int));
    let mut opts = Options { positional: Vec::new(), jobs: DEFAULT_JOBS, fetch: None };
    let mut i: usize = from;
    proof {
        assert(opts@ == no_options());
    }
    while i < args.len()
        invariant
            from <= i <= args@.len(),
            all == strings(args@),
            goal == read_options(no_options(), all.skip(from as int)),
            read_options(opts@, all.skip(i as int)) == goal,
        decreases args@.len() - i,
    {
        let a = args[i].as_str();
        let ghost rest = all.skip(i as int);
        proof {
            assert(rest[0] == a@);
            assert(rest.skip(1) == all.skip(i + 1));
        }
        if either(a, "-j", "--jobs") {
            if i + 1 >= args.len() {
                return Err(refuse("-j requires a number\n".to_owned()));
            }
            let v = args[i + 1].as_str();
            proof {
                assert(rest[1] == v@);
                assert(rest.skip(2) == all.skip(i + 2));
            }
            match parse_number(&chars_of(v)) {
                Some(n) => {
                    opts.jobs = n;
                },
                None => {
                    return Err(refuse("invalid -j value: ".to_owned().concat(v).concat("\n")));
                },
            }
            i = i + 2;
        } else {
            if same_text(a, "--no-fetch") {
                opts.fetch = Some(false);
            } else if same_text(a, "--fetch") {
                opts.fetch = Some(true);
            } else if either(a, "-h", "--help") {
                return Err(say(USAGE.to_owned()));
            } else {
                let cs = chars_of(a);
                if cs.len() > 0 && cs[0] == '-' {
                    return Err(refuse("unknown option: ".to_owned().concat(a).concat("\n")));
                }
                let ghost before = opts.positional@;
                opts.positional.push(a.to_owned());
                proof {
                    assert(strings(opts.positional@) == strings(before).push(a@));
                }
            }
            i = i + 1;
        }
    }
    Ok(opts)
}

/// The first argument, or the complaint that there is none.
pub fn require_positional(positional: &Vec<String>, usage: &str) -> (r: Result<String, String>)
    ensures
        match r {
            Ok(p) => positional@.len() > 0 && p@ == positional@[0]@,
            Err(e) => positional@.len() == 0 && e@ == missing_argument(usage@),
        },
{
    if positional.len() > 0 {
        Ok(positional[0].clone())
    } else {
        Err("missing argument\nusage: gitwatch ".to_owned().concat(usage).concat("\n"))
    }
}

/// What a command with these options asks for.
fn dispatch(command: &str, opts: &Options) -> (r: Action)
    ensures
        r@ == dispatched(command@, opts@),
{
    if same_text(command, "waybar_status") {
        match require_positional(&opts.positional, "waybar_status <dir>") {
            Ok(dir) => {
                // status fetches by default
                let fetch = match opts.fetch {
                    Some(b) => b,
                    None => true,
                };
                Action::WaybarStatus { dir, jobs: opts.jobs, fetch }
            },
            Err(e) => refuse(e),
        }
    } else if same_text(command, "rofi_list") {
        match require_positional(&opts.positional, "rofi_list <dir>") {
            Ok(dir) => {
                // list is local/fast by default
                let fetch = match opts.fetch {
                    Some(b) => b,
                    None => false,
                };
                Action::RofiList { dir, jobs: opts.jobs, fetch }
            },
            Err(e) => refuse(e),
        }
    } else if same_text(command, "sync") {
        match require_positional(&opts.positional, "sync <repo>") {
            Ok(repo) => Action::Sync { repo },
            Err(e) => refuse(e),
        }
    } else {
        refuse("unknown command: ".to_owned().concat(command).concat("\n\n").concat(USAGE))
    }
}

/// What a command line (without the name of the program) asks for.
pub fn parse_args(args: &Vec<String>) -> (r: Action)
    ensures
        r@ == asked_for(strings(args@)),
{
    if args.len() == 0 {
        return refuse(USAGE.to_owned());
    }
    let command = args[0].as_str();
    proof {
        assert(strings(args@)[0] == command@);
    }
    if either(command, "-h", "--help") || same_text(command, "help") {
        return say(USAGE.to_owned());
    }
    if same_text(command, "--version") {
        return say("gitwatch ".to_owned().concat(VERSION).concat("\n"));
    }
    match parse_options(args, 1) {
        Ok(opts) => dispatch(command, &opts),
        Err(action) => action,
    }
}

/// Where a path given by the user leads.
pub enum Location {
    /// To this path below this home directory.
    Below { home: String, rest: String },
    /// To the path as given.
    AsGiven(String),
}

/// The mathematical counterpart of [`Location`].
#[verifier::ext_equal]
pub enum LocationView {
    Below { home: Seq<char>, rest: Seq<char> },
    AsGiven(Seq<char>),
}

impl View for Location {
    type V = LocationView;

    open spec fn view(&self) -> LocationView {
        match self {
            Location::Below { home, rest } => LocationView::Below { home: home@, rest: rest@ },
            Location::AsGiven(path) => LocationView::AsGiven(path@),
        }
    }
}

/// Where a path leads, given the home directory.
pub open spec fn expanded(path: Seq<char>, home: Option<Seq<char>>) -> LocationView {
    match home {
        Some(h) => if "~/"@.is_prefix_of(path) {
            LocationView::Below { home: h, rest: path.skip(2) }
        } else {
            LocationView::AsGiven(path)
        },
        None => LocationView::AsGiven(path),
    }
}

/// A path that starts with `~/` leads below the home directory, where that is
/// known; any other is taken as given.
pub fn expand_path(s: &str, home: Option<String>) -> (r: Location)
    ensures
        match r {
            Location::Below { home: h, rest } => {
                &&& "~/"@.is_prefix_of(s@)
                &&& home == Some(h)
                &&& s@ == "~/"@ + rest@
            },
            Location::AsGiven(p) => (!"~/"@.is_prefix_of(s@) || home is None) && p@ == s@,
        },
        r@ == expanded(s@, opt_text(home)),
{
    proof {
        reveal_strlit("~/");
    }
    let cs = chars_of(s);
    if has_prefix(&cs, "~/") {
        if let Some(h) = home {
            let n = "~/".unicode_len();
            let rest = part_string(&cs, n, cs.len());
            proof {
                assert(s@ == "~/"@ + rest@);
            }
            return Location::Below { home: h, rest };
        }
    }
    Location::AsGiven(s.to_owned())
}

// ---------------------------------------------------------------------------
// Laws
// ---------------------------------------------------------------------------

/// Options are dashed, commands are not.
proof fn lemma_dashes()
    ensures
        is_dashed("-j"@) && is_dashed("--jobs"@),
        is_dashed("--no-fetch"@) && is_dashed("--fetch"@),
        is_dashed("-h"@) && is_dashed("--help"@) && is_dashed("--version"@),
        !is_dashed("waybar_status"@) && !is_dashed("rofi_list"@) && !is_dashed("sync"@),
{
    reveal_strlit("-j");
    reveal_strlit("--jobs");
    reveal_strlit("--no-fetch");
    reveal_strlit("--fetch");
    reveal_strlit("-h");
    reveal_strlit("--help");
    reveal_strlit("--version");
    reveal_strlit("waybar_status");
    reveal_strlit("rofi_list");
    reveal_strlit("sync");
}

/// The spellings of the options and commands differ.
proof fn lemma_spellings()
    ensures
        "--fetch"@ != "-j"@ && "--fetch"@ != "--jobs"@ && "--fetch"@ != "--no-fetch"@,
        "--no-fetch"@ != "-j"@ && "--no-fetch"@ != "--jobs"@,
        "waybar_status"@ != "help"@ && "rofi_list"@ != "help"@ && "sync"@ != "help"@,
        "waybar_status"@ != "rofi_list"@,
        "sync"@ != "rofi_list"@ && "sync"@ != "waybar_status"@,
{
    reveal_strlit("-j");
    reveal_strlit("--jobs");
    reveal_strlit("--no-fetch");
    reveal_strlit("--fetch");
    reveal_strlit("help");
    reveal_strlit("waybar_status");
    reveal_strlit("rofi_list");
    reveal_strlit("sync");
    assert("sync"@[0] != "help"@[0]);
    assert("-j"@.len() == 2 && "--jobs"@.len() == 6 && "--fetch"@.len() == 7);
    assert("--no-fetch"@.len() == 10);
    assert("waybar_status"@.len() == 13 && "rofi_list"@.len() == 9);
}

/// Arguments are read from first to last: what comes first makes the options
/// that what comes later adds to.
pub proof fn options_are_read_in_turn(
    opts: OptionsView,
    first: Seq<Seq<char>>,
    later: Seq<Seq<char>>,
)
    requires
        read_options(opts, first) is Ok,
    ensures
        read_options(opts, first + later) == read_options(
            read_options(opts, first)->Ok_0,
            later,
        ),
    decreases first.len(),
{
    if first.len() == 0 {
        assert(first + later == later);
    } else {
        let all = first + later;
        let a = first[0];
        assert(all[0] == a);
        assert(all.skip(1) == first.skip(1) + later);
        if a == "-j"@ || a == "--jobs"@ {
            assert(all[1] == first[1]);
            assert(all.skip(2) == first.skip(2) + later);
            let n = number(first[1])->Some_0;
            options_are_read_in_turn(OptionsView { jobs: n, ..opts }, first.skip(2), later);
        } else if a == "--no-fetch"@ {
            options_are_read_in_turn(
                OptionsView { fetch: Some(false), ..opts },
                first.skip(1),
                later,
            );
        } else if a == "--fetch"@ {
            options_are_read_in_turn(
                OptionsView { fetch: Some(true), ..opts },
                first.skip(1),
                later,
            );
        } else {
            options_are_read_in_turn(
                OptionsView { positional: opts.positional.push(a), ..opts },
                first.skip(1),
                later,
            );
        }
    }
}

/// An option at the end has the last word: on fetching, and on the number of
/// processes, whatever came before and for every number that can be held.
pub proof fn last_option_wins(opts: OptionsView, first: Seq<Seq<char>>, n: nat)
    requires
        read_options(opts, first) is Ok,
        n <= usize::MAX,
    ensures
        ({
            let before = read_options(opts, first)->Ok_0;
            &&& read_options(opts, first + seq!["--fetch"@]) == Ok::<OptionsView, ActionView>(
                OptionsView { fetch: Some(true), ..before },
            )
            &&& read_options(opts, first + seq!["--no-fetch"@]) == Ok::<OptionsView, ActionView>(
                OptionsView { fetch: Some(false), ..before },
            )
            &&& read_options(opts, first + seq!["-j"@, decimal(n)]) == Ok::<OptionsView, ActionView>(
                OptionsView { jobs: n, ..before },
            )
        }),
{
    let before = read_options(opts, first)->Ok_0;
    lemma_spellings();
    decimal_reads_back(n);
    reveal_with_fuel(read_options, 2);
    let yes = seq!["--fetch"@];
    let no = seq!["--no-fetch"@];
    let jobs = seq!["-j"@, decimal(n)];
    options_are_read_in_turn(opts, first, yes);
    options_are_read_in_turn(opts, first, no);
    options_are_read_in_turn(opts, first, jobs);
    assert(yes.skip(1) == Seq::<Seq<char>>::empty());
    assert(no.skip(1) == Seq::<Seq<char>>::empty());
    assert(jobs.skip(2) == Seq::<Seq<char>>::empty());
    assert(read_options(before, jobs) == read_options(
        OptionsView { jobs: n, ..before },
        jobs.skip(2),
    ));
}

/// With nothing but a path, the report fetches and the list does not, both with
/// at most sixteen processes at once; a synchronisation takes the path.
pub proof fn defaults(path: Seq<char>)
    requires
        !is_dashed(path),
    ensures
        asked_for(seq!["waybar_status"@, path]) == (ActionView::WaybarStatus {
            dir: path,
            jobs: 16,
            fetch: true,
        }),
        asked_for(seq!["rofi_list"@, path]) == (ActionView::RofiList {
            dir: path,
            jobs: 16,
            fetch: false,
        }),
        asked_for(seq!["sync"@, path]) == (ActionView::Sync { repo: path }),
{
    lemma_dashes();
    lemma_spellings();
    reveal_with_fuel(read_options, 2);
    let rest = seq![path];
    assert(seq!["waybar_status"@, path].skip(1) == rest);
    assert(seq!["rofi_list"@, path].skip(1) == rest);
    assert(seq!["sync"@, path].skip(1) == rest);
    assert(rest.skip(1) == Seq::<Seq<char>>::empty());
    assert(no_options().positional.push(path)[0] == path);
}

/// A text on the standard output with exit code 0, or on the standard error
/// with exit code 2.
pub open spec fn is_answer(action: ActionView) -> bool {
    action matches ActionView::Say { out, err, code } && ((code == 0 && err.len() == 0) || (code == 2
        && out.len() == 0))
}

/// A command line that is answered with a text alone is answered with exit code
/// 0 on the standard output, or with exit code 2 on the standard error.
pub proof fn texts_alone_exit_with_0_or_2(args: Seq<Seq<char>>)
    ensures
        asked_for(args) is Say ==> is_answer(asked_for(args)),
{
    if args.len() > 0 {
        lemma_refusals(no_options(), args.skip(1));
    }
}

proof fn lemma_refusals(opts: OptionsView, rest: Seq<Seq<char>>)
    ensures
        read_options(opts, rest) matches Err(action) ==> is_answer(action),
    decreases rest.len(),
{
    if rest.len() > 0 {
        let a = rest[0];
        if a == "-j"@ || a == "--jobs"@ {
            if rest.len() >= 2 && number(rest[1]) is Some {
                let n = number(rest[1])->Some_0;
                lemma_refusals(OptionsView { jobs: n, ..opts }, rest.skip(2));
            }
        } else if a == "--no-fetch"@ {
            lemma_refusals(OptionsView { fetch: Some(false), ..opts }, rest.skip(1));
        } else if a == "--fetch"@ {
            lemma_refusals(OptionsView { fetch: Some(true), ..opts }, rest.skip(1));
        } else if a != "-h"@ && a != "--help"@ && !is_dashed(a) {
            lemma_refusals(
                OptionsView { positional: opts.positional.push(a), ..opts },
                rest.skip(1),
            );
        }
    }
}

} // verus!
