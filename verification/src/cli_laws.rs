//! What every command line asks for, told by its arguments.

use crate::cli::{
    asked_for, expanded, is_dashed, read_options, Action, ActionView, LocationView, OptionsView, USAGE,
};
use crate::text::number;
use vstd::prelude::*;

verus! {

/// The options differ from each other and from what is not dashed.
proof fn lemma_options_differ()
    ensures
        "-j"@.len() == 2 && "-h"@.len() == 2 && "--jobs"@.len() == 6 && "--help"@.len() == 6,
        "--fetch"@.len() == 7 && "--no-fetch"@.len() == 10 && "--version"@.len() == 9,
        "help"@.len() == 4 && "sync"@.len() == 4 && "rofi_list"@.len() == 9,
        "waybar_status"@.len() == 13,
        "-j"@[0] == '-' && "-h"@[0] == '-' && "--jobs"@[0] == '-' && "--help"@[0] == '-',
        "--fetch"@[0] == '-' && "--no-fetch"@[0] == '-' && "--version"@[0] == '-',
        "-j"@[1] == 'j' && "-h"@[1] == 'h',
        "--jobs"@[2] == 'j' && "--help"@[2] == 'h',
        "help"@[0] == 'h' && "sync"@[0] == 's' && "rofi_list"@[0] == 'r' && "waybar_status"@[0] == 'w',
{
    reveal_strlit("-j");
    reveal_strlit("-h");
    reveal_strlit("--jobs");
    reveal_strlit("--help");
    reveal_strlit("--fetch");
    reveal_strlit("--no-fetch");
    reveal_strlit("--version");
    reveal_strlit("help");
    reveal_strlit("sync");
    reveal_strlit("rofi_list");
    reveal_strlit("waybar_status");
}

/// What is left of a command line behind its first argument, or its first two.
proof fn lemma_behind(a: Seq<char>, b: Seq<char>, rest: Seq<Seq<char>>)
    ensures
        (seq![a] + rest)[0] == a,
        (seq![a] + rest).skip(1) == rest,
        (seq![a, b] + rest)[0] == a,
        (seq![a, b] + rest)[1] == b,
        (seq![a, b] + rest).skip(2) == rest,
{
    assert((seq![a] + rest).skip(1) =~= rest);
    assert((seq![a, b] + rest).skip(2) =~= rest);
}

/// The options `--fetch`, `--no-fetch`, `-j <n>` and `--jobs <n>` each set one
/// thing, whatever comes behind them.
pub proof fn options_set_one_thing(
    opts: OptionsView,
    rest: Seq<Seq<char>>,
    v: Seq<char>,
    n: nat,
)
    requires
        number(v) == Some(n),
    ensures
        read_options(opts, seq![]) == Ok::<OptionsView, ActionView>(opts),
        read_options(opts, seq!["--fetch"@] + rest) == read_options(
            OptionsView { fetch: Some(true), ..opts },
            rest,
        ),
        read_options(opts, seq!["--no-fetch"@] + rest) == read_options(
            OptionsView { fetch: Some(false), ..opts },
            rest,
        ),
        read_options(opts, seq!["-j"@, v] + rest) == read_options(
            OptionsView { jobs: n, ..opts },
            rest,
        ),
        read_options(opts, seq!["--jobs"@, v] + rest) == read_options(
            OptionsView { jobs: n, ..opts },
            rest,
        ),
{
    lemma_options_differ();
    lemma_behind("--fetch"@, v, rest);
    lemma_behind("--no-fetch"@, v, rest);
    lemma_behind("-j"@, v, rest);
    lemma_behind("--jobs"@, v, rest);
}

/// An argument that does not start with a dash is kept, in order, whatever comes
/// behind it.
pub proof fn other_arguments_are_kept(opts: OptionsView, a: Seq<char>, rest: Seq<Seq<char>>)
    requires
        a.len() == 0 || a[0] != '-',
    ensures
        read_options(opts, seq![a] + rest) == read_options(
            OptionsView { positional: opts.positional.push(a), ..opts },
            rest,
        ),
{
    lemma_options_differ();
    lemma_behind(a, a, rest);
}

/// What is no option is refused with exit code 2 and named on the standard error;
/// so is `-j` without a number, or with what is no number. `-h` and `--help` are
/// answered with the help text. What comes behind makes no difference.
pub proof fn bad_options_are_refused(
    opts: OptionsView,
    a: Seq<char>,
    v: Seq<char>,
    rest: Seq<Seq<char>>,
)
    requires
        a.len() > 0 && a[0] == '-',
        a != "-j"@ && a != "--jobs"@ && a != "--fetch"@ && a != "--no-fetch"@,
        a != "-h"@ && a != "--help"@,
        number(v) is None,
    ensures
        read_options(opts, seq![a] + rest) == Err::<OptionsView, ActionView>(
            ActionView::Say { out: seq![], err: "unknown option: "@ + a + "\n"@, code: 2 },
        ),
        read_options(opts, seq!["-j"@]) == Err::<OptionsView, ActionView>(
            ActionView::Say { out: seq![], err: "-j requires a number\n"@, code: 2 },
        ),
        read_options(opts, seq!["--jobs"@]) == Err::<OptionsView, ActionView>(
            ActionView::Say { out: seq![], err: "-j requires a number\n"@, code: 2 },
        ),
        read_options(opts, seq!["-j"@, v] + rest) == Err::<OptionsView, ActionView>(
            ActionView::Say { out: seq![], err: "invalid -j value: "@ + v + "\n"@, code: 2 },
        ),
        read_options(opts, seq!["--jobs"@, v] + rest) == Err::<OptionsView, ActionView>(
            ActionView::Say { out: seq![], err: "invalid -j value: "@ + v + "\n"@, code: 2 },
        ),
        read_options(opts, seq!["-h"@] + rest) == Err::<OptionsView, ActionView>(
            ActionView::Say { out: USAGE@, err: seq![], code: 0 },
        ),
        read_options(opts, seq!["--help"@] + rest) == Err::<OptionsView, ActionView>(
            ActionView::Say { out: USAGE@, err: seq![], code: 0 },
        ),
{
    lemma_options_differ();
    lemma_behind(a, v, rest);
    lemma_behind("-j"@, v, rest);
    lemma_behind("--jobs"@, v, rest);
    lemma_behind("-h"@, v, rest);
    lemma_behind("--help"@, v, rest);
}

/// The answers that no option can change: the usage where there is no argument,
/// the help text, and the version.
pub proof fn help_and_version_come_first(rest: Seq<Seq<char>>)
    ensures
        asked_for(seq![]) == (ActionView::Say { out: seq![], err: USAGE@, code: 2 }),
        asked_for(seq!["-h"@] + rest) == (ActionView::Say { out: USAGE@, err: seq![], code: 0 }),
        asked_for(seq!["--help"@] + rest) == (ActionView::Say { out: USAGE@, err: seq![], code: 0 }),
        asked_for(seq!["help"@] + rest) == (ActionView::Say { out: USAGE@, err: seq![], code: 0 }),
        asked_for(seq!["--version"@] + rest) == (ActionView::Say {
            out: "gitwatch "@ + "0.1.0"@ + "\n"@,
            err: seq![],
            code: 0,
        }),
{
    lemma_options_differ();
    lemma_behind("-h"@, "-h"@, rest);
    lemma_behind("--help"@, "-h"@, rest);
    lemma_behind("help"@, "-h"@, rest);
    lemma_behind("--version"@, "-h"@, rest);
}

/// What a command does with its options: the first argument is the directory or
/// the repository, and whether to fetch is as the user says or else, for the
/// report, yes and, for the list, no. Where the arguments are refused, so is the
/// command, whatever it is; a command without an argument, or one that is not
/// known, is refused with exit code 2.
pub proof fn commands_take_their_options(command: Seq<char>, rest: Seq<Seq<char>>)
    requires
        command != "-h"@ && command != "--help"@ && command != "help"@ && command != "--version"@,
    ensures
        match read_options(OptionsView { positional: seq![], jobs: 16, fetch: None }, rest) {
            Err(refusal) => asked_for(seq![command] + rest) == refusal,
            Ok(opts) => {
                let asked = asked_for(seq![command] + rest);
                let none = opts.positional.len() == 0;
                &&& command == "waybar_status"@ && none ==> asked == (ActionView::Say {
                    out: seq![],
                    err: "missing argument\nusage: gitwatch "@ + "waybar_status <dir>"@ + "\n"@,
                    code: 2,
                })
                &&& command == "waybar_status"@ && !none ==> asked == (ActionView::WaybarStatus {
                    dir: opts.positional[0],
                    jobs: opts.jobs,
                    fetch: opts.fetch != Some(false),
                })
                &&& command == "rofi_list"@ && none ==> asked == (ActionView::Say {
                    out: seq![],
                    err: "missing argument\nusage: gitwatch "@ + "rofi_list <dir>"@ + "\n"@,
                    code: 2,
                })
                &&& command == "rofi_list"@ && !none ==> asked == (ActionView::RofiList {
                    dir: opts.positional[0],
                    jobs: opts.jobs,
                    fetch: opts.fetch == Some(true),
                })
                &&& command == "sync"@ && none ==> asked == (ActionView::Say {
                    out: seq![],
                    err: "missing argument\nusage: gitwatch "@ + "sync <repo>"@ + "\n"@,
                    code: 2,
                })
                &&& command == "sync"@ && !none ==> asked == (ActionView::Sync {
                    repo: opts.positional[0],
                })
                &&& command != "waybar_status"@ && command != "rofi_list"@ && command != "sync"@
                    ==> asked == (ActionView::Say {
                    out: seq![],
                    err: "unknown command: "@ + command + "\n\n"@ + USAGE@,
                    code: 2,
                })
            },
        },
{
    lemma_options_differ();
    lemma_behind(command, command, rest);
}

/// An argument is dashed just when it starts with a dash.
pub proof fn dashed_means_a_leading_dash(a: Seq<char>)
    ensures
        is_dashed(a) <==> a.len() > 0 && a[0] == '-',
{
}

/// The view of an action has all that the action has.
pub proof fn actions_are_viewed_as_they_are(
    a: String,
    b: String,
    code: i32,
    jobs: usize,
    fetch: bool,
)
    ensures
        (Action::Say { out: a, err: b, code })@ == (ActionView::Say {
            out: a@,
            err: b@,
            code: code as int,
        }),
        (Action::WaybarStatus { dir: a, jobs, fetch })@ == (ActionView::WaybarStatus {
            dir: a@,
            jobs: jobs as nat,
            fetch,
        }),
        (Action::RofiList { dir: a, jobs, fetch })@ == (ActionView::RofiList {
            dir: a@,
            jobs: jobs as nat,
            fetch,
        }),
        (Action::Sync { repo: a })@ == (ActionView::Sync { repo: a@ }),
{
}

/// A path that starts with `~/` leads to what follows, below the home directory;
/// where that is not known, and for every other path, it is taken as given.
pub proof fn tilde_leads_home(home: Seq<char>, rest: Seq<char>, path: Seq<char>)
    ensures
        expanded(seq!['~', '/'] + rest, Some(home)) == (LocationView::Below { home, rest }),
        expanded(path, None) == LocationView::AsGiven(path),
        path.len() < 2 || path[0] != '~' || path[1] != '/' ==> expanded(path, Some(home))
            == LocationView::AsGiven(path),
{
    reveal_strlit("~/");
    let full = seq!['~', '/'] + rest;
    assert("~/"@ =~= full.subrange(0, 2));
    assert(full.skip(2) =~= rest);
    if "~/"@.is_prefix_of(path) {
        assert("~/"@[0] == path[0] && "~/"@[1] == path[1]);
    }
}

} // verus!
