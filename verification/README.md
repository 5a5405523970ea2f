# gitwatch

Monitors a directory of git repositories and auto-syncs them.

| Command | What it does |
|---------|--------------|
| `gitwatch waybar_status <dir>` | Fetches every repository in parallel and prints one JSON line for a Waybar custom module (`text`, `tooltip`, `class`). |
| `gitwatch rofi_list <dir>` | Prints one `<icon> <name>` line per repository, dirty ones first. Does not fetch by default. |
| `gitwatch sync <repo>` | Commits everything, fetches, rebases onto `origin/<branch>` and pushes. On conflict the work moves to a pushed `sync/conflit-*` branch and `<branch>` is reset to its upstream. |

## Layout

`src/` is the library. It decides and computes everything, and Verus proves it
against its contracts. What it takes on trust are the contracts of a few outside
calls, each stated where the call is made: in `std`, `String::push`,
`str::to_lowercase` and `String::from_utf8_lossy`; in chrono, the present moment,
as text and as seconds since 1970; in gethostname, the name of the machine.
`app/` is the program around it: it lists directories,
runs `git`, holds the lock and prints.

| Module | Subject |
|--------|---------|
| `text` | splitting, trimming, numbers, padding, joining |
| `git` | what a run of `git` hands back |
| `status`, `porcelain`, `inspect` | the status of a repository, and how it is found out |
| `order`, `scan`, `pool` | sorting, picking repositories out of a listing, the shared work queue |
| `icons`, `waybar`, `rofi` | the two reports |
| `surroundings` | the clock and the host name |
| `sync`, `sync_laws` | the synchronisation as a conversation, and what holds of every run |
| `cli` | the command line |

## Waybar output

The text is the total number of repositories, followed by each group that has a
member: `↑` ahead, `↓` behind, `⇅` diverged, `●` dirty, `⇡` never pushed,
`⚠` conflicts, `?` error. The class is the most pressing of
`error > conflict > unpublished > diverged > behind > ahead > dirty > clean`.

## Exit codes of `sync`

- `0`: synchronised, or pushed for the first time
- `1`: error; the reason is logged
- `2`: conflict; the work is on the safety branch, which is checked out and pushed
