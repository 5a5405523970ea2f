//! What a run of the `git` binary hands back.

use crate::text::{same_text, trim, trimmed};
use vstd::prelude::*;
use vstd::utf8::{decode_utf8, valid_utf8};

verus! {

/// The exit status and raw output of a finished process.
pub struct RawOut {
    pub ok: bool,
    pub stdout: Vec<u8>,
    pub stderr: Vec<u8>,
}

/// The exit status and output of a finished `git` process.
pub struct GitOut {
    pub ok: bool,
    pub stdout: String,
    pub stderr: String,
}

/// How a run of `git` ended: with an exit status and output, or, where the
/// process could not be run, with the text of the system's error.
pub type GitReply = Result<GitOut, String>;

/// The text that `String::from_utf8_lossy` makes of a byte sequence.
pub uninterp spec fn lossy_text(bytes: Seq<u8>) -> Seq<char>;

/// `String::from_utf8_lossy`: bytes that are valid UTF-8 come out as the
/// characters that they encode; of others it is said only that the text
/// depends on the bytes alone.
#[verifier::external_body]
fn utf8_lossy(bytes: &[u8]) -> (r: String)
    ensures
        r@ == lossy_text(bytes@),
        valid_utf8(bytes@) ==> r@ == decode_utf8(bytes@),
{
    String::from_utf8_lossy(bytes).into_owned()
}

/// The reply that a process run amounts to: its output as text, or the error
/// that kept it from running.
pub fn git(run: Result<RawOut, String>) -> (r: GitReply)
    ensures
        match (run, r) {
            (Ok(raw), Ok(out)) => {
                &&& out.ok == raw.ok
                &&& out.stdout@ == lossy_text(raw.stdout@)
                &&& out.stderr@ == lossy_text(raw.stderr@)
                &&& valid_utf8(raw.stdout@) ==> out.stdout@ == decode_utf8(raw.stdout@)
                &&& valid_utf8(raw.stderr@) ==> out.stderr@ == decode_utf8(raw.stderr@)
            },
            (Err(e), Err(f)) => e == f,
            _ => false,
        },
{
    match run {
        Ok(raw) => Ok(
            GitOut {
                ok: raw.ok,
                stdout: utf8_lossy(raw.stdout.as_slice()),
                stderr: utf8_lossy(raw.stderr.as_slice()),
            },
        ),
        Err(e) => Err(e),
    }
}

/// The process ran and exited successfully.
pub open spec fn succeeded(reply: GitReply) -> bool {
    reply matches Ok(out) && out.ok
}

/// What the process wrote to its standard output; nothing if it did not run.
pub open spec fn output(reply: GitReply) -> Seq<char> {
    match reply {
        Ok(out) => out.stdout@,
        Err(_) => seq![],
    }
}

/// The trimmed standard output of a successful run, `None` of any other.
pub fn git_ok(reply: &GitReply) -> (r: Option<String>)
    ensures
        r is Some <==> succeeded(*reply),
        r matches Some(t) ==> t@ == trim(output(*reply)),
{
    match reply {
        Ok(out) => if out.ok {
            Some(trimmed(out.stdout.as_str()))
        } else {
            None
        },
        Err(_) => None,
    }
}

/// `git rev-parse --is-inside-work-tree` replied that the directory is one.
pub open spec fn says_worktree(reply: GitReply) -> bool {
    succeeded(reply) && trim(output(reply)) == "true"@
}

/// Whether the reply to `git rev-parse --is-inside-work-tree` says that the
/// directory is inside a work tree.
pub fn is_git_worktree(reply: &GitReply) -> (r: bool)
    ensures
        r == says_worktree(*reply),
{
    match git_ok(reply) {
        Some(t) => same_text(t.as_str(), "true"),
        None => false,
    }
}

/// A run has succeeded just when the process ran and its exit status says so;
/// its output is what it wrote to its standard output, nothing if it did not run.
pub proof fn success_is_told_by_the_exit_status(out: GitOut, error: String)
    ensures
        succeeded(Ok(out)) <==> out.ok,
        output(Ok(out)) == out.stdout@,
        !succeeded(Err(error)),
        output(Err(error)).len() == 0,
{
}

/// Only a successful run that wrote `true`, with or without white space around
/// it, says that the directory is inside a work tree.
pub proof fn work_tree_is_told_by_true_alone(reply: GitReply)
    ensures
        says_worktree(reply) <==> (reply matches Ok(out) && out.ok && trim(out.stdout@) == seq![
            't',
            'r',
            'u',
            'e',
        ]),
{
    reveal_strlit("true");
    assert("true"@ == seq!['t', 'r', 'u', 'e']);
}

} // verus!
