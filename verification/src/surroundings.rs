//! The clock and the host name, and the texts that are made with them.

use crate::text::{chars_of, find, is_digit, lemma_run_len, lemma_run_len_is, other_than, part_string};
use crate::text_laws::first_place_is_found;
use vstd::prelude::*;

verus! {

/// How a moment is written: `2001-07-08T00:34:59+0930`.
pub const STAMP_FORMAT: &'static str = "%Y-%m-%dT%H:%M:%S%z";

/// The characters at `i` and `i + 1` are digits, and the number that they make
/// is one of `low` to `high`.
pub open spec fn field(s: Seq<char>, i: int, low: int, high: int) -> bool {
    &&& is_digit(s[i]) && is_digit(s[i + 1])
    &&& low <= 10 * (s[i] as int - 48) + (s[i + 1] as int - 48) <= high
}

/// `s` is a moment in the layout of [`STAMP_FORMAT`]: a year of at least four
/// digits, signed unless it has exactly four, then month, day, hour, minute,
/// second (60 in a leap second) and the offset from UTC in hours and minutes.
pub open spec fn is_stamp(s: Seq<char>) -> bool {
    let y = s.len() - 20;
    &&& y >= 4
    &&& forall|i: int| 1 <= i < y ==> is_digit(#[trigger] s[i])
    &&& if y == 4 {
        is_digit(s[0])
    } else {
        s[0] == '+' || s[0] == '-'
    }
    &&& s[y] == '-' && field(s, y + 1, 1, 12)
    &&& s[y + 3] == '-' && field(s, y + 4, 1, 31)
    &&& s[y + 6] == 'T' && field(s, y + 7, 0, 23)
    &&& s[y + 9] == ':' && field(s, y + 10, 0, 59)
    &&& s[y + 12] == ':' && field(s, y + 13, 0, 60)
    &&& s[y + 15] == '+' || s[y + 15] == '-'
    &&& field(s, y + 16, 0, 24) && field(s, y + 18, 0, 59)
}

/// `chrono::Local::now` and the formatting of what it returns: the present
/// moment in the local time zone, in the layout of the given format. Which
/// moment that is rests on the clock and the time zone of the machine; of every
/// one it is said that its text has the layout. Other formats are left out: a
/// malformed one makes chrono panic. chrono also panics on a clock that is set
/// to before 1970, and where the data of the machine's time zone give no valid
/// offset from UTC for the moment; no argument can rule these out.
#[verifier::external_body]
fn local_now(format: &str) -> (r: String)
    requires
        format@ == STAMP_FORMAT@,
    ensures
        is_stamp(r@),
{
    chrono::Local::now().format(format).to_string()
}

/// The present moment in the local time zone.
pub fn now_iso() -> (r: String)
    ensures
        is_stamp(r@),
{
    local_now(STAMP_FORMAT)
}

/// `chrono::Local::now` and `DateTime::timestamp`: the seconds since the start
/// of 1970 in UTC, by the clock of the machine. How many they are rests on the
/// clock; of every number it is said that it is not negative, since chrono panics
/// on a clock that is set to before 1970. It also panics where the data of the
/// machine's time zone give no valid offset from UTC for the moment; no argument
/// can rule these out.
#[verifier::external_body]
pub(crate) fn epoch_now() -> (r: i64)
    ensures
        r >= 0,
{
    chrono::Local::now().timestamp()
}

/// `gethostname::gethostname`: the name of the machine as text. What that is
/// rests on the machine alone, so nothing is said of it. On Windows, gethostname
/// panics where the system does not tell the name, which no argument can rule out.
#[verifier::external_body]
fn host_name() -> (r: String) {
    gethostname::gethostname().to_string_lossy().into_owned()
}

/// A host name up to its first dot.
pub open spec fn first_label(host: Seq<char>) -> Seq<char> {
    host.take(find(host, '.'))
}

/// A host name up to its first dot.
pub fn short_name(host: &str) -> (r: String)
    ensures
        r@ == first_label(host@),
{
    let cs = chars_of(host);
    let mut n: usize = 0;
    while n < cs.len() && cs[n] != '.'
        invariant
            n <= cs@.len(),
            forall|i: int| 0 <= i < n ==> other_than('.')(#[trigger] cs@[i]),
        decreases cs@.len() - n,
    {
        n = n + 1;
    }
    proof {
        lemma_run_len_is(cs@, other_than('.'), n as int);
    }
    part_string(&cs, 0, n)
}

/// The name of the machine up to its first dot.
pub fn hostname_short() -> (r: String)
    ensures
        !r@.contains('.'),
{
    let h = host_name();
    proof {
        lemma_run_len(h@, other_than('.'));
    }
    short_name(h.as_str())
}

/// A log line: the moment and the message.
pub open spec fn stamped(moment: Seq<char>, message: Seq<char>) -> Seq<char> {
    moment + " "@ + message
}

/// The log line for a message at a given moment.
pub fn log_line_at(moment: &str, message: &str) -> (r: String)
    ensures
        r@ == stamped(moment@, message@),
{
    moment.to_owned().concat(" ").concat(message)
}

/// The log line for a message at the present moment.
pub fn log_line(message: &str) -> (r: String)
    ensures
        exists|moment: Seq<char>| is_stamp(moment) && r@ == #[trigger] stamped(moment, message@),
{
    let now = now_iso();
    log_line_at(now.as_str(), message)
}

/// A host name is cut at its first dot, and only there.
pub proof fn host_name_is_cut_at_the_first_dot(label: Seq<char>, domain: Seq<char>)
    requires
        !label.contains('.'),
    ensures
        first_label(label) == label,
        first_label(label + seq!['.'] + domain) == label,
{
    first_place_is_found(label, '.', domain);
    assert((label + seq!['.'] + domain).take(label.len() as int) == label);
    assert(label.take(label.len() as int) == label);
}

/// A log line is the moment, one blank and the message.
pub proof fn log_line_holds_moment_and_message(moment: Seq<char>, message: Seq<char>)
    ensures
        stamped(moment, message) == moment + seq![' '] + message,
{
    reveal_strlit(" ");
    assert(" "@ == seq![' ']);
}

} // verus!
