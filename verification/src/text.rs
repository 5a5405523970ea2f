//! Text as sequences of characters: splitting, trimming, numbers, padding and
//! joining, each with a specification on `Seq<char>` and an executable version.

use vstd::prelude::*;

verus! {

/// `String::push` appends one character.
pub assume_specification[ String::push ](s: &mut String, ch: char)
    ensures
        final(s)@ == old(s)@.push(ch),
;

// ---------------------------------------------------------------------------
// Specifications
// ---------------------------------------------------------------------------

/// The characters with the Unicode `White_Space` property.
pub open spec fn is_space(c: char) -> bool {
    ||| '\u{9}' <= c <= '\u{d}'
    ||| c == ' '
    ||| c == '\u{85}'
    ||| c == '\u{a0}'
    ||| c == '\u{1680}'
    ||| '\u{2000}' <= c <= '\u{200a}'
    ||| c == '\u{2028}'
    ||| c == '\u{2029}'
    ||| c == '\u{202f}'
    ||| c == '\u{205f}'
    ||| c == '\u{3000}'
}

/// The predicate "is white space".
pub open spec fn space() -> spec_fn(char) -> bool {
    |c: char| is_space(c)
}

/// The predicate "is not white space".
pub open spec fn non_space() -> spec_fn(char) -> bool {
    |c: char| !is_space(c)
}

/// The predicate "is not `c`".
pub open spec fn other_than(c: char) -> spec_fn(char) -> bool {
    |x: char| x != c
}

/// The length of the longest prefix of `s` all of whose characters satisfy `p`.
pub open spec fn run_len(s: Seq<char>, p: spec_fn(char) -> bool) -> int
    decreases s.len(),
{
    if s.len() > 0 && p(s[0]) {
        1 + run_len(s.drop_first(), p)
    } else {
        0
    }
}

/// `s` without its leading white space.
pub open spec fn trim_start(s: Seq<char>) -> Seq<char> {
    s.skip(run_len(s, space()))
}

/// `s` without its trailing white space.
pub open spec fn trim_end(s: Seq<char>) -> Seq<char>
    decreases s.len(),
{
    if s.len() > 0 && is_space(s.last()) {
        trim_end(s.drop_last())
    } else {
        s
    }
}

/// `s` without white space at either end.
pub open spec fn trim(s: Seq<char>) -> Seq<char> {
    trim_end(trim_start(s))
}

/// The position of the first `c` in `s`, or the length of `s` if there is none.
pub open spec fn find(s: Seq<char>, c: char) -> int {
    run_len(s, other_than(c))
}

/// `s` without one trailing carriage return.
pub open spec fn strip_cr(s: Seq<char>) -> Seq<char> {
    if s.len() > 0 && s.last() == '\r' {
        s.drop_last()
    } else {
        s
    }
}

/// The lines of `s`: each ends at a line feed, optionally preceded by a
/// carriage return, neither of which belongs to it; the last line needs no end.
pub open spec fn lines(s: Seq<char>) -> Seq<Seq<char>>
    decreases s.len(),
    via lines_decreases
{
    if s.len() == 0 {
        seq![]
    } else {
        let n = find(s, '\n');
        if n == s.len() {
            seq![s]
        } else {
            seq![strip_cr(s.take(n))] + lines(s.skip(n + 1))
        }
    }
}

#[via_fn]
proof fn lines_decreases(s: Seq<char>) {
    lemma_run_len(s, other_than('\n'));
}

/// The words of `s`: its maximal runs of characters that are not white space.
pub open spec fn words(s: Seq<char>) -> Seq<Seq<char>>
    decreases s.len(),
    via words_decreases
{
    let t = trim_start(s);
    if t.len() == 0 {
        seq![]
    } else {
        let n = run_len(t, non_space());
        seq![t.take(n)] + words(t.skip(n))
    }
}

#[via_fn]
proof fn words_decreases(s: Seq<char>) {
    lemma_run_len(s, space());
    lemma_run_len(trim_start(s), non_space());
}

/// The character of a decimal digit.
pub open spec fn digit(d: int) -> char {
    (48 + d) as char
}

/// `c` is one of `0` to `9`.
pub open spec fn is_digit(c: char) -> bool {
    '0' <= c <= '9'
}

/// `n` in decimal, without leading zeros.
pub open spec fn decimal(n: nat) -> Seq<char>
    decreases n,
{
    if n < 10 {
        seq![digit(n as int)]
    } else {
        decimal(n / 10).push(digit((n % 10) as int))
    }
}

/// `n` in decimal, with a minus sign if it is negative.
pub open spec fn signed_decimal(n: int) -> Seq<char> {
    if n < 0 {
        "-"@ + decimal((-n) as nat)
    } else {
        decimal(n as nat)
    }
}

/// All characters of `s` are digits.
pub open spec fn all_digits(s: Seq<char>) -> bool {
    forall|i: int| 0 <= i < s.len() ==> is_digit(#[trigger] s[i])
}

/// The number that a sequence of digits stands for.
pub open spec fn digits_value(s: Seq<char>) -> nat
    decreases s.len(),
{
    if s.len() == 0 {
        0
    } else {
        10 * digits_value(s.drop_last()) + (s.last() as nat - 48) as nat
    }
}

/// `s` without one leading plus sign.
pub open spec fn strip_plus(s: Seq<char>) -> Seq<char> {
    if s.len() > 0 && s[0] == '+' {
        s.skip(1)
    } else {
        s
    }
}

/// The number that `s` denotes: an optional plus sign and at least one digit,
/// nothing else, with a value that a `usize` can hold.
pub open spec fn number(s: Seq<char>) -> Option<nat> {
    let d = strip_plus(s);
    if d.len() > 0 && all_digits(d) && digits_value(d) <= usize::MAX {
        Some(digits_value(d))
    } else {
        None
    }
}

/// `n` blanks.
pub open spec fn blanks(n: int) -> Seq<char> {
    Seq::new(n as nat, |i: int| ' ')
}

/// `s` filled up with blanks on the right to at least `width` characters.
pub open spec fn pad_right(s: Seq<char>, width: int) -> Seq<char> {
    if s.len() < width {
        s + blanks(width - s.len())
    } else {
        s
    }
}

/// The pieces one after the other, with `sep` between each two.
pub open spec fn join(pieces: Seq<Seq<char>>, sep: Seq<char>) -> Seq<char>
    decreases pieces.len(),
{
    if pieces.len() == 0 {
        seq![]
    } else if pieces.len() == 1 {
        pieces[0]
    } else {
        join(pieces.drop_last(), sep) + sep + pieces.last()
    }
}

/// The views of a sequence of character vectors.
pub open spec fn texts(v: Seq<Vec<char>>) -> Seq<Seq<char>> {
    v.map_values(|t: Vec<char>| t@)
}

/// The views of a sequence of strings.
pub open spec fn strings(v: Seq<String>) -> Seq<Seq<char>> {
    v.map_values(|t: String| t@)
}

// ---------------------------------------------------------------------------
// Lemmas on runs
// ---------------------------------------------------------------------------

/// What `run_len` is: a prefix that satisfies `p` and cannot be extended.
pub proof fn lemma_run_len(s: Seq<char>, p: spec_fn(char) -> bool)
    ensures
        0 <= run_len(s, p) <= s.len(),
        forall|i: int| 0 <= i < run_len(s, p) ==> p(#[trigger] s[i]),
        run_len(s, p) < s.len() ==> !p(s[run_len(s, p)]),
    decreases s.len(),
{
    if s.len() > 0 && p(s[0]) {
        let t = s.drop_first();
        lemma_run_len(t, p);
        assert forall|i: int| 0 <= i < run_len(s, p) implies p(#[trigger] s[i]) by {
            if i > 0 {
                assert(s[i] == t[i - 1]);
            }
        }
        if run_len(s, p) < s.len() {
            assert(s[run_len(s, p)] == t[run_len(t, p)]);
        }
    }
}

/// A prefix that satisfies `p` and cannot be extended has length `run_len`.
pub proof fn lemma_run_len_is(s: Seq<char>, p: spec_fn(char) -> bool, n: int)
    requires
        0 <= n <= s.len(),
        forall|i: int| 0 <= i < n ==> p(#[trigger] s[i]),
        n < s.len() ==> !p(s[n]),
    ensures
        run_len(s, p) == n,
{
    lemma_run_len(s, p);
    let m = run_len(s, p);
    if m < n {
        assert(p(s[m]));
    } else if n < m {
        assert(p(s[n]));
    }
}

/// What is left of `s` when white space at its end is cut off.
pub proof fn lemma_trim_end_is(s: Seq<char>, m: int)
    requires
        0 <= m <= s.len(),
        forall|i: int| m <= i < s.len() ==> is_space(#[trigger] s[i]),
        m > 0 ==> !is_space(s[m - 1]),
    ensures
        trim_end(s) == s.take(m),
    decreases s.len(),
{
    if m < s.len() {
        assert(is_space(s[s.len() - 1]));
        lemma_trim_end_is(s.drop_last(), m);
        assert(s.drop_last().take(m) == s.take(m));
    } else {
        assert(s.take(m) == s);
    }
}

/// A prefix of digits is worth no more than the whole.
pub proof fn lemma_digits_prefix(s: Seq<char>, n: int)
    requires
        0 <= n <= s.len(),
    ensures
        digits_value(s.take(n)) <= digits_value(s),
    decreases s.len() - n,
{
    if n < s.len() {
        lemma_digits_prefix(s, n + 1);
        assert(s.take(n + 1).drop_last() == s.take(n));
    } else {
        assert(s.take(n) == s);
    }
}

/// Appending one piece appends the separator, unless it is the first, and the piece.
pub proof fn lemma_join_push(pieces: Seq<Seq<char>>, piece: Seq<char>, sep: Seq<char>)
    ensures
        join(pieces.push(piece), sep) == if pieces.len() == 0 {
            piece
        } else {
            join(pieces, sep) + sep + piece
        },
{
    assert(pieces.push(piece).drop_last() == pieces);
}

/// A number in decimal is a sequence of digits, at least one, with that value.
pub proof fn lemma_decimal(n: nat)
    ensures
        decimal(n).len() > 0,
        all_digits(decimal(n)),
        digits_value(decimal(n)) == n,
    decreases n,
{
    if n < 10 {
        assert(decimal(n).drop_last() == Seq::<char>::empty());
        assert(digits_value(decimal(n).drop_last()) == 0);
    } else {
        lemma_decimal(n / 10);
        assert(decimal(n).drop_last() == decimal(n / 10));
    }
}

/// A number written in decimal reads back as that number.
pub proof fn decimal_reads_back(n: nat)
    requires
        n <= usize::MAX,
    ensures
        number(decimal(n)) == Some(n),
{
    lemma_decimal(n);
    assert(is_digit(decimal(n)[0]));
}

/// What is left of a text when its ends are trimmed has white space at neither
/// end, and stands in the text with nothing but white space around it.
pub proof fn trim_cuts_white_space_only(s: Seq<char>) -> (ends: (int, int))
    ensures
        0 <= ends.0 <= ends.1 <= s.len(),
        trim(s) == s.subrange(ends.0, ends.1),
        forall|i: int| 0 <= i < ends.0 || ends.1 <= i < s.len() ==> is_space(#[trigger] s[i]),
        trim(s).len() > 0 ==> !is_space(trim(s)[0]) && !is_space(trim(s).last()),
{
    let a = run_len(s, space());
    lemma_run_len(s, space());
    let t = trim_start(s);
    let m = lemma_trim_end(t);
    assert(t.take(m) == s.subrange(a, a + m));
    assert forall|i: int| 0 <= i < a || a + m <= i < s.len() implies is_space(#[trigger] s[i]) by {
        if i < a {
            assert(space()(s[i]));
        } else {
            assert(t[i - a] == s[i]);
        }
    }
    if m > 0 {
        assert(t[0] == s[a]);
        assert(!space()(s[a]));
    }
    (a, a + m)
}

/// A text in two parts, the first of which is empty or ends in a line feed, has
/// the lines of the first part and then those of the second.
pub proof fn lines_of_two_parts(a: Seq<char>, b: Seq<char>)
    requires
        a.len() == 0 || a.last() == '\n',
    ensures
        lines(a + b) == lines(a) + lines(b),
    decreases a.len(),
{
    if a.len() == 0 {
        assert(a + b == b);
        assert(lines(a) + lines(b) == lines(b));
    } else {
        let s = a + b;
        let n = find(a, '\n');
        lemma_run_len(a, other_than('\n'));
        if n == a.len() {
            assert(other_than('\n')(a[a.len() - 1]));
        }
        assert forall|i: int| 0 <= i < n implies other_than('\n')(#[trigger] s[i]) by {
            assert(s[i] == a[i]);
        }
        assert(s[n] == a[n]);
        lemma_run_len_is(s, other_than('\n'), n);
        let rest = a.skip(n + 1);
        if rest.len() > 0 {
            assert(rest.last() == a.last());
        }
        lines_of_two_parts(rest, b);
        assert(s.take(n) == a.take(n));
        assert(s.skip(n + 1) == rest + b);
        let first = seq![strip_cr(a.take(n))];
        assert(first + (lines(rest) + lines(b)) == (first + lines(rest)) + lines(b));
    }
}

/// What `trim_end` is: a prefix that does not end in white space, behind which
/// there is nothing else.
proof fn lemma_trim_end(s: Seq<char>) -> (m: int)
    ensures
        0 <= m <= s.len(),
        trim_end(s) == s.take(m),
        forall|i: int| m <= i < s.len() ==> is_space(#[trigger] s[i]),
        m > 0 ==> !is_space(s[m - 1]),
    decreases s.len(),
{
    if s.len() > 0 && is_space(s.last()) {
        let m = lemma_trim_end(s.drop_last());
        assert(s.drop_last().take(m) == s.take(m));
        assert forall|i: int| m <= i < s.len() implies is_space(#[trigger] s[i]) by {
            if i < s.len() - 1 {
                assert(s.drop_last()[i] == s[i]);
            }
        }
        m
    } else {
        assert(s.take(s.len() as int) == s);
        s.len() as int
    }
}

// ---------------------------------------------------------------------------
// Executable versions
// ---------------------------------------------------------------------------

/// The characters of a string.
pub fn chars_of(s: &str) -> (r: Vec<char>)
    ensures
        r@ == s@,
{
    let mut r: Vec<char> = Vec::new();
    for c in it: s.chars()
        invariant
            it.seq() == s@,
            r@ == s@.take(it.index()),
    {
        r.push(c);
    }
    r
}

/// The characters `from..to` of `s`.
pub fn part(s: &Vec<char>, from: usize, to: usize) -> (r: Vec<char>)
    requires
        from <= to <= s@.len(),
    ensures
        r@ == s@.subrange(from as int, to as int),
{
    let mut r: Vec<char> = Vec::new();
    let mut i: usize = from;
    while i < to
        invariant
            from <= i <= to <= s@.len(),
            r@ == s@.subrange(from as int, i as int),
        decreases to - i,
    {
        r.push(s[i]);
        i = i + 1;
    }
    r
}

/// The string made of the characters `from..to` of `s`.
pub fn part_string(s: &Vec<char>, from: usize, to: usize) -> (r: String)
    requires
        from <= to <= s@.len(),
    ensures
        r@ == s@.subrange(from as int, to as int),
{
    let mut r = String::new();
    let mut i: usize = from;
    while i < to
        invariant
            from <= i <= to <= s@.len(),
            r@ == s@.subrange(from as int, i as int),
        decreases to - i,
    {
        r.push(s[i]);
        i = i + 1;
    }
    r
}

/// Whether `c` is white space.
pub fn space_char(c: char) -> (r: bool)
    ensures
        r == is_space(c),
{
    ('\u{9}' <= c && c <= '\u{d}') || c == ' ' || c == '\u{85}' || c == '\u{a0}' || c == '\u{1680}'
        || ('\u{2000}' <= c && c <= '\u{200a}') || c == '\u{2028}' || c == '\u{2029}'
        || c == '\u{202f}' || c == '\u{205f}' || c == '\u{3000}'
}

/// The bounds of what is left when white space is cut off both ends of `s[from..]`.
pub fn trim_bounds(s: &Vec<char>, from: usize) -> (r: (usize, usize))
    requires
        from <= s@.len(),
    ensures
        from <= r.0 <= r.1 <= s@.len(),
        s@.subrange(r.0 as int, r.1 as int) == trim(s@.skip(from as int)),
{
    let mut a: usize = from;
    while a < s.len() && space_char(s[a])
        invariant
            from <= a <= s@.len(),
            forall|i: int| from <= i < a ==> is_space(#[trigger] s@[i]),
        decreases s@.len() - a,
    {
        a = a + 1;
    }
    let ghost t = s@.skip(from as int);
    proof {
        assert forall|i: int| 0 <= i < a - from implies space()(#[trigger] t[i]) by {
            assert(t[i] == s@[from + i]);
        }
        lemma_run_len_is(t, space(), a - from);
        assert(trim_start(t) == s@.skip(a as int));
    }
    let mut b: usize = s.len();
    while b > a && space_char(s[b - 1])
        invariant
            a <= b <= s@.len(),
            forall|i: int| b <= i < s@.len() ==> is_space(#[trigger] s@[i]),
        decreases b,
    {
        b = b - 1;
    }
    proof {
        let u = s@.skip(a as int);
        lemma_trim_end_is(u, b - a);
        assert(u.take(b - a) == s@.subrange(a as int, b as int));
    }
    (a, b)
}

/// `s` without white space at either end.
pub fn trimmed(s: &str) -> (r: String)
    ensures
        r@ == trim(s@),
{
    let cs = chars_of(s);
    let (a, b) = trim_bounds(&cs, 0);
    proof {
        assert(cs@.skip(0) == s@);
    }
    part_string(&cs, a, b)
}

/// The lines of `s`.
pub fn lines_of(s: &Vec<char>) -> (r: Vec<Vec<char>>)
    ensures
        texts(r@) == lines(s@),
{
    let mut out: Vec<Vec<char>> = Vec::new();
    let mut i: usize = 0;
    proof {
        assert(s@.skip(0) == s@);
        assert(texts(out@) + lines(s@) == lines(s@));
    }
    while i < s.len()
        invariant
            i <= s@.len(),
            texts(out@) + lines(s@.skip(i as int)) == lines(s@),
        decreases s@.len() - i,
    {
        let mut e: usize = i;
        while e < s.len() && s[e] != '\n'
            invariant
                i <= e <= s@.len(),
                forall|k: int| i <= k < e ==> #[trigger] s@[k] != '\n',
            decreases s@.len() - e,
        {
            e = e + 1;
        }
        let ghost t = s@.skip(i as int);
        proof {
            assert forall|k: int| 0 <= k < e - i implies other_than('\n')(#[trigger] t[k]) by {
                assert(t[k] == s@[i + k]);
            }
            lemma_run_len_is(t, other_than('\n'), e - i);
        }
        let stop: usize = if e < s.len() && e > i && s[e - 1] == '\r' {
            e - 1
        } else {
            e
        };
        let line = part(s, i, stop);
        let ghost before = out@;
        out.push(line);
        proof {
            assert(texts(out@) == texts(before).push(line@));
            if e < s@.len() {
                assert(strip_cr(t.take(e - i)) == line@);
                assert(t.skip(e - i + 1) == s@.skip(e + 1));
                assert(texts(before) + (seq![line@] + lines(s@.skip(e + 1))) == texts(out@) + lines(
                    s@.skip(e + 1),
                ));
            } else {
                assert(line@ == t);
                assert(lines(t) == seq![t]);
                assert(texts(out@) == lines(s@));
            }
        }
        if e < s.len() {
            i = e + 1;
        } else {
            i = e;
            proof {
                assert(lines(s@.skip(i as int)) == Seq::<Seq<char>>::empty());
            }
        }
    }
    proof {
        assert(lines(s@.skip(i as int)) == Seq::<Seq<char>>::empty());
        assert(texts(out@) == lines(s@));
    }
    out
}

/// The words of `s`.
pub fn words_of(s: &Vec<char>) -> (r: Vec<Vec<char>>)
    ensures
        texts(r@) == words(s@),
{
    let mut out: Vec<Vec<char>> = Vec::new();
    let mut i: usize = 0;
    proof {
        assert(s@.skip(0) == s@);
        assert(texts(out@) + words(s@) == words(s@));
    }
    while i < s.len()
        invariant
            i <= s@.len(),
            texts(out@) + words(s@.skip(i as int)) == words(s@),
        decreases s@.len() - i,
    {
        let mut a: usize = i;
        while a < s.len() && space_char(s[a])
            invariant
                i <= a <= s@.len(),
                forall|k: int| i <= k < a ==> is_space(#[trigger] s@[k]),
            decreases s@.len() - a,
        {
            a = a + 1;
        }
        let ghost t = s@.skip(i as int);
        let ghost u = s@.skip(a as int);
        proof {
            assert forall|k: int| 0 <= k < a - i implies space()(#[trigger] t[k]) by {
                assert(t[k] == s@[i + k]);
            }
            lemma_run_len_is(t, space(), a - i);
            assert(trim_start(t) == u);
        }
        let mut b: usize = a;
        while b < s.len() && !space_char(s[b])
            invariant
                a <= b <= s@.len(),
                forall|k: int| a <= k < b ==> !is_space(#[trigger] s@[k]),
            decreases s@.len() - b,
        {
            b = b + 1;
        }
        proof {
            assert forall|k: int| 0 <= k < b - a implies non_space()(#[trigger] u[k]) by {
                assert(u[k] == s@[a + k]);
            }
            lemma_run_len_is(u, non_space(), b - a);
            assert(u.take(b - a) == s@.subrange(a as int, b as int));
            assert(u.skip(b - a) == s@.skip(b as int));
        }
        if a < s.len() {
            let word = part(s, a, b);
            let ghost before = out@;
            out.push(word);
            proof {
                assert(texts(out@) == texts(before).push(word@));
                assert(texts(before) + (seq![word@] + words(s@.skip(b as int))) == texts(out@) + words(
                    s@.skip(b as int),
                ));
            }
        } else {
            proof {
                assert(words(t) == Seq::<Seq<char>>::empty());
                assert(trim_start(u).len() == 0) by {
                    lemma_run_len(u, space());
                }
                assert(words(u) == Seq::<Seq<char>>::empty());
            }
        }
        i = b;
    }
    proof {
        let u = s@.skip(i as int);
        lemma_run_len(u, space());
        assert(words(u) == Seq::<Seq<char>>::empty());
        assert(texts(out@) == words(s@));
    }
    out
}

/// Whether `s` starts with `prefix`.
pub fn has_prefix(s: &Vec<char>, prefix: &str) -> (r: bool)
    ensures
        r == prefix@.is_prefix_of(s@),
{
    let mut i: usize = 0;
    for c in it: prefix.chars()
        invariant
            it.seq() == prefix@,
            i == it.index(),
            i <= s@.len(),
            s@.take(i as int) == prefix@.take(i as int),
    {
        if i == s.len() || s[i] != c {
            proof {
                if prefix@.is_prefix_of(s@) {
                    assert(prefix@[i as int] == s@[i as int]);
                }
            }
            return false;
        }
        i = i + 1;
    }
    proof {
        assert(prefix@.take(i as int) == prefix@);
        assert forall|k: int| 0 <= k < prefix@.len() implies prefix@[k] == s@[k] by {
            assert(prefix@.take(i as int)[k] == s@.take(i as int)[k]);
        }
    }
    true
}

/// Whether two texts are equal.
pub fn same_text(a: &str, b: &str) -> (r: bool)
    ensures
        r == (a@ == b@),
{
    let cs = chars_of(a);
    let n = b.unicode_len();
    if cs.len() != n {
        return false;
    }
    proof {
        assert(cs@.subrange(0, n as int) == cs@);
    }
    has_prefix(&cs, b)
}

/// The number that `s` denotes.
pub fn parse_number(s: &Vec<char>) -> (r: Option<usize>)
    ensures
        match r {
            Some(n) => number(s@) == Some(n as nat),
            None => number(s@) is None,
        },
{
    let start: usize = if s.len() > 0 && s[0] == '+' {
        1
    } else {
        0
    };
    let ghost d = s@.skip(start as int);
    proof {
        assert(d == strip_plus(s@));
    }
    if start == s.len() {
        return None;
    }
    let mut acc: usize = 0;
    let mut i: usize = start;
    while i < s.len()
        invariant
            start <= i <= s@.len(),
            d == s@.skip(start as int),
            d == strip_plus(s@),
            all_digits(d.take(i - start)),
            acc == digits_value(d.take(i - start)),
        decreases s@.len() - i,
    {
        let c = s[i];
        let ghost k = i - start;
        proof {
            assert(d[k] == c);
            assert(d.take(k + 1).drop_last() == d.take(k));
            assert(d.take(k + 1).last() == c);
        }
        if !('0' <= c && c <= '9') {
            proof {
                assert(!is_digit(d[k]));
            }
            return None;
        }
        let v: usize = (c as u32 - 48) as usize;
        if acc > (usize::MAX - v) / 10 {
            proof {
                lemma_digits_prefix(d, k + 1);
            }
            return None;
        }
        acc = acc * 10 + v;
        i = i + 1;
        proof {
            assert forall|j: int| 0 <= j < k + 1 implies is_digit(#[trigger] d.take(k + 1)[j]) by {
                if j < k {
                    assert(d.take(k)[j] == d.take(k + 1)[j]);
                }
            }
        }
    }
    proof {
        assert(d.take(i - start) == d);
    }
    Some(acc)
}

/// Appends `n` in decimal.
pub fn push_decimal(out: &mut String, n: u128)
    ensures
        final(out)@ == old(out)@ + decimal(n as nat),
    decreases n,
{
    if n >= 10 {
        push_decimal(out, n / 10);
    }
    let d: u8 = (n % 10) as u8;
    out.push((48u8 + d) as char);
}

/// Appends `n` in decimal, with a minus sign if it is negative.
pub fn push_signed(out: &mut String, n: i64)
    ensures
        final(out)@ == old(out)@ + signed_decimal(n as int),
{
    if n < 0 {
        out.append("-");
        push_decimal(out, (-(n as i128)) as u128);
    } else {
        push_decimal(out, n as u128);
    }
}

/// Appends `s`, filled up with blanks on the right to at least `width` characters.
pub fn push_padded(out: &mut String, s: &str, width: usize)
    ensures
        final(out)@ == old(out)@ + pad_right(s@, width as int),
{
    out.append(s);
    let n = s.unicode_len();
    let mut i: usize = n;
    while i < width
        invariant
            n == s@.len(),
            n <= i,
            i <= width || i == n,
            out@ == old(out)@ + s@ + blanks(i - n),
        decreases width - i,
    {
        out.push(' ');
        i = i + 1;
        proof {
            assert(blanks(i - n) == blanks(i - 1 - n).push(' '));
        }
    }
}

/// The text that `str::to_lowercase` makes of a text.
pub uninterp spec fn lowercase(s: Seq<char>) -> Seq<char>;

/// `str::to_lowercase`: the lowercase equivalent of a text, which depends on
/// the text alone.
#[verifier::external_body]
pub(crate) fn to_lower(s: &str) -> (r: String)
    ensures
        r@ == lowercase(s@),
{
    s.to_lowercase()
}

/// The words as owned strings.
pub fn command(ws: &[&str]) -> (r: Vec<String>)
    ensures
        strings(r@) == ws@.map_values(|w: &str| w@),
{
    let mut out: Vec<String> = Vec::new();
    let mut i: usize = 0;
    while i < ws.len()
        invariant
            i <= ws@.len(),
            strings(out@) == ws@.map_values(|w: &str| w@).take(i as int),
        decreases ws@.len() - i,
    {
        let ghost before = out@;
        out.push(ws[i].to_owned());
        i = i + 1;
        proof {
            assert(strings(out@) == strings(before).push(ws@[i - 1]@));
        }
    }
    out
}

/// The pieces one after the other, with `sep` between each two.
pub fn joined(pieces: &Vec<String>, sep: &str) -> (r: String)
    ensures
        r@ == join(strings(pieces@), sep@),
{
    let mut out = String::new();
    let mut i: usize = 0;
    while i < pieces.len()
        invariant
            i <= pieces@.len(),
            out@ == join(strings(pieces@).take(i as int), sep@),
        decreases pieces@.len() - i,
    {
        let ghost all = strings(pieces@);
        proof {
            lemma_join_push(all.take(i as int), all[i as int], sep@);
            assert(all.take(i as int).push(all[i as int]) == all.take(i + 1));
        }
        if i > 0 {
            out.append(sep);
        }
        out.append(pieces[i].as_str());
        i = i + 1;
    }
    proof {
        assert(strings(pieces@).take(i as int) == strings(pieces@));
    }
    out
}

} // verus!
