//! What tells the text functions apart from all others: how the result for a
//! text follows from those for its parts.

use crate::text::{
    all_digits, blanks, decimal, digits_value, find, is_space, join, lemma_decimal, lemma_run_len,
    lemma_run_len_is, lemma_trim_end_is, lines, non_space, number, other_than, pad_right, run_len,
    signed_decimal, space, strings, strip_plus, texts, trim, trim_end, trim_start, words,
};
use vstd::prelude::*;

verus! {

// ---------------------------------------------------------------------------
// Lines
// ---------------------------------------------------------------------------

/// A text without a line feed, unless it is empty, is one line.
pub proof fn unended_line_is_a_line(t: Seq<char>)
    requires
        t.len() > 0,
        !t.contains('\n'),
    ensures
        lines(t) == seq![t],
{
    assert forall|i: int| 0 <= i < t.len() implies other_than('\n')(#[trigger] t[i]) by {
        assert(t.contains(t[i]));
    }
    lemma_run_len_is(t, other_than('\n'), t.len() as int);
}

/// A line feed ends a line and does not belong to it; nor does a carriage return
/// just before it.
pub proof fn ended_line_is_a_line(t: Seq<char>)
    requires
        !t.contains('\n'),
    ensures
        t.len() == 0 || t.last() != '\r' ==> lines(t + seq!['\n']) == seq![t],
        lines(t + seq!['\r', '\n']) == seq![t],
        lines(Seq::<char>::empty()) == Seq::<Seq<char>>::empty(),
{
    assert forall|i: int| 0 <= i < t.len() implies #[trigger] t[i] != '\n' by {
        assert(t.contains(t[i]));
    }
    let n = t.len() as int;
    let a = t + seq!['\n'];
    assert forall|i: int| 0 <= i < n implies other_than('\n')(#[trigger] a[i]) by {
        assert(a[i] == t[i]);
    }
    assert(a[n] == '\n');
    lemma_run_len_is(a, other_than('\n'), n);
    assert(a.take(n) == t);
    assert(a.skip(n + 1) == Seq::<char>::empty());
    assert(lines(a.skip(n + 1)) == Seq::<Seq<char>>::empty());
    assert(seq![t] + Seq::<Seq<char>>::empty() == seq![t]);
    let b = t + seq!['\r', '\n'];
    assert forall|i: int| 0 <= i < n + 1 implies other_than('\n')(#[trigger] b[i]) by {
        if i < n {
            assert(b[i] == t[i]);
        }
    }
    assert(b[n + 1] == '\n');
    lemma_run_len_is(b, other_than('\n'), n + 1);
    assert(b.take(n + 1) == t + seq!['\r']);
    assert(b.take(n + 1).drop_last() == t);
    assert(b.skip(n + 2) == Seq::<char>::empty());
    assert(lines(b.skip(n + 2)) == Seq::<Seq<char>>::empty());
}

// ---------------------------------------------------------------------------
// Words
// ---------------------------------------------------------------------------

/// White space alone holds no word.
pub proof fn white_space_holds_no_word(s: Seq<char>)
    requires
        forall|i: int| 0 <= i < s.len() ==> is_space(#[trigger] s[i]),
    ensures
        words(s) == Seq::<Seq<char>>::empty(),
{
    assert forall|i: int| 0 <= i < s.len() implies space()(#[trigger] s[i]) by {
        assert(is_space(s[i]));
    }
    lemma_run_len_is(s, space(), s.len() as int);
}

/// A text without white space, unless it is empty, is one word.
pub proof fn unbroken_text_is_a_word(w: Seq<char>)
    requires
        w.len() > 0,
        forall|i: int| 0 <= i < w.len() ==> !is_space(#[trigger] w[i]),
    ensures
        words(w) == seq![w],
{
    assert(!space()(w[0]));
    lemma_run_len_is(w, space(), 0);
    assert(w.skip(0) == w);
    assert forall|i: int| 0 <= i < w.len() implies non_space()(#[trigger] w[i]) by {
        assert(!is_space(w[i]));
    }
    lemma_run_len_is(w, non_space(), w.len() as int);
    assert(w.take(w.len() as int) == w);
    assert(w.skip(w.len() as int) == Seq::<char>::empty());
    white_space_holds_no_word(w.skip(w.len() as int));
    assert(seq![w] + Seq::<Seq<char>>::empty() == seq![w]);
}

/// A white space character separates: the words are those before it and then
/// those behind it.
pub proof fn white_space_separates_words(a: Seq<char>, c: char, b: Seq<char>)
    requires
        is_space(c),
    ensures
        words(a + seq![c] + b) == words(a) + words(b),
    decreases a.len(),
{
    let s = a + seq![c] + b;
    let t = trim_start(a);
    let k = a.len() - t.len();
    lemma_run_len(a, space());
    if t.len() == 0 {
        let m = run_of(b);
        assert forall|i: int| 0 <= i < a.len() + 1 + m implies space()(#[trigger] s[i]) by {
            if i < a.len() {
                assert(s[i] == a[i]);
                assert(space()(a[i]));
            } else if i > a.len() {
                assert(s[i] == b[i - a.len() - 1]);
                assert(space()(b[i - a.len() - 1]));
            }
        }
        if a.len() + 1 + m < s.len() {
            assert(s[a.len() + 1 + m] == b[m]);
        }
        lemma_run_len_is(s, space(), a.len() + 1 + m);
        assert(trim_start(s) == trim_start(b));
        assert(words(a) == Seq::<Seq<char>>::empty());
        assert(words(s) == words(b));
        assert(words(a) + words(b) == words(b));
    } else {
        assert forall|i: int| 0 <= i < k implies space()(#[trigger] s[i]) by {
            assert(s[i] == a[i]);
            assert(space()(a[i]));
        }
        assert(s[k] == a[k]);
        lemma_run_len_is(s, space(), k);
        let u = t + seq![c] + b;
        assert(trim_start(s) == u);
        let n = run_len(t, non_space());
        lemma_run_len(t, non_space());
        assert(t[0] == a[k]);
        assert(n > 0) by {
            if n == 0 {
                assert(!non_space()(t[0]));
            }
        }
        assert forall|i: int| 0 <= i < n implies non_space()(#[trigger] u[i]) by {
            assert(u[i] == t[i]);
            assert(non_space()(t[i]));
        }
        if n < t.len() {
            assert(u[n] == t[n]);
        } else {
            assert(u[n] == c);
        }
        lemma_run_len_is(u, non_space(), n);
        assert(u.take(n) == t.take(n));
        assert(u.skip(n) == t.skip(n) + seq![c] + b);
        white_space_separates_words(t.skip(n), c, b);
        let first = seq![t.take(n)];
        assert(first + (words(t.skip(n)) + words(b)) == (first + words(t.skip(n))) + words(b));
    }
}

/// The length of the white space at the start of `s`.
proof fn run_of(s: Seq<char>) -> (m: int)
    ensures
        m == run_len(s, space()),
        0 <= m <= s.len(),
        forall|i: int| 0 <= i < m ==> space()(#[trigger] s[i]),
        m < s.len() ==> !space()(s[m]),
{
    lemma_run_len(s, space());
    run_len(s, space())
}

// ---------------------------------------------------------------------------
// Trimming and searching
// ---------------------------------------------------------------------------

/// Trimming gives back a text that has white space at neither end, whatever
/// white space is put around it.
pub proof fn trimming_undoes_white_space(before: Seq<char>, s: Seq<char>, after: Seq<char>)
    requires
        forall|i: int| 0 <= i < before.len() ==> is_space(#[trigger] before[i]),
        forall|i: int| 0 <= i < after.len() ==> is_space(#[trigger] after[i]),
        s.len() > 0 ==> !is_space(s[0]) && !is_space(s.last()),
    ensures
        trim(before + s + after) == s,
{
    let all = before + s + after;
    let k = before.len() as int;
    if s.len() > 0 {
        assert forall|i: int| 0 <= i < k implies space()(#[trigger] all[i]) by {
            assert(all[i] == before[i]);
        }
        assert(all[k] == s[0]);
        lemma_run_len_is(all, space(), k);
        let t = all.skip(k);
        assert(t == s + after);
        assert forall|i: int| s.len() <= i < t.len() implies is_space(#[trigger] t[i]) by {
            assert(t[i] == after[i - s.len()]);
        }
        assert(t[s.len() - 1] == s.last());
        lemma_trim_end_is(t, s.len() as int);
        assert(t.take(s.len() as int) == s);
    } else {
        assert forall|i: int| 0 <= i < all.len() implies space()(#[trigger] all[i]) by {
            if i < k {
                assert(all[i] == before[i]);
            } else {
                assert(all[i] == after[i - k]);
            }
        }
        lemma_run_len_is(all, space(), all.len() as int);
        assert(trim_start(all) == Seq::<char>::empty());
        assert(trim_end(Seq::<char>::empty()) == Seq::<char>::empty());
        assert(s == Seq::<char>::empty());
    }
}

/// What is found is the first place of the character, or the end where it does
/// not occur.
pub proof fn first_place_is_found(before: Seq<char>, c: char, after: Seq<char>)
    requires
        !before.contains(c),
    ensures
        find(before + seq![c] + after, c) == before.len(),
        find(before, c) == before.len(),
{
    let s = before + seq![c] + after;
    assert forall|i: int| 0 <= i < before.len() implies #[trigger] before[i] != c by {
        assert(before.contains(before[i]));
    }
    assert forall|i: int| 0 <= i < before.len() implies other_than(c)(#[trigger] s[i]) by {
        assert(s[i] == before[i]);
    }
    assert(s[before.len() as int] == c);
    lemma_run_len_is(s, other_than(c), before.len() as int);
    lemma_run_len_is(before, other_than(c), before.len() as int);
}

// ---------------------------------------------------------------------------
// Numbers
// ---------------------------------------------------------------------------

/// A number below ten is written as its digit; a larger one as what it is in
/// tens, followed by its last digit.
pub proof fn numbers_are_written_digit_by_digit(n: nat, d: nat)
    requires
        d < 10,
    ensures
        decimal(d) == seq!["0123456789"@[d as int]],
        n > 0 ==> decimal(10 * n + d) == decimal(n).push("0123456789"@[d as int]),
{
    reveal_strlit("0123456789");
    assert((10 * n + d) / 10 == n && (10 * n + d) % 10 == d);
}

/// No number but zero is written with a leading zero.
pub proof fn no_leading_zero(n: nat)
    requires
        n > 0,
    ensures
        decimal(n)[0] != '0',
    decreases n,
{
    if n >= 10 {
        no_leading_zero(n / 10);
        lemma_decimal(n / 10);
        assert(decimal(n)[0] == decimal(n / 10)[0]);
    }
}

/// A negative number is written with a minus sign in front of its opposite, any
/// other without a sign.
pub proof fn minus_sign_is_for_negative_numbers(n: nat)
    ensures
        signed_decimal(n as int) == decimal(n),
        n > 0 ==> signed_decimal(-(n as int)) == seq!['-'] + decimal(n),
{
    reveal_strlit("-");
    assert("-"@ == seq!['-']);
}

/// A single digit denotes its value; a further digit behind a number in digits
/// makes it ten times as much plus that digit, where a `usize` can hold that.
pub proof fn numbers_are_read_digit_by_digit(s: Seq<char>, c: char)
    requires
        '0' <= c <= '9',
        forall|i: int| 0 <= i < s.len() ==> '0' <= #[trigger] s[i] <= '9',
    ensures
        number(seq![c]) == Some((c as int - '0' as int) as nat),
        s.len() > 0 ==> (match number(s) {
            Some(n) => if 10 * n + (c as int - '0' as int) <= usize::MAX {
                number(s.push(c)) == Some((10 * n + (c as int - '0' as int)) as nat)
            } else {
                number(s.push(c)) is None
            },
            None => number(s.push(c)) is None,
        }),
{
    let one = seq![c];
    assert(one.drop_last() == Seq::<char>::empty());
    assert(digits_value(one.drop_last()) == 0);
    assert(digits_value(one) == c as nat - 48);
    assert(all_digits(one));
    let t = s.push(c);
    assert(t.drop_last() == s);
    assert(digits_value(t) == 10 * digits_value(s) + (c as nat - 48));
    assert(all_digits(s));
    assert(all_digits(t));
    if s.len() > 0 {
        assert('0' <= s[0] <= '9');
        assert(t[0] == s[0]);
        assert(strip_plus(t) == t && strip_plus(s) == s);
    }
}

/// One leading plus sign makes no difference. What is empty, is a plus sign
/// alone, or holds anything but digits behind it denotes no number.
pub proof fn only_digits_make_a_number(s: Seq<char>)
    ensures
        s.len() == 0 || s[0] != '+' ==> number(seq!['+'] + s) == number(s),
        s.len() == 0 ==> number(s) is None,
        (exists|i: int| 0 < i < s.len() && !('0' <= #[trigger] s[i] <= '9')) ==> number(s) is None,
        s.len() > 0 && s[0] != '+' && !('0' <= s[0] <= '9') ==> number(s) is None,
{
    let p = seq!['+'] + s;
    assert(p.skip(1) == s);
    assert(p[0] == '+');
    if exists|i: int| 0 < i < s.len() && !('0' <= #[trigger] s[i] <= '9') {
        let i = choose|i: int| 0 < i < s.len() && !('0' <= #[trigger] s[i] <= '9');
        let d = strip_plus(s);
        if s[0] == '+' {
            assert(d[i - 1] == s[i]);
            assert(!all_digits(d));
        } else {
            assert(!all_digits(d));
        }
    }
    if s.len() > 0 && s[0] != '+' && !('0' <= s[0] <= '9') {
        assert(!all_digits(s));
    }
}

// ---------------------------------------------------------------------------
// Padding and joining
// ---------------------------------------------------------------------------

/// A padded text starts with the text, has nothing but blanks behind it, and is
/// as long as the text or the width, whichever is more.
pub proof fn padding_adds_blanks_behind(s: Seq<char>, width: int)
    ensures
        pad_right(s, width).len() == if s.len() < width {
            width
        } else {
            s.len() as int
        },
        pad_right(s, width).take(s.len() as int) == s,
        forall|i: int|
            s.len() <= i < pad_right(s, width).len() ==> #[trigger] pad_right(s, width)[i] == ' ',
        forall|i: int| 0 <= i < width ==> #[trigger] blanks(width)[i] == ' ',
{
}

/// One piece is joined to itself; the pieces of two lists are joined to those of
/// the first and those of the second with the separator between.
pub proof fn pieces_are_joined_in_order(a: Seq<Seq<char>>, b: Seq<Seq<char>>, sep: Seq<char>)
    ensures
        a.len() == 1 ==> join(a, sep) == a[0],
        a.len() == 0 ==> join(a, sep) == Seq::<char>::empty(),
        a.len() > 0 && b.len() > 0 ==> join(a + b, sep) == join(a, sep) + sep + join(b, sep),
    decreases b.len(),
{
    if a.len() > 0 && b.len() > 0 {
        let all = a + b;
        assert(all.drop_last() == a + b.drop_last());
        assert(all.last() == b.last());
        pieces_are_joined_in_order(a, b.drop_last(), sep);
        if b.len() == 1 {
            assert(a + b.drop_last() == a);
        } else {
            assert(join(all, sep) == join(a, sep) + sep + join(b.drop_last(), sep) + sep + b.last());
            assert(join(b, sep) == join(b.drop_last(), sep) + sep + b.last());
            assert(join(all, sep) =~= join(a, sep) + sep + join(b, sep));
        }
    }
}

/// The views of strings and of character vectors are those of each, in order.
pub proof fn views_are_taken_one_by_one(v: Seq<String>, w: Seq<Vec<char>>)
    ensures
        strings(v).len() == v.len(),
        forall|i: int| 0 <= i < v.len() ==> #[trigger] strings(v)[i] == v[i]@,
        texts(w).len() == w.len(),
        forall|i: int| 0 <= i < w.len() ==> #[trigger] texts(w)[i] == w[i]@,
{
}

} // verus!
