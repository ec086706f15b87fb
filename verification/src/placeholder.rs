//! Placeholders in a text: where a token occurs, and what the replacement of
//! one placeholder does to the occurrences of the others.

use crate::text::{decimal_text, digit_char, digits_text, joined, replaced, zero_padded};
use vstd::prelude::*;

verus! {

/// `token` stands in `text` at position `at`.
pub open spec fn occurs_at(text: Seq<char>, token: Seq<char>, at: int) -> bool {
    &&& 0 <= at
    &&& at + token.len() <= text.len()
    &&& text.subrange(at, at + token.len()) == token
}

/// `token` stands somewhere in `text`.
pub open spec fn occurs_in(text: Seq<char>, token: Seq<char>) -> bool {
    exists|at: int| occurs_at(text, token, at)
}

pub open spec fn is_brace(c: char) -> bool {
    c == '{' || c == '}'
}

/// A character that numbers and dates are written with.
pub open spec fn is_figure(c: char) -> bool {
    c == '0' || c == '1' || c == '2' || c == '3' || c == '4' || c == '5' || c == '6' || c == '7'
        || c == '8' || c == '9' || c == '.' || c == '-' || c == '+'
}

/// A text that is not empty and written with figures only.
pub open spec fn is_figures(text: Seq<char>) -> bool {
    &&& text.len() > 0
    &&& forall|i: int| 0 <= i < text.len() ==> is_figure(#[trigger] text[i])
}

/// A name between braces, the name without braces and figures.
pub open spec fn is_placeholder(token: Seq<char>) -> bool {
    &&& token.len() >= 2
    &&& token[0] == '{'
    &&& token[token.len() - 1] == '}'
    &&& forall|i: int|
        1 <= i < token.len() - 1 ==> !is_brace(#[trigger] token[i]) && !is_figure(token[i])
}

/// Figures behind figures are figures.
pub proof fn lemma_figures_join(a: Seq<char>, b: Seq<char>)
    requires
        is_figures(a),
        is_figures(b),
    ensures
        is_figures(a + b),
{
    assert forall|i: int| 0 <= i < (a + b).len() implies is_figure(#[trigger] (a + b)[i]) by {
        if i < a.len() {
            assert((a + b)[i] == a[i]);
        } else {
            assert((a + b)[i] == b[i - a.len()]);
        }
    }
}

/// The digits of a number are figures.
pub proof fn lemma_digits_are_figures(n: nat)
    ensures
        is_figures(digits_text(n)),
    decreases n,
{
    if n >= 10 {
        lemma_digits_are_figures(n / 10);
        assert(digits_text(n) =~= digits_text(n / 10) + seq![digit_char((n % 10) as int)]);
        lemma_figures_join(digits_text(n / 10), seq![digit_char((n % 10) as int)]);
    }
}

/// A number in decimal form is written with figures.
pub proof fn lemma_decimal_is_figures(n: int)
    ensures
        is_figures(decimal_text(n)),
{
    if n < 0 {
        lemma_digits_are_figures((-n) as nat);
        lemma_figures_join(seq!['-'], digits_text((-n) as nat));
    } else {
        lemma_digits_are_figures(n as nat);
    }
}

/// A number with zeros in front is written with figures.
pub proof fn lemma_zero_padded_is_figures(n: nat, width: nat)
    ensures
        is_figures(zero_padded(n, width)),
{
    lemma_digits_are_figures(n);
    let digits = digits_text(n);
    if digits.len() < width {
        lemma_figures_join(Seq::new((width - digits.len()) as nat, |i: int| '0'), digits);
    }
}

/// `c` stands nowhere in `text`.
pub open spec fn lacks(text: Seq<char>, c: char) -> bool {
    forall|i: int| 0 <= i < text.len() ==> text[i] != c
}

/// Figures are no braces.
pub proof fn lemma_figures_lack_braces(text: Seq<char>)
    requires
        is_figures(text),
    ensures
        lacks(text, '{'),
        lacks(text, '}'),
{
    assert forall|i: int| 0 <= i < text.len() implies text[i] != '{' && text[i] != '}' by {
        assert(is_figure(text[i]));
    }
}

/// A token stands nowhere in a text without its first character.
pub proof fn lemma_lacking_the_first(text: Seq<char>, token: Seq<char>)
    requires
        token.len() > 0,
        lacks(text, token[0]),
    ensures
        !occurs_in(text, token),
{
    if occurs_in(text, token) {
        let at = choose|at: int| occurs_at(text, token, at);
        assert(text.subrange(at, at + token.len())[0] == text[at]);
    }
}

/// How many characters stand in `text` before the first `c`.
pub open spec fn prefix_without(text: Seq<char>, c: char) -> int
    decreases text.len(),
{
    if text.len() == 0 || text[0] == c {
        0
    } else {
        1 + prefix_without(text.skip(1), c)
    }
}

/// The prefix before the first `c` holds no `c`, and ends where the text ends
/// or a `c` stands.
pub proof fn lemma_prefix_without(text: Seq<char>, c: char)
    ensures
        0 <= prefix_without(text, c) <= text.len(),
        forall|i: int| 0 <= i < prefix_without(text, c) ==> text[i] != c,
        prefix_without(text, c) < text.len() ==> text[prefix_without(text, c)] == c,
    decreases text.len(),
{
    if text.len() == 0 || text[0] == c {
    } else {
        let tail = text.skip(1);
        lemma_prefix_without(tail, c);
        assert forall|i: int| 0 <= i < prefix_without(text, c) implies text[i] != c by {
            if i > 0 {
                assert(tail[i - 1] == text[i]);
            }
        }
        if prefix_without(text, c) < text.len() {
            assert(tail[prefix_without(tail, c)] == text[prefix_without(text, c)]);
        }
    }
}

/// Where no occurrence of the token begins in the first `n` places, these are
/// kept as they are.
pub proof fn lemma_replaced_keeps_unmatched(
    text: Seq<char>,
    token: Seq<char>,
    value: Seq<char>,
    n: int,
)
    requires
        token.len() > 0,
        0 <= n <= text.len(),
        forall|at: int| 0 <= at < n ==> !occurs_at(text, token, at),
    ensures
        replaced(text, token, value) == text.take(n) + replaced(text.skip(n), token, value),
    decreases n,
{
    if n == 0 {
        assert(text.skip(0) =~= text);
        assert(text.take(0) + replaced(text, token, value) =~= replaced(text, token, value));
    } else if text.len() < token.len() {
        assert(text.take(n) + text.skip(n) =~= text);
    } else {
        let tail = text.skip(1);
        assert(!occurs_at(text, token, 0));
        assert forall|at: int| 0 <= at < n - 1 implies !occurs_at(tail, token, at) by {
            assert(!occurs_at(text, token, at + 1));
            if at + token.len() <= tail.len() {
                assert(tail.subrange(at, at + token.len()) =~= text.subrange(
                    at + 1,
                    at + 1 + token.len(),
                ));
            }
        }
        lemma_replaced_keeps_unmatched(tail, token, value, n - 1);
        assert(tail.skip(n - 1) =~= text.skip(n));
        assert(seq![text[0]] + tail.take(n - 1) =~= text.take(n));
        assert(seq![text[0]] + (tail.take(n - 1) + replaced(text.skip(n), token, value))
            =~= text.take(n) + replaced(text.skip(n), token, value));
    }
}

/// No occurrence of a token begins where its first character does not stand:
/// a prefix without that character is kept as it is.
pub proof fn lemma_replaced_keeps_prefix(
    text: Seq<char>,
    token: Seq<char>,
    value: Seq<char>,
    n: int,
)
    requires
        token.len() > 0,
        0 <= n <= text.len(),
        forall|i: int| 0 <= i < n ==> text[i] != token[0],
    ensures
        replaced(text, token, value) == text.take(n) + replaced(text.skip(n), token, value),
{
    assert forall|at: int| 0 <= at < n implies !occurs_at(text, token, at) by {
        if occurs_at(text, token, at) {
            assert(text.subrange(at, at + token.len())[0] == text[at]);
        }
    }
    lemma_replaced_keeps_unmatched(text, token, value, n);
}

/// An occurrence begins with the token's first character, so none begins in a
/// prefix without it.
pub proof fn lemma_occurs_behind_prefix(prefix: Seq<char>, rest: Seq<char>, token: Seq<char>)
    requires
        token.len() > 0,
        forall|i: int| 0 <= i < prefix.len() ==> prefix[i] != token[0],
    ensures
        occurs_in(prefix + rest, token) <==> occurs_in(rest, token),
{
    let whole = prefix + rest;
    if occurs_in(rest, token) {
        let at = choose|at: int| occurs_at(rest, token, at);
        assert(whole.subrange(at + prefix.len(), at + prefix.len() + token.len())
            =~= rest.subrange(at, at + token.len()));
        assert(occurs_at(whole, token, at + prefix.len()));
    }
    if occurs_in(whole, token) {
        let at = choose|at: int| occurs_at(whole, token, at);
        assert(whole.subrange(at, at + token.len())[0] == whole[at]);
        if at < prefix.len() {
            assert(whole[at] == prefix[at]);
        }
        assert(rest.subrange(at - prefix.len(), at - prefix.len() + token.len())
            =~= whole.subrange(at, at + token.len()));
        assert(occurs_at(rest, token, at - prefix.len()));
    }
}

/// A token occurs in a text at its start or in what follows the first
/// character.
pub proof fn lemma_occurs_first_or_later(text: Seq<char>, token: Seq<char>)
    requires
        text.len() > 0,
    ensures
        occurs_in(text, token) <==> occurs_at(text, token, 0) || occurs_in(text.skip(1), token),
{
    let tail = text.skip(1);
    if occurs_in(tail, token) {
        let at = choose|at: int| occurs_at(tail, token, at);
        assert(text.subrange(at + 1, at + 1 + token.len()) =~= tail.subrange(
            at,
            at + token.len(),
        ));
        assert(occurs_at(text, token, at + 1));
    }
    if occurs_in(text, token) {
        let at = choose|at: int| occurs_at(text, token, at);
        if at > 0 {
            assert(tail.subrange(at - 1, at - 1 + token.len()) =~= text.subrange(
                at,
                at + token.len(),
            ));
            assert(occurs_at(tail, token, at - 1));
        }
    }
}

/// Two placeholders that stand at the same place are the same placeholder.
pub proof fn lemma_one_placeholder_at_a_place(
    text: Seq<char>,
    a: Seq<char>,
    b: Seq<char>,
    at: int,
)
    requires
        is_placeholder(a),
        is_placeholder(b),
        occurs_at(text, a, at),
        occurs_at(text, b, at),
    ensures
        a == b,
{
    let in_a = text.subrange(at, at + a.len());
    let in_b = text.subrange(at, at + b.len());
    if a.len() < b.len() {
        assert(in_a[a.len() - 1] == text[at + a.len() - 1]);
        assert(in_b[a.len() - 1] == text[at + a.len() - 1]);
        assert(is_brace(b[a.len() - 1]));
    } else if b.len() < a.len() {
        assert(in_a[b.len() - 1] == text[at + b.len() - 1]);
        assert(in_b[b.len() - 1] == text[at + b.len() - 1]);
        assert(is_brace(a[b.len() - 1]));
    } else {
        assert(a =~= b);
    }
}

/// Where a text begins with an opening brace at which `token` does not stand,
/// a placeholder stands at the start after the replacement exactly when it
/// stood there before it.
proof fn lemma_front_stays(text: Seq<char>, token: Seq<char>, value: Seq<char>, other: Seq<char>)
    requires
        is_placeholder(token),
        is_placeholder(other),
        is_figures(value),
        text.len() > 0,
        text[0] == '{',
    ensures
        occurs_at(seq![text[0]] + replaced(text.skip(1), token, value), other, 0) <==> occurs_at(
            text,
            other,
            0,
        ),
{
    let tail = text.skip(1);
    let out = seq![text[0]] + replaced(tail, token, value);
    let inner = other.len() - 1;
    let m = prefix_without(tail, '{');
    lemma_prefix_without(tail, '{');
    if m >= inner {
        lemma_replaced_keeps_prefix(tail, token, value, inner);
        assert(out.subrange(0, other.len() as int) =~= text.subrange(0, other.len() as int));
    } else {
        lemma_replaced_keeps_prefix(tail, token, value, m);
        let rest = tail.skip(m);
        let after = replaced(rest, token, value);
        assert(out =~= text.take(m + 1) + after) by {
            assert(seq![text[0]] + tail.take(m) =~= text.take(m + 1));
        }
        if m == tail.len() {
            assert(rest =~= Seq::<char>::empty());
            assert(out =~= text);
        } else {
            assert(rest[0] == tail[m]);
            assert(text[m + 1] == '{');
            assert(!is_brace(other[m + 1]) || other[m + 1] == '}');
            // what follows the kept prefix begins with a brace or with the value
            assert(after.len() > 0 && (after[0] == '{' || after[0] == value[0])) by {
                if rest.len() < token.len() {
                } else if rest.take(token.len() as int) == token {
                } else {
                }
            }
            assert(is_figure(value[0]));
            if occurs_at(text, other, 0) {
                assert(text.subrange(0, other.len() as int)[m + 1] == text[m + 1]);
            }
            if occurs_at(out, other, 0) {
                assert(out.subrange(0, other.len() as int)[m + 1] == out[m + 1]);
                assert(out[m + 1] == after[0]);
            }
        }
    }
}

/// After the replacement of a placeholder by figures, that placeholder stands
/// nowhere in the text, and every other placeholder stands in it exactly when
/// it stood in the text before.
pub proof fn lemma_replaced_placeholder(
    text: Seq<char>,
    token: Seq<char>,
    value: Seq<char>,
    other: Seq<char>,
)
    requires
        is_placeholder(token),
        is_placeholder(other),
        is_figures(value),
    ensures
        occurs_in(replaced(text, token, value), other) <==> (other != token && occurs_in(
            text,
            other,
        )),
    decreases text.len(),
{
    let n = prefix_without(text, '{');
    lemma_prefix_without(text, '{');
    let out = replaced(text, token, value);
    if n > 0 {
        let prefix = text.take(n);
        let rest = text.skip(n);
        lemma_replaced_keeps_prefix(text, token, value, n);
        lemma_replaced_placeholder(rest, token, value, other);
        lemma_occurs_behind_prefix(prefix, replaced(rest, token, value), other);
        lemma_occurs_behind_prefix(prefix, rest, other);
        assert(prefix + rest =~= text);
    } else if text.len() == 0 {
    } else if occurs_at(text, token, 0) {
        let rest = text.skip(token.len() as int);
        assert(text.take(token.len() as int) == token);
        lemma_replaced_placeholder(rest, token, value, other);
        lemma_occurs_behind_prefix(value, replaced(rest, token, value), other);
        if other != token {
            if occurs_in(text, other) {
                let at = choose|at: int| occurs_at(text, other, at);
                assert(text.subrange(at, at + other.len())[0] == text[at]);
                if at == 0 {
                    lemma_one_placeholder_at_a_place(text, token, other, 0);
                } else if at < token.len() {
                    assert(text.subrange(0, token.len() as int)[at] == text[at]);
                    assert(is_brace(token[at]));
                } else {
                    assert(rest.subrange(at - token.len(), at - token.len() + other.len())
                        =~= text.subrange(at, at + other.len()));
                    assert(occurs_at(rest, other, at - token.len()));
                }
            }
            if occurs_in(rest, other) {
                let at = choose|at: int| occurs_at(rest, other, at);
                assert(text.subrange(at + token.len(), at + token.len() + other.len())
                    =~= rest.subrange(at, at + other.len()));
                assert(occurs_at(text, other, at + token.len()));
            }
        }
    } else if text.len() < token.len() {
    } else {
        let tail = text.skip(1);
        assert(out == seq![text[0]] + replaced(tail, token, value));
        lemma_replaced_placeholder(tail, token, value, other);
        lemma_front_stays(text, token, value, other);
        lemma_occurs_first_or_later(text, other);
        lemma_occurs_first_or_later(out, other);
        assert(out.skip(1) =~= replaced(tail, token, value));
    }
}

/// Where no occurrence of the token can reach from a text into the one behind
/// it, the replacement in both is the replacement in each.
pub proof fn lemma_replaced_splits(
    front: Seq<char>,
    back: Seq<char>,
    token: Seq<char>,
    value: Seq<char>,
)
    requires
        token.len() > 0,
        back.len() == 0 || forall|k: int| 1 <= k < token.len() ==> token[k] != back[0],
    ensures
        replaced(front + back, token, value) == replaced(front, token, value) + replaced(
            back,
            token,
            value,
        ),
    decreases front.len(),
{
    let whole = front + back;
    let n = token.len() as int;
    let done_back = replaced(back, token, value);
    if front.len() == 0 {
        assert(whole =~= back);
        assert(Seq::<char>::empty() + done_back =~= done_back);
    } else if whole.len() < n {
    } else if whole.take(n) == token {
        if n <= front.len() {
            let rest = front.skip(n);
            assert(front.take(n) =~= whole.take(n));
            lemma_replaced_splits(rest, back, token, value);
            assert(whole.skip(n) =~= rest + back);
            assert(value + (replaced(rest, token, value) + done_back) =~= (value + replaced(
                rest,
                token,
                value,
            )) + done_back);
        } else {
            assert(whole.take(n)[front.len() as int] == whole[front.len() as int]);
            assert(whole[front.len() as int] == back[0]);
        }
    } else {
        let rest = front.skip(1);
        lemma_replaced_splits(rest, back, token, value);
        assert(whole.skip(1) =~= rest + back);
        if front.len() < n {
            assert(seq![front[0]] + rest =~= front);
        } else {
            assert(front.take(n) =~= whole.take(n));
        }
        assert(seq![whole[0]] + (replaced(rest, token, value) + done_back) =~= (seq![front[0]]
            + replaced(rest, token, value)) + done_back);
    }
}

/// `c` is no character of `token`.
pub open spec fn foreign(c: char, token: Seq<char>) -> bool {
    forall|k: int| 0 <= k < token.len() ==> token[k] != c
}

/// Two texts without a token, one behind the other, are without it where a
/// character that the token does not hold stands at the seam: at the end of
/// the first or at the start of the second.
pub proof fn lemma_seam(front: Seq<char>, back: Seq<char>, token: Seq<char>)
    requires
        token.len() > 0,
        !occurs_in(front, token),
        !occurs_in(back, token),
        (front.len() > 0 && foreign(front.last(), token)) || (back.len() > 0 && foreign(
            back[0],
            token,
        )),
    ensures
        !occurs_in(front + back, token),
{
    let whole = front + back;
    if occurs_in(whole, token) {
        let at = choose|at: int| occurs_at(whole, token, at);
        let found = whole.subrange(at, at + token.len());
        if at + token.len() <= front.len() {
            assert(front.subrange(at, at + token.len()) =~= found);
            assert(occurs_at(front, token, at));
        } else if at >= front.len() {
            assert(back.subrange(at - front.len(), at - front.len() + token.len()) =~= found);
            assert(occurs_at(back, token, at - front.len()));
        } else {
            assert(found[front.len() - at] == whole[front.len() as int]);
            assert(whole[front.len() as int] == back[0]);
            if at < front.len() {
                assert(found[front.len() - 1 - at] == whole[front.len() - 1]);
                assert(whole[front.len() - 1] == front.last());
            }
        }
    }
}

/// What stands behind the first character of a text without a token is
/// without it.
pub proof fn lemma_rest_is_free(text: Seq<char>, token: Seq<char>, from: int)
    requires
        0 <= from <= text.len(),
        !occurs_in(text, token),
    ensures
        !occurs_in(text.skip(from), token),
{
    let rest = text.skip(from);
    if occurs_in(rest, token) {
        let at = choose|at: int| occurs_at(rest, token, at);
        assert(text.subrange(at + from, at + from + token.len()) =~= rest.subrange(
            at,
            at + token.len(),
        ));
        assert(occurs_at(text, token, at + from));
    }
}

/// Where a single character is replaced by a value of characters that a token
/// does not hold, the token stands nowhere in the result that did not stand
/// in the text.
pub proof fn lemma_replaced_stays_free(
    text: Seq<char>,
    mark: Seq<char>,
    value: Seq<char>,
    token: Seq<char>,
)
    requires
        mark.len() == 1,
        token.len() > 0,
        value.len() > 0,
        forall|i: int| 0 <= i < value.len() ==> foreign(#[trigger] value[i], token),
        !occurs_in(text, token),
    ensures
        !occurs_in(replaced(text, mark, value), token),
    decreases text.len(),
{
    if text.len() > 0 {
        let rest = text.skip(1);
        let done = replaced(rest, mark, value);
        lemma_rest_is_free(text, token, 1);
        lemma_replaced_stays_free(rest, mark, value, token);
        if text.take(1) == mark {
            assert(!occurs_in(value, token)) by {
                if occurs_in(value, token) {
                    let at = choose|at: int| occurs_at(value, token, at);
                    assert(value.subrange(at, at + token.len())[0] == value[at]);
                    assert(foreign(value[at], token));
                }
            }
            assert(foreign(value.last(), token));
            lemma_seam(value, done, token);
        } else {
            let out = seq![text[0]] + done;
            assert(text.take(1)[0] == text[0]);
            assert(replaced(text, mark, value) == out);
            lemma_occurs_first_or_later(out, token);
            assert(out.skip(1) =~= done);
            if occurs_at(out, token, 0) {
                let found = out.subrange(0, token.len() as int);
                let m = prefix_without(rest, mark[0]);
                lemma_prefix_without(rest, mark[0]);
                lemma_replaced_keeps_prefix(rest, mark, value, m);
                let behind = replaced(rest.skip(m), mark, value);
                assert(out =~= text.take(m + 1) + behind) by {
                    assert(seq![text[0]] + rest.take(m) =~= text.take(m + 1));
                }
                if token.len() <= m + 1 {
                    assert(text.subrange(0, token.len() as int) =~= found);
                    assert(occurs_at(text, token, 0));
                } else if m == rest.len() {
                    assert(rest.skip(m) =~= Seq::<char>::empty());
                } else {
                    assert(rest.skip(m)[0] == rest[m]);
                    assert(rest.skip(m).take(1) =~= mark);
                    assert(behind[0] == value[0]);
                    assert(found[m + 1] == out[m + 1]);
                    assert(out[m + 1] == behind[0]);
                    assert(foreign(value[0], token));
                }
            }
        }
    } else {
    }
}

/// Lines without a token, joined by a separator of characters that the token
/// does not hold, are without it.
pub proof fn lemma_joined_stays_free(
    lines: Seq<Seq<char>>,
    separator: Seq<char>,
    token: Seq<char>,
)
    requires
        token.len() > 0,
        separator.len() > 0,
        forall|i: int| 0 <= i < separator.len() ==> foreign(#[trigger] separator[i], token),
        forall|i: int| 0 <= i < lines.len() ==> !occurs_in(#[trigger] lines[i], token),
    ensures
        !occurs_in(joined(lines, separator), token),
    decreases lines.len(),
{
    if lines.len() >= 2 {
        let before = lines.drop_last();
        assert forall|i: int| 0 <= i < before.len() implies !occurs_in(
            #[trigger] before[i],
            token,
        ) by {
            assert(before[i] == lines[i]);
        }
        lemma_joined_stays_free(before, separator, token);
        assert(!occurs_in(separator, token)) by {
            if occurs_in(separator, token) {
                let at = choose|at: int| occurs_at(separator, token, at);
                assert(separator.subrange(at, at + token.len())[0] == separator[at]);
                assert(foreign(separator[at], token));
            }
        }
        assert(foreign(separator[0], token));
        lemma_seam(joined(before, separator), separator, token);
        let front = joined(before, separator) + separator;
        assert(front.last() == separator.last());
        assert(foreign(separator.last(), token));
        assert(!occurs_in(lines.last(), token));
        lemma_seam(front, lines.last(), token);
    } else if lines.len() == 1 {
        assert(!occurs_in(lines[0], token));
    } else {
        let none = joined(lines, separator);
        if occurs_in(none, token) {
            let at = choose|at: int| occurs_at(none, token, at);
        }
    }
}

/// A piece of a text: fixed text without an opening brace, a placeholder, or
/// text of any kind.
pub enum Piece {
    Plain(Seq<char>),
    Token(Seq<char>),
    Free(Seq<char>),
}

impl Piece {
    pub open spec fn text(self) -> Seq<char> {
        match self {
            Piece::Plain(text) => text,
            Piece::Token(text) => text,
            Piece::Free(text) => text,
        }
    }

    /// The piece after `token` was replaced by `value` in it.
    pub open spec fn filled(self, token: Seq<char>, value: Seq<char>) -> Piece {
        match self {
            Piece::Plain(text) => self,
            Piece::Token(text) => if text == token {
                Piece::Plain(value)
            } else {
                self
            },
            Piece::Free(text) => Piece::Free(replaced(text, token, value)),
        }
    }
}

/// The pieces after `token` was replaced by `value` in each.
pub open spec fn filled_all(pieces: Seq<Piece>, token: Seq<char>, value: Seq<char>) -> Seq<Piece> {
    pieces.map_values(|piece: Piece| piece.filled(token, value))
}

/// The pieces one behind the other.
pub open spec fn flat(pieces: Seq<Piece>) -> Seq<char>
    decreases pieces.len(),
{
    if pieces.len() == 0 {
        Seq::empty()
    } else {
        pieces[0].text() + flat(pieces.skip(1))
    }
}

/// Each piece is what it is said to be, and text of any kind is followed by
/// fixed text whose first character is none of those that follow the opening
/// brace of `token`.
pub open spec fn well_cut(pieces: Seq<Piece>, token: Seq<char>) -> bool {
    forall|i: int|
        0 <= i < pieces.len() ==> match #[trigger] pieces[i] {
            Piece::Plain(text) => lacks(text, '{'),
            Piece::Token(text) => is_placeholder(text),
            Piece::Free(text) => i + 1 < pieces.len() && pieces[i + 1] is Plain && pieces[i
                + 1].text().len() > 0 && forall|k: int|
                1 <= k < token.len() ==> token[k] != pieces[i + 1].text()[0],
        }
}

/// In a text that is cut into pieces, a placeholder is replaced piece by
/// piece.
pub proof fn lemma_replaced_in_pieces(pieces: Seq<Piece>, token: Seq<char>, value: Seq<char>)
    requires
        is_placeholder(token),
        well_cut(pieces, token),
    ensures
        replaced(flat(pieces), token, value) == flat(filled_all(pieces, token, value)),
    decreases pieces.len(),
{
    let filled = filled_all(pieces, token, value);
    if pieces.len() > 0 {
        let first = pieces[0];
        let rest = pieces.skip(1);
        let behind = flat(rest);
        assert forall|i: int| 0 <= i < rest.len() implies match #[trigger] rest[i] {
            Piece::Plain(text) => lacks(text, '{'),
            Piece::Token(text) => is_placeholder(text),
            Piece::Free(text) => i + 1 < rest.len() && rest[i + 1] is Plain && rest[i
                + 1].text().len() > 0 && forall|k: int|
                1 <= k < token.len() ==> token[k] != rest[i + 1].text()[0],
        } by {
            assert(rest[i] == pieces[i + 1]);
            if i + 1 < rest.len() {
                assert(rest[i + 1] == pieces[i + 2]);
            }
        }
        lemma_replaced_in_pieces(rest, token, value);
        assert(filled.skip(1) =~= filled_all(rest, token, value));
        assert(filled[0] == first.filled(token, value));
        let whole = first.text() + behind;
        match first {
            Piece::Plain(text) => {
                assert forall|i: int| 0 <= i < text.len() implies whole[i] != token[0] by {
                    assert(whole[i] == text[i]);
                }
                lemma_replaced_keeps_prefix(whole, token, value, text.len() as int);
                assert(whole.take(text.len() as int) =~= text);
                assert(whole.skip(text.len() as int) =~= behind);
            },
            Piece::Token(text) => {
                assert(whole.take(text.len() as int) =~= text);
                assert(whole.skip(text.len() as int) =~= behind);
                if text != token {
                    assert(occurs_at(whole, text, 0)) by {
                        assert(whole.subrange(0, text.len() as int) =~= text);
                    }
                    assert forall|at: int| 0 <= at < text.len() implies !occurs_at(
                        whole,
                        token,
                        at,
                    ) by {
                        if occurs_at(whole, token, at) {
                            assert(whole.subrange(at, at + token.len())[0] == whole[at]);
                            assert(whole[at] == text[at]);
                            if at == 0 {
                                lemma_one_placeholder_at_a_place(whole, text, token, 0);
                            } else if at < text.len() - 1 {
                                assert(is_brace(text[at]));
                            }
                        }
                    }
                    lemma_replaced_keeps_unmatched(whole, token, value, text.len() as int);
                }
            },
            Piece::Free(text) => {
                assert(rest[0] == pieces[1]);
                assert(behind[0] == pieces[1].text()[0]);
                lemma_replaced_splits(text, behind, token, value);
            },
        }
    }
}

} // verus!
