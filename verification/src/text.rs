//! Text as sequences of characters: numbers in decimal form, lines joined by
//! a separator, and the replacement of a token by a value.

use vstd::prelude::*;

verus! {

/// `String::push` appends the character to the end of the string.
pub assume_specification[ String::push ](s: &mut String, c: char)
    ensures
        final(s)@ == old(s)@.push(c),
;

/// The characters of `text`, in order.
pub fn chars_of(text: &str) -> (chars: Vec<char>)
    ensures
        chars@ == text@,
{
    let mut chars: Vec<char> = Vec::new();
    for c in it: text.chars()
        invariant
            it.seq() == text@,
            chars@ == text@.take(it.index()),
    {
        chars.push(c);
    }
    chars
}

/// The string made of `chars`, in order.
pub fn string_of(chars: &Vec<char>) -> (text: String)
    ensures
        text@ == chars@,
{
    let mut text = String::new();
    let mut i: usize = 0;
    while i < chars.len()
        invariant
            i <= chars.len(),
            text@ == chars@.take(i as int),
        decreases chars.len() - i,
    {
        text.push(chars[i]);
        i += 1;
    }
    text
}

/// Whether the two texts hold the same characters.
pub fn same_text(a: &str, b: &str) -> (same: bool)
    ensures
        same == (a@ == b@),
{
    let a_chars = chars_of(a);
    let b_chars = chars_of(b);
    if a_chars.len() != b_chars.len() {
        return false;
    }
    let mut i: usize = 0;
    while i < a_chars.len()
        invariant
            i <= a_chars.len(),
            a_chars.len() == b_chars.len(),
            a_chars@ == a@,
            b_chars@ == b@,
            forall|j: int| 0 <= j < i ==> a_chars@[j] == b_chars@[j],
        decreases a_chars.len() - i,
    {
        if a_chars[i] != b_chars[i] {
            assert(a@[i as int] != b@[i as int]);
            return false;
        }
        i += 1;
    }
    assert(a_chars@ =~= b_chars@);
    true
}

/// The character for a digit from 0 to 9.
pub open spec fn digit_char(d: int) -> char {
    if d == 0 {
        '0'
    } else if d == 1 {
        '1'
    } else if d == 2 {
        '2'
    } else if d == 3 {
        '3'
    } else if d == 4 {
        '4'
    } else if d == 5 {
        '5'
    } else if d == 6 {
        '6'
    } else if d == 7 {
        '7'
    } else if d == 8 {
        '8'
    } else {
        '9'
    }
}

/// The decimal digits of `n`, without leading zeros.
pub open spec fn digits_text(n: nat) -> Seq<char>
    decreases n,
{
    if n < 10 {
        seq![digit_char(n as int)]
    } else {
        digits_text(n / 10).push(digit_char((n % 10) as int))
    }
}

/// The decimal form of `n`: a minus sign where it is negative, then its digits.
pub open spec fn decimal_text(n: int) -> Seq<char> {
    if n < 0 {
        seq!['-'] + digits_text((-n) as nat)
    } else {
        digits_text(n as nat)
    }
}

/// The digits of `n`, with zeros in front where there are fewer than `width`.
pub open spec fn zero_padded(n: nat, width: nat) -> Seq<char> {
    let digits = digits_text(n);
    if digits.len() >= width {
        digits
    } else {
        Seq::new((width - digits.len()) as nat, |i: int| '0') + digits
    }
}

/// `text` with each occurrence of `token` replaced by `value`, the occurrences
/// found from the left and not overlapping. An empty token occurs nowhere.
pub open spec fn replaced(text: Seq<char>, token: Seq<char>, value: Seq<char>) -> Seq<char>
    decreases text.len(),
{
    if token.len() == 0 || text.len() < token.len() {
        text
    } else if text.take(token.len() as int) == token {
        value + replaced(text.skip(token.len() as int), token, value)
    } else {
        seq![text[0]] + replaced(text.skip(1), token, value)
    }
}

fn digit_of(d: u64) -> (c: char)
    requires
        d < 10,
    ensures
        c == digit_char(d as int),
{
    if d == 0 {
        '0'
    } else if d == 1 {
        '1'
    } else if d == 2 {
        '2'
    } else if d == 3 {
        '3'
    } else if d == 4 {
        '4'
    } else if d == 5 {
        '5'
    } else if d == 6 {
        '6'
    } else if d == 7 {
        '7'
    } else if d == 8 {
        '8'
    } else {
        '9'
    }
}

fn push_digits(out: &mut String, n: u64)
    ensures
        final(out)@ == old(out)@ + digits_text(n as nat),
    decreases n,
{
    if n >= 10 {
        push_digits(out, n / 10);
    }
    out.push(digit_of(n % 10));
}

/// Appends the digits of `n` to `out`.
pub fn push_natural(out: &mut String, n: u64)
    ensures
        final(out)@ == old(out)@ + decimal_text(n as int),
{
    push_digits(out, n);
}

/// Appends the decimal form of `n` to `out`.
pub fn push_decimal(out: &mut String, n: i64)
    ensures
        final(out)@ == old(out)@ + decimal_text(n as int),
{
    if n < 0 {
        out.push('-');
        // the magnitude of the least number does not fit into an `i64`
        let magnitude: u64 = (-(n + 1)) as u64 + 1;
        push_digits(out, magnitude);
    } else {
        push_digits(out, n as u64);
    }
}

/// The decimal form of `n`.
pub fn decimal(n: i64) -> (text: String)
    ensures
        text@ == decimal_text(n as int),
{
    let mut text = String::new();
    push_decimal(&mut text, n);
    text
}

/// The lines one after the other, with `separator` between each two.
pub open spec fn joined(lines: Seq<Seq<char>>, separator: Seq<char>) -> Seq<char>
    decreases lines.len(),
{
    if lines.len() == 0 {
        Seq::empty()
    } else if lines.len() == 1 {
        lines[0]
    } else {
        joined(lines.drop_last(), separator) + separator + lines.last()
    }
}

/// What each of the strings holds.
pub open spec fn texts(lines: Seq<String>) -> Seq<Seq<char>> {
    lines.map_values(|line: String| line@)
}

/// Joins the lines, with `separator` between each two.
pub fn join_lines(lines: &Vec<String>, separator: &str) -> (out: String)
    ensures
        out@ == joined(texts(lines@), separator@),
{
    let mut out = String::new();
    let mut i: usize = 0;
    while i < lines.len()
        invariant
            i <= lines.len(),
            out@ == joined(texts(lines@.take(i as int)), separator@),
        decreases lines.len() - i,
    {
        proof {
            let before = texts(lines@.take(i as int));
            let after = texts(lines@.take(i + 1));
            assert(after.drop_last() =~= before);
            assert(after.last() == lines@[i as int]@);
            if i == 0 {
                assert(out@ + lines@[i as int]@ =~= lines@[i as int]@);
            }
        }
        if i > 0 {
            out.append(separator);
        }
        out.append(lines[i].as_str());
        i += 1;
    }
    assert(lines@.take(lines@.len() as int) =~= lines@);
    out
}

/// Whether `token` stands in `text` at position `at`.
fn stands_at(text: &Vec<char>, at: usize, token: &Vec<char>) -> (found: bool)
    requires
        at + token.len() <= text.len(),
    ensures
        found == (text@.subrange(at as int, at + token.len()) == token@),
{
    let mut k: usize = 0;
    while k < token.len()
        invariant
            k <= token.len(),
            at + token.len() <= text.len(),
            forall|j: int| 0 <= j < k ==> text@[at + j] == token@[j],
        decreases token.len() - k,
    {
        if text[at + k] != token[k] {
            assert(text@.subrange(at as int, at + token.len())[k as int] != token@[k as int]);
            return false;
        }
        k += 1;
    }
    assert(text@.subrange(at as int, at + token.len()) =~= token@);
    true
}

/// Replaces each occurrence of `token` in `text` by `value`. What was put in
/// is not looked at again, and an empty token is replaced nowhere.
pub fn replace_chars(text: &Vec<char>, token: &Vec<char>, value: &Vec<char>) -> (out: Vec<char>)
    ensures
        out@ == replaced(text@, token@, value@),
{
    if token.len() == 0 {
        return text.clone();
    }
    let mut out: Vec<char> = Vec::new();
    let mut i: usize = 0;
    assert(text@.skip(0) =~= text@);
    assert(out@ + replaced(text@, token@, value@) =~= replaced(text@, token@, value@));
    while i < text.len()
        invariant
            i <= text.len(),
            token.len() > 0,
            out@ + replaced(text@.skip(i as int), token@, value@) == replaced(
                text@,
                token@,
                value@,
            ),
        decreases text.len() - i,
    {
        let ghost rest = text@.skip(i as int);
        if text.len() - i >= token.len() && stands_at(text, i, token) {
            proof {
                assert(rest.take(token.len() as int) =~= text@.subrange(
                    i as int,
                    i + token.len(),
                ));
                assert(rest.skip(token.len() as int) =~= text@.skip(i + token.len()));
                assert(out@ + value@ + replaced(text@.skip(i + token.len()), token@, value@)
                    =~= out@ + replaced(rest, token@, value@));
            }
            out.extend_from_slice(value.as_slice());
            i += token.len();
        } else {
            proof {
                if rest.len() >= token.len() {
                    assert(rest.take(token.len() as int) =~= text@.subrange(
                        i as int,
                        i + token.len(),
                    ));
                    assert(rest.skip(1) =~= text@.skip(i + 1));
                    assert(out@.push(text@[i as int]) + replaced(
                        text@.skip(i + 1),
                        token@,
                        value@,
                    ) =~= out@ + replaced(rest, token@, value@));
                } else {
                    // what is left is shorter than the token and stays as it is
                    lemma_short_text_stays(rest, token@, value@);
                    lemma_short_text_stays(text@.skip(i + 1), token@, value@);
                    assert(out@.push(text@[i as int]) + text@.skip(i + 1) =~= out@ + rest);
                }
            }
            out.push(text[i]);
            i += 1;
        }
    }
    assert(text@.skip(i as int) =~= Seq::<char>::empty());
    assert(out@ + Seq::<char>::empty() =~= out@);
    out
}

/// A text shorter than the token holds no occurrence of it.
pub proof fn lemma_short_text_stays(text: Seq<char>, token: Seq<char>, value: Seq<char>)
    requires
        text.len() < token.len(),
    ensures
        replaced(text, token, value) == text,
{
}

/// Replaces each occurrence of `token` in `text` by `value`, as
/// `replace_chars` does.
pub fn replace_all(text: &str, token: &str, value: &str) -> (out: String)
    ensures
        out@ == replaced(text@, token@, value@),
{
    let text_chars = chars_of(text);
    let token_chars = chars_of(token);
    let value_chars = chars_of(value);
    let out = replace_chars(&text_chars, &token_chars, &value_chars);
    string_of(&out)
}

} // verus!
