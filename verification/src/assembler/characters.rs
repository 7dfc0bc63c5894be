//! The lexical ground of the grammar: classes of characters, runs of one
//! class, decimal numbers, and text cut out of the source.

use vstd::prelude::*;

verus! {

/// A class of characters that the grammar speaks of.
#[derive(Clone, Copy, Debug, PartialEq, Eq, Structural)]
pub enum CharClass {
    /// Space, tab, carriage return and line feed.
    Space,
    /// The digits `0` to `9`.
    Digit,
    /// The letters `a` to `z` and `A` to `Z`.
    Alpha,
    /// The letters and the digits.
    Alphanumeric,
}

pub open spec fn is_space(c: char) -> bool {
    c == ' ' || c == '\t' || c == '\r' || c == '\n'
}

pub open spec fn is_digit(c: char) -> bool {
    '0' <= c && c <= '9'
}

pub open spec fn is_alpha(c: char) -> bool {
    ('a' <= c && c <= 'z') || ('A' <= c && c <= 'Z')
}

/// Whether `c` belongs to `class`.
pub open spec fn in_class(class: CharClass, c: char) -> bool {
    match class {
        CharClass::Space => is_space(c),
        CharClass::Digit => is_digit(c),
        CharClass::Alpha => is_alpha(c),
        CharClass::Alphanumeric => is_alpha(c) || is_digit(c),
    }
}

/// Where the run of characters of `class` that starts at `pos` ends: the
/// first position at or after `pos` that holds no character of the class.
pub open spec fn run_end(s: Seq<char>, pos: int, class: CharClass) -> int
    decreases s.len() - pos,
{
    if 0 <= pos < s.len() && in_class(class, s[pos]) {
        run_end(s, pos + 1, class)
    } else {
        pos
    }
}

/// Where the white space that starts at `pos` ends.
pub open spec fn skip_spaces(s: Seq<char>, pos: int) -> int {
    run_end(s, pos, CharClass::Space)
}

/// Whether position `pos` of `s` holds the character `c`.
pub open spec fn has_char_at(s: Seq<char>, pos: int, c: char) -> bool {
    0 <= pos < s.len() && s[pos] == c
}

/// The number that a sequence of digits denotes in base ten.
pub open spec fn decimal_value(digits: Seq<char>) -> nat
    decreases digits.len(),
{
    if digits.len() == 0 {
        0
    } else {
        (decimal_value(digits.drop_last()) * 10 + (digits.last() as u32 - '0' as u32)) as nat
    }
}

/// A run ends inside the text, at a character outside the class or at the
/// end, and holds only characters of the class.
pub proof fn lemma_run_end(s: Seq<char>, pos: int, class: CharClass)
    requires
        0 <= pos <= s.len(),
    ensures
        pos <= run_end(s, pos, class) <= s.len(),
        forall|i: int| pos <= i < run_end(s, pos, class) ==> in_class(class, #[trigger] s[i]),
        run_end(s, pos, class) < s.len() ==> !in_class(class, s[run_end(s, pos, class)]),
    decreases s.len() - pos,
{
    if pos < s.len() && in_class(class, s[pos]) {
        lemma_run_end(s, pos + 1, class);
    }
}

/// Behind a run no further run of the same class starts.
pub proof fn lemma_run_end_is_final(s: Seq<char>, pos: int, class: CharClass)
    requires
        0 <= pos <= s.len(),
    ensures
        run_end(s, run_end(s, pos, class), class) == run_end(s, pos, class),
    decreases s.len() - pos,
{
    if pos < s.len() && in_class(class, s[pos]) {
        lemma_run_end_is_final(s, pos + 1, class);
    }
}

/// Whether `c` belongs to `class`.
pub(crate) fn char_in_class(class: CharClass, c: char) -> (b: bool)
    ensures
        b == in_class(class, c),
{
    match class {
        CharClass::Space => c == ' ' || c == '\t' || c == '\r' || c == '\n',
        CharClass::Digit => '0' <= c && c <= '9',
        CharClass::Alpha => ('a' <= c && c <= 'z') || ('A' <= c && c <= 'Z'),
        CharClass::Alphanumeric => ('a' <= c && c <= 'z') || ('A' <= c && c <= 'Z') || ('0' <= c
            && c <= '9'),
    }
}

/// Finds the end of the run of `class` that starts at `pos`.
pub(crate) fn scan_run(chars: &[char], pos: usize, class: CharClass) -> (end: usize)
    requires
        pos <= chars.len(),
    ensures
        end == run_end(chars@, pos as int, class),
        pos <= end <= chars.len(),
{
    let mut end = pos;
    while end < chars.len() && char_in_class(class, chars[end])
        invariant
            pos <= end <= chars.len(),
            run_end(chars@, pos as int, class) == run_end(chars@, end as int, class),
        decreases chars.len() - end,
    {
        end += 1;
    }
    end
}

/// Whether position `pos` holds the character `c`.
pub(crate) fn char_at(chars: &[char], pos: usize, c: char) -> (b: bool)
    ensures
        b == has_char_at(chars@, pos as int, c),
{
    pos < chars.len() && chars[pos] == c
}

/// A number does not shrink when a digit is appended.
proof fn lemma_decimal_value_grows(s: Seq<char>, start: int, mid: int, end: int)
    requires
        0 <= start <= mid <= end <= s.len(),
        forall|i: int| start <= i < end ==> is_digit(#[trigger] s[i]),
    ensures
        decimal_value(s.subrange(start, mid)) <= decimal_value(s.subrange(start, end)),
    decreases end - mid,
{
    if mid < end {
        lemma_decimal_value_grows(s, start, mid, end - 1);
        assert(s.subrange(start, end).drop_last() =~= s.subrange(start, end - 1));
        assert(is_digit(s[end - 1]));
    }
}

/// Reads the digits from `start` to `end` as a number in base ten. Returns
/// `None` if the number is above `limit`.
pub(crate) fn scan_decimal(chars: &[char], start: usize, end: usize, limit: u32) -> (value: Option<
    u32,
>)
    requires
        start <= end <= chars.len(),
        forall|i: int| start <= i < end ==> is_digit(#[trigger] chars@[i]),
    ensures
        value == if decimal_value(chars@.subrange(start as int, end as int)) <= limit {
            Some(decimal_value(chars@.subrange(start as int, end as int)) as u32)
        } else {
            None::<u32>
        },
{
    let mut total: u64 = 0;
    let mut i = start;
    assert(chars@.subrange(start as int, start as int) =~= Seq::<char>::empty());
    while i < end
        invariant
            start <= i <= end <= chars.len(),
            forall|j: int| start <= j < end ==> is_digit(#[trigger] chars@[j]),
            total == decimal_value(chars@.subrange(start as int, i as int)),
            total <= limit,
        decreases end - i,
    {
        let c = chars[i];
        assert(is_digit(chars@[i as int]));
        let digit: u64 = (c as u32 - '0' as u32) as u64;
        let next: u64 = total * 10 + digit;
        proof {
            assert(chars@.subrange(start as int, i + 1).drop_last() =~= chars@.subrange(
                start as int,
                i as int,
            ));
            assert(next == decimal_value(chars@.subrange(start as int, i + 1)));
        }
        if next > limit as u64 {
            proof {
                lemma_decimal_value_grows(chars@, start as int, i + 1, end as int);
            }
            return None;
        }
        total = next;
        i += 1;
    }
    Some(total as u32)
}

/// `String::push`: appends one character to the end of the string.
#[verifier::external_body]
fn push_char(text: &mut String, c: char)
    ensures
        final(text)@ == old(text)@.push(c),
{
    text.push(c)
}

/// The text from `start` to `end`, as a string of its own.
pub(crate) fn cut_text(chars: &[char], start: usize, end: usize) -> (text: String)
    requires
        start <= end <= chars.len(),
    ensures
        text@ == chars@.subrange(start as int, end as int),
{
    let mut text = String::new();
    let mut i = start;
    while i < end
        invariant
            start <= i <= end <= chars.len(),
            text@ == chars@.subrange(start as int, i as int),
        decreases end - i,
    {
        push_char(&mut text, chars[i]);
        assert(text@ =~= chars@.subrange(start as int, i + 1));
        i += 1;
    }
    text
}

} // verus!
