//! Labels: `name:` declares one, `@name` uses one.

use vstd::prelude::*;
use crate::assembler::characters::{
    char_at,
    cut_text,
    has_char_at,
    in_class,
    lemma_run_end,
    run_end,
    scan_run,
    skip_spaces,
    CharClass,
};
use crate::assembler::{agrees_with, scanned, token_and_rest, NoMatch, Token, TokenView};
use crate::text::chars_of;

verus! {

/// A label declaration at `pos`: white space, a name of letters and digits,
/// a colon, white space.
pub open spec fn label_declaration_at(s: Seq<char>, pos: int) -> Option<(TokenView, int)> {
    let start = skip_spaces(s, pos);
    let end = run_end(s, start, CharClass::Alphanumeric);
    if start < end && has_char_at(s, end, ':') {
        Some(
            (TokenView::LabelDeclaration { name: s.subrange(start, end) }, skip_spaces(s, end + 1)),
        )
    } else {
        None
    }
}

/// A label usage at `pos`: white space, `@`, a name of letters and digits,
/// and one line feed if one follows.
pub open spec fn label_usage_at(s: Seq<char>, pos: int) -> Option<(TokenView, int)> {
    let at = skip_spaces(s, pos);
    let end = run_end(s, at + 1, CharClass::Alphanumeric);
    if has_char_at(s, at, '@') && at + 1 < end {
        Some(
            (
                TokenView::LabelUsage { name: s.subrange(at + 1, end) },
                if has_char_at(s, end, '\n') {
                    end + 1
                } else {
                    end
                },
            ),
        )
    } else {
        None
    }
}

/// Scans a label declaration from `pos`.
pub(crate) fn scan_label_declaration(chars: &[char], pos: usize) -> (found: Option<(Token, usize)>)
    requires
        pos <= chars.len(),
    ensures
        scanned(found) == label_declaration_at(chars@, pos as int),
        found is Some ==> pos < found.unwrap().1 <= chars.len(),
{
    let start = scan_run(chars, pos, CharClass::Space);
    let end = scan_run(chars, start, CharClass::Alphanumeric);
    if start < end && char_at(chars, end, ':') {
        let name = cut_text(chars, start, end);
        let after = scan_run(chars, end + 1, CharClass::Space);
        Some((Token::LabelDeclaration { name }, after))
    } else {
        None
    }
}

/// Scans a label usage from `pos`.
pub(crate) fn scan_label_usage(chars: &[char], pos: usize) -> (found: Option<(Token, usize)>)
    requires
        pos <= chars.len(),
    ensures
        scanned(found) == label_usage_at(chars@, pos as int),
        found is Some ==> pos < found.unwrap().1 <= chars.len(),
{
    let at = scan_run(chars, pos, CharClass::Space);
    if !char_at(chars, at, '@') {
        return None;
    }
    let end = scan_run(chars, at + 1, CharClass::Alphanumeric);
    if at + 1 < end {
        let name = cut_text(chars, at + 1, end);
        let after = if char_at(chars, end, '\n') { end + 1 } else { end };
        Some((Token::LabelUsage { name }, after))
    } else {
        None
    }
}

/// Reads a label declaration from the start of `input`.
pub fn label_declaration(input: &str) -> (result: Result<(&str, Token), NoMatch>)
    ensures
        agrees_with(result, input@, label_declaration_at(input@, 0)),
{
    let chars = chars_of(input);
    token_and_rest(input, chars.len(), scan_label_declaration(chars.as_slice(), 0))
}

/// Reads a label usage from the start of `input`.
pub fn label_usage(input: &str) -> (result: Result<(&str, Token), NoMatch>)
    ensures
        agrees_with(result, input@, label_usage_at(input@, 0)),
{
    let chars = chars_of(input);
    token_and_rest(input, chars.len(), scan_label_usage(chars.as_slice(), 0))
}

/// A label declaration that is found takes at least one character and
/// ends inside the text.
pub proof fn lemma_label_declaration_bounds(s: Seq<char>, pos: int)
    requires
        0 <= pos <= s.len(),
        label_declaration_at(s, pos) is Some,
    ensures
        pos < label_declaration_at(s, pos).unwrap().1 <= s.len(),
{
    lemma_run_end(s, pos, CharClass::Space);
    let start = skip_spaces(s, pos);
    lemma_run_end(s, start, CharClass::Alphanumeric);
    let end = run_end(s, start, CharClass::Alphanumeric);
    lemma_run_end(s, end + 1, CharClass::Space);
}

/// Whether a name is one letter or digit or more.
pub open spec fn is_identifier(name: Seq<char>) -> bool {
    name.len() > 0 && forall|i: int|
        0 <= i < name.len() ==> in_class(CharClass::Alphanumeric, #[trigger] name[i])
}

/// The name of every label that is read from a text, declared or used, is
/// one letter or digit or more.
pub proof fn lemma_label_names_are_identifiers(s: Seq<char>, pos: int)
    requires
        0 <= pos <= s.len(),
    ensures
        label_declaration_at(s, pos) matches Some((TokenView::LabelDeclaration { name }, _))
            ==> is_identifier(name),
        label_usage_at(s, pos) matches Some((TokenView::LabelUsage { name }, _)) ==> is_identifier(
            name,
        ),
{
    lemma_run_end(s, pos, CharClass::Space);
    let start = skip_spaces(s, pos);
    lemma_run_end(s, start, CharClass::Alphanumeric);
    if start < s.len() {
        lemma_run_end(s, start + 1, CharClass::Alphanumeric);
    }
}

} // verus!
