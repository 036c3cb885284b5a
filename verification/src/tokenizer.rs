//! The line tokenizer: from one line of text to its ordered fields.

use crate::text::{
    chars_of, is_trimmed, join, lemma_join_split, lemma_split_pieces_lack_separator,
    lemma_trim_idempotent, lemma_trim_is_trimmed, lemma_trim_of_trimmed, split, trim, trim_bounds,
    CharClass,
};
use vstd::prelude::*;

verus! {

/// A field as it stands between two spaces, without the quote and bracket
/// characters at its ends.
pub open spec fn strip(piece: Seq<char>) -> Seq<char> {
    trim(piece, CharClass::Wrapping)
}

/// The fields of a line: the line is trimmed of white space, split at every
/// single space, and each piece is stripped.
pub open spec fn tokens(line: Seq<char>) -> Seq<Seq<char>> {
    split(trim(line, CharClass::Whitespace), ' ').map_values(|piece: Seq<char>| strip(piece))
}

/// Splits one line into its fields, in their order in the line.
///
/// Two spaces in a row enclose an empty field, and a line that is empty or all
/// white space has the one field `""`. A quoted phrase with a space inside is
/// split at that space like any other text.
pub fn tokenize(line: &str) -> (fields: Vec<String>)
    ensures
        fields.deep_view() == tokens(line@),
{
    let chars = chars_of(line);
    let (from, to) = trim_bounds(&chars, 0, chars.len(), CharClass::Whitespace);
    let ghost body = chars@.subrange(from as int, to as int);
    assert(chars@.subrange(0, chars.len() as int) == chars@);
    let mut fields: Vec<String> = Vec::new();
    let mut start: usize = from;
    let mut i: usize = from;
    while i < to
        invariant
            from <= start <= i <= to <= chars.len(),
            chars@ == line@,
            body == chars@.subrange(from as int, to as int),
            split(body.take(i - from), ' ').len() >= 1,
            split(body.take(i - from), ' ').last() == chars@.subrange(start as int, i as int),
            fields.deep_view() == split(body.take(i - from), ' ').drop_last().map_values(
                |piece: Seq<char>| strip(piece),
            ),
        decreases to - i,
    {
        let ghost seen = body.take(i - from);
        assert(body.take(i + 1 - from).drop_last() == seen);
        if chars[i] == ' ' {
            let (p, q) = trim_bounds(&chars, start, i, CharClass::Wrapping);
            let field = line.substring_char(p, q).to_owned();
            let ghost before = fields.deep_view();
            fields.push(field);
            assert(fields.deep_view() == before.push(strip(split(seen, ' ').last())));
            start = i + 1;
        }
        i += 1;
    }
    let (p, q) = trim_bounds(&chars, start, to, CharClass::Wrapping);
    let field = line.substring_char(p, q).to_owned();
    let ghost before = fields.deep_view();
    fields.push(field);
    assert(body.take(to - from) == body);
    assert(fields.deep_view() == before.push(strip(split(body, ' ').last())));
    fields
}

/// Whether no piece of the line begins or ends with a quote or a bracket, so
/// that stripping removes nothing from it.
pub open spec fn is_bare(line: Seq<char>) -> bool {
    let pieces = split(trim(line, CharClass::Whitespace), ' ');
    forall|i: int| 0 <= i < pieces.len() ==> is_trimmed(#[trigger] pieces[i], CharClass::Wrapping)
}

/// The fields of a bare line, joined by single spaces, spell the line without
/// the white space around it; a bare line with no white space around it is
/// spelled exactly.
pub proof fn lemma_join_tokens(line: Seq<char>)
    requires
        is_bare(line),
    ensures
        join(tokens(line), ' ') == trim(line, CharClass::Whitespace),
        is_trimmed(line, CharClass::Whitespace) ==> join(tokens(line), ' ') == line,
{
    let body = trim(line, CharClass::Whitespace);
    let pieces = split(body, ' ');
    assert forall|i: int| 0 <= i < pieces.len() implies #[trigger] tokens(line)[i] == pieces[i] by {
        lemma_trim_of_trimmed(pieces[i], CharClass::Wrapping);
    }
    assert(tokens(line) == pieces);
    lemma_join_split(body, ' ');
    if is_trimmed(line, CharClass::Whitespace) {
        lemma_trim_of_trimmed(line, CharClass::Whitespace);
    }
}

/// No field holds a space, and none begins or ends with a quote or a
/// bracket.
pub proof fn lemma_fields_are_clean(line: Seq<char>)
    ensures
        forall|i: int|
            0 <= i < tokens(line).len() ==> is_trimmed(
                #[trigger] tokens(line)[i],
                CharClass::Wrapping,
            ),
        forall|i: int, j: int|
            0 <= i < tokens(line).len() && 0 <= j < tokens(line)[i].len()
                ==> #[trigger] tokens(line)[i][j] != ' ',
{
    let pieces = split(trim(line, CharClass::Whitespace), ' ');
    lemma_split_pieces_lack_separator(trim(line, CharClass::Whitespace), ' ');
    assert forall|i: int| 0 <= i < tokens(line).len() implies is_trimmed(
        #[trigger] tokens(line)[i],
        CharClass::Wrapping,
    ) by {
        lemma_trim_is_trimmed(pieces[i], CharClass::Wrapping);
    }
    assert forall|i: int, j: int|
        0 <= i < tokens(line).len() && 0 <= j < tokens(line)[i].len()
            implies #[trigger] tokens(line)[i][j] != ' ' by {
        lemma_trim_is_trimmed(pieces[i], CharClass::Wrapping);
    }
}

/// White space around a line does not change its fields.
pub proof fn lemma_tokens_ignore_margin(line: Seq<char>)
    ensures
        tokens(trim(line, CharClass::Whitespace)) == tokens(line),
{
    lemma_trim_idempotent(line, CharClass::Whitespace);
}

} // verus!
