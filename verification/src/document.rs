//! Conversion of a whole text at once: the text is cut into lines, and the
//! rows of the lines follow the header row, if there is one, in the order of
//! the lines.

use crate::emitter::{header_bytes, header_names, header_row, line_bytes, line_row};
use crate::record::row;
use crate::text::chars_of;
use crate::tokenizer::tokens;
use vstd::prelude::*;
use vstd::seq_lib::lemma_flatten_concat;

verus! {

/// The lines of a text. A line runs up to and including its line feed; what
/// follows the last line feed, if anything does, is a line too. No line is
/// empty, so the empty text has no line.
pub open spec fn lines_of(text: Seq<char>) -> Seq<Seq<char>>
    decreases text.len(),
{
    if text.len() == 0 {
        Seq::<Seq<char>>::empty()
    } else {
        let before = lines_of(text.drop_last());
        if before.len() > 0 && before.last().last() != '\n' {
            before.drop_last().push(before.last().push(text.last()))
        } else {
            before.push(seq![text.last()])
        }
    }
}

/// The rows of the output, each as its fields: the column names first if
/// `headers` is set, then the fields of each line.
pub open spec fn table(lines: Seq<Seq<char>>, headers: bool) -> Seq<Seq<Seq<char>>> {
    let data = lines.map_values(|line: Seq<char>| tokens(line));
    if headers {
        seq![header_names()] + data
    } else {
        data
    }
}

/// The rows as CSV, one after another.
pub open spec fn rendered(rows: Seq<Seq<Seq<char>>>) -> Seq<u8> {
    rows.map_values(|fields: Seq<Seq<char>>| row(fields)).flatten()
}

/// The whole output for a text.
pub open spec fn output(text: Seq<char>, headers: bool) -> Seq<u8> {
    rendered(table(lines_of(text), headers))
}

/// The lines of a text are the text cut after every line feed: written one
/// after another they give the text back, none is empty, a line feed stands
/// only at the end of a line, and every line but the last has one. Text after
/// the last line feed is therefore a last line of its own.
pub proof fn lemma_lines_shape(text: Seq<char>)
    ensures
        lines_of(text).flatten() == text,
        forall|i: int| 0 <= i < lines_of(text).len() ==> (#[trigger] lines_of(text)[i]).len() > 0,
        forall|i: int|
            0 <= i < lines_of(text).len() - 1 ==> (#[trigger] lines_of(text)[i]).last() == '\n',
        forall|i: int, j: int|
            0 <= i < lines_of(text).len() && 0 <= j < lines_of(text)[i].len() - 1
                ==> #[trigger] lines_of(text)[i][j] != '\n',
        text.len() > 0 ==> lines_of(text).len() > 0 && lines_of(text).last().last() == text.last(),
    decreases text.len(),
{
    if text.len() > 0 {
        let c = text.last();
        let before = lines_of(text.drop_last());
        lemma_lines_shape(text.drop_last());
        if before.len() > 0 && before.last().last() != '\n' {
            assert(before == before.drop_last().push(before.last()));
            before.drop_last().lemma_flatten_push(before.last());
            before.drop_last().lemma_flatten_push(before.last().push(c));
        } else {
            assert(lines_of(text) == before.push(seq![c]));
            before.lemma_flatten_push(seq![c]);
        }
        assert(lines_of(text).flatten() == before.flatten().push(c));
    }
}

/// Text after the last line feed is a line of its own, and so gives a row of
/// its own: a text that is empty or ends in a line feed, followed by a
/// non-empty tail without a line feed, has the lines of the text and then the
/// tail.
pub proof fn lemma_partial_line_counts(text: Seq<char>, tail: Seq<char>)
    requires
        text.len() == 0 || text.last() == '\n',
        tail.len() > 0,
        forall|j: int| 0 <= j < tail.len() ==> tail[j] != '\n',
    ensures
        lines_of(text + tail) == lines_of(text).push(tail),
    decreases tail.len(),
{
    let whole = text + tail;
    let shorter = tail.drop_last();
    assert(whole.drop_last() == text + shorter);
    if shorter.len() == 0 {
        lemma_lines_shape(text);
        assert(seq![tail.last()] == tail);
    } else {
        lemma_partial_line_counts(text, shorter);
        assert(shorter.push(tail.last()) == tail);
    }
}

/// Every line gives exactly one row, whatever the number of its fields: the
/// rows after the header row are as many as the lines, and each holds the
/// fields of its line, in the order of the lines.
pub proof fn lemma_one_row_per_line(lines: Seq<Seq<char>>, headers: bool)
    ensures
        table(lines, headers).len() == lines.len() + if headers { 1int } else { 0int },
        forall|i: int|
            0 <= i < lines.len() ==> table(lines, headers)[i + if headers { 1int } else { 0int }]
                == tokens(#[trigger] lines[i]),
{
}

/// With the header row wanted, the first row holds the ten column names,
/// whatever the lines are; the rows after it are the rows of the output
/// without header, and so are the bytes after the header row's.
pub proof fn lemma_header_first(lines: Seq<Seq<char>>)
    ensures
        header_names().len() == 10,
        table(lines, true).len() > 0,
        table(lines, true).first() == header_names(),
        table(lines, true).drop_first() == table(lines, false),
        rendered(table(lines, true)) == header_bytes() + rendered(table(lines, false)),
{
    let data = table(lines, false);
    let encoded = data.map_values(|fields: Seq<Seq<char>>| row(fields));
    assert(table(lines, true).map_values(|fields: Seq<Seq<char>>| row(fields)) == seq![
        header_bytes(),
    ] + encoded);
    lemma_flatten_concat(seq![header_bytes()], encoded);
    seq![header_bytes()].lemma_flatten_singleton();
}

/// The output is the rows in order and nothing else: the header row if it is
/// wanted, then the row of each line as a conversion step by step hands it
/// out.
pub proof fn lemma_output_in_order(lines: Seq<Seq<char>>, headers: bool)
    ensures
        rendered(table(lines, headers)) == (if headers {
            header_bytes()
        } else {
            Seq::<u8>::empty()
        }) + lines.map_values(|line: Seq<char>| line_bytes(line)).flatten(),
{
    assert(table(lines, false).map_values(|fields: Seq<Seq<char>>| row(fields))
        == lines.map_values(|line: Seq<char>| line_bytes(line)));
    if headers {
        lemma_header_first(lines);
    }
}

/// Converting the same text with the same setting gives the same bytes every
/// time.
pub proof fn lemma_output_repeatable(text: Seq<char>, headers: bool, once: Seq<u8>, again: Seq<u8>)
    requires
        once == output(text, headers),
        again == output(text, headers),
    ensures
        once == again,
{
}

/// Cuts a text into its lines.
pub fn split_lines(text: &str) -> (lines: Vec<String>)
    ensures
        lines.deep_view() == lines_of(text@),
{
    let chars = chars_of(text);
    let mut lines: Vec<String> = Vec::new();
    let mut start: usize = 0;
    let mut i: usize = 0;
    while i < chars.len()
        invariant
            start <= i <= chars.len(),
            chars@ == text@,
            start < i ==> chars@[i - 1] != '\n',
            lines.len() > 0 ==> lines.deep_view().last().len() > 0 && lines.deep_view().last().last()
                == '\n',
            lines_of(chars@.take(i as int)) == if start < i {
                lines.deep_view().push(chars@.subrange(start as int, i as int))
            } else {
                lines.deep_view()
            },
        decreases chars.len() - i,
    {
        proof {
            let line = chars@.subrange(start as int, i + 1);
            assert(chars@.take(i + 1).drop_last() == chars@.take(i as int));
            if start < i {
                assert(chars@.subrange(start as int, i as int).push(chars@[i as int]) == line);
            } else {
                assert(seq![chars@[i as int]] == line);
            }
        }
        if chars[i] == '\n' {
            let line = text.substring_char(start, i + 1).to_owned();
            lines.push(line);
            start = i + 1;
        }
        i += 1;
    }
    assert(chars@.take(chars.len() as int) == chars@);
    if start < chars.len() {
        let line = text.substring_char(start, chars.len()).to_owned();
        lines.push(line);
    }
    lines
}

/// Converts a whole text: the header row first if `headers` is set, then one
/// row for every line of the text, in the order of the lines.
pub fn convert(text: &str, headers: bool) -> (out: Vec<u8>)
    ensures
        out@ == output(text@, headers),
{
    let lines = split_lines(text);
    let mut out: Vec<u8> = Vec::new();
    if headers {
        let mut bytes = header_row();
        out.append(&mut bytes);
    }
    proof {
        if headers {
            let rows = table(lines.deep_view().take(0), true);
            assert(rows.map_values(|fields: Seq<Seq<char>>| row(fields)) == seq![header_bytes()]);
            seq![header_bytes()].lemma_flatten_singleton();
        }
    }
    let mut i: usize = 0;
    while i < lines.len()
        invariant
            i <= lines.len(),
            out@ == rendered(table(lines.deep_view().take(i as int), headers)),
        decreases lines.len() - i,
    {
        let mut bytes = line_row(lines[i].as_str());
        proof {
            let line = lines.deep_view()[i as int];
            let so_far = table(lines.deep_view().take(i as int), headers).map_values(
                |fields: Seq<Seq<char>>| row(fields),
            );
            let with_line = table(lines.deep_view().take(i + 1), headers).map_values(
                |fields: Seq<Seq<char>>| row(fields),
            );
            assert(with_line == so_far.push(line_bytes(line)));
            so_far.lemma_flatten_push(line_bytes(line));
        }
        out.append(&mut bytes);
        i += 1;
    }
    assert(lines.deep_view().take(lines.len() as int) == lines.deep_view());
    out
}

} // verus!
