//! Errors that point at code, and the code with those places highlighted.
use crate::paint::paint_error;
use crate::text::{lines, push_line};
use vstd::prelude::*;
use vstd::string::*;
use vstd::utf8::*;

verus! {

/// A stretch of code. Lines and columns are counted from one, columns in bytes,
/// and the last column belongs to the stretch.
#[derive(Clone, Copy, Debug, PartialEq, Eq, Structural)]
pub struct Span {
    pub start_line: u32,
    pub start_column: u32,
    pub end_line: u32,
    pub end_column: u32,
}

/// Where in the code an error lies.
#[derive(Clone, Debug)]
pub struct Diagnostic {
    pub spans: Vec<Span>,
}

/// A place counted from one, counted from zero instead; zero stays.
pub open spec fn from_zero(place: u32) -> int {
    if place == 0 {
        0
    } else {
        place - 1
    }
}

/// Whether `span` covers a part of `line`, which has the index `index`. An empty
/// line has no part.
pub open spec fn touches(span: Span, index: int, line: Seq<char>) -> bool {
    line.len() > 0 && from_zero(span.start_line) <= index <= from_zero(span.end_line)
}

/// The byte at which the part of the line with the index `index` begins: the
/// column of the span on its first line, the start of the line on the others.
pub open spec fn begin_of(span: Span, index: int) -> int {
    if index == from_zero(span.start_line) {
        from_zero(span.start_column)
    } else {
        0
    }
}

/// The last byte of the part of `line`, which has the index `index`: the column of
/// the span on its last line, the end of the line on the others.
pub open spec fn end_of(span: Span, index: int, line: Seq<char>) -> int {
    if index == from_zero(span.end_line) {
        from_zero(span.end_column)
    } else {
        encode_utf8(line).len() - 1
    }
}

/// Whether the bytes from `begin` to `end` of `line`, both among them, are whole
/// characters of it.
pub open spec fn is_part(line: Seq<char>, begin: int, end: int) -> bool {
    &&& begin <= end + 1 <= encode_utf8(line).len()
    &&& is_char_boundary(encode_utf8(line), begin)
    &&& is_char_boundary(encode_utf8(line), end + 1)
}

/// The characters of `line` that its bytes from `from` up to `to` stand for.
pub open spec fn bytes_of(line: Seq<char>, from: int, to: int) -> Seq<char> {
    decode_utf8(encode_utf8(line).subrange(from, to))
}

/// `line` with its bytes from `begin` to `end` painted as an error.
pub open spec fn with_part_painted(line: Seq<char>, begin: int, end: int) -> Seq<char> {
    bytes_of(line, 0, begin) + crate::paint::painted(
        crate::paint::error_style(),
        bytes_of(line, begin, end + 1),
    ) + bytes_of(line, end + 1, encode_utf8(line).len() as int)
}

/// Whether the part of `line` that `span` covers can be painted.
pub open spec fn fits_line(span: Span, index: int, line: Seq<char>) -> bool {
    touches(span, index, line) ==> is_part(
        line,
        begin_of(span, index),
        end_of(span, index, line),
    )
}

/// `line`, which has the index `index`, with what `span` covers of it painted.
pub open spec fn marked_line(span: Span, index: int, line: Seq<char>) -> Seq<char> {
    if touches(span, index, line) {
        with_part_painted(line, begin_of(span, index), end_of(span, index, line))
    } else {
        line
    }
}

/// Whether what `span` covers of `lines` can be painted.
pub open spec fn fits(span: Span, lines: Seq<Seq<char>>) -> bool {
    forall|i: int| 0 <= i < lines.len() ==> fits_line(span, i, #[trigger] lines[i])
}

/// `lines` with what `span` covers painted.
pub open spec fn marked(span: Span, lines: Seq<Seq<char>>) -> Seq<Seq<char>> {
    Seq::new(lines.len(), |i: int| marked_line(span, i, lines[i]))
}

/// `lines` with what the spans cover painted, one span after the other. The
/// columns of a span count the escape sequences of the spans before it.
pub open spec fn highlighted(lines: Seq<Seq<char>>, spans: Seq<Span>) -> Seq<Seq<char>>
    decreases spans.len(),
{
    if spans.len() == 0 {
        lines
    } else {
        marked(spans.last(), highlighted(lines, spans.drop_last()))
    }
}

/// Whether the spans can be painted one after the other.
pub open spec fn highlightable(lines: Seq<Seq<char>>, spans: Seq<Span>) -> bool
    decreases spans.len(),
{
    spans.len() > 0 ==> {
        &&& highlightable(lines, spans.drop_last())
        &&& fits(spans.last(), highlighted(lines, spans.drop_last()))
    }
}

/// Highlighting keeps the number of lines, and every line that no span touches.
pub proof fn other_lines_are_kept(lines: Seq<Seq<char>>, spans: Seq<Span>, index: int)
    requires
        0 <= index < lines.len(),
    ensures
        highlighted(lines, spans).len() == lines.len(),
        (lines[index].len() == 0 || forall|k: int|
            0 <= k < spans.len() ==> !(from_zero((#[trigger] spans[k]).start_line) <= index
                <= from_zero(spans[k].end_line))) ==> highlighted(lines, spans)[index]
            == lines[index],
    decreases spans.len(),
{
    if spans.len() > 0 {
        other_lines_are_kept(lines, spans.drop_last(), index);
        assert(spans.last() == spans[spans.len() - 1]);
        assert(forall|k: int|
            0 <= k < spans.len() - 1 ==> #[trigger] spans.drop_last()[k] == spans[k]);
        if forall|k: int|
            0 <= k < spans.len() ==> !(from_zero((#[trigger] spans[k]).start_line) <= index
                <= from_zero(spans[k].end_line)) {
            assert forall|k: int| 0 <= k < spans.len() - 1 implies !(from_zero(
                (#[trigger] spans.drop_last()[k]).start_line,
            ) <= index <= from_zero(spans.drop_last()[k].end_line)) by {
                assert(spans.drop_last()[k] == spans[k]);
            }
        }
    }
}

/// A span paints the bytes of a line that lie between its two ends, both of them
/// painted, and no other byte: a byte is painted if its line and column, counted
/// from one, come neither before the start of the span nor after its end. The line
/// is cut in three, and the escape sequences of an error stand around the middle.
pub proof fn spans_paint_from_start_to_end(lines: Seq<Seq<char>>, span: Span, index: int) -> (cut: (
    Seq<char>,
    Seq<char>,
    Seq<char>,
))
    requires
        highlightable(lines, seq![span]),
        0 <= index < lines.len(),
        lines[index].len() > 0,
        1 <= span.start_line <= index + 1 <= span.end_line,
        1 <= span.start_column,
        1 <= span.end_column,
    ensures
        ({
            let (head, part, tail) = cut;
            let before = encode_utf8(head).len();
            let painted = encode_utf8(part).len();
            &&& lines[index] == head + part + tail
            &&& highlighted(lines, seq![span])[index] == head + "\x1B[1;4;31m"@ + part
                + "\x1B[0m"@ + tail
            &&& before + painted + encode_utf8(tail).len() == encode_utf8(lines[index]).len()
            &&& index + 1 == span.start_line ==> before == span.start_column - 1
            &&& index + 1 > span.start_line ==> before == 0
            &&& index + 1 == span.end_line ==> before + painted == span.end_column
            &&& index + 1 < span.end_line ==> encode_utf8(tail).len() == 0
            &&& forall|byte: int|
                #![trigger encode_utf8(lines[index])[byte]]
                0 <= byte < encode_utf8(lines[index]).len() ==> (before <= byte < before + painted
                    <==> {
                    &&& span.start_line < index + 1 || (span.start_line == index + 1
                        && span.start_column <= byte + 1)
                    &&& index + 1 < span.end_line || (index + 1 == span.end_line && byte + 1
                        <= span.end_column)
                })
        }),
{
    let line = lines[index];
    let bytes = encode_utf8(line);
    let none: Seq<Span> = Seq::empty();
    assert(seq![span].drop_last() =~= none);
    assert(seq![span].last() == span);
    assert(highlighted(lines, none) == lines);
    assert(fits_line(span, index, lines[index]));
    let begin = begin_of(span, index);
    let end = end_of(span, index, line);
    lemma_three_parts(line, begin, end);
    crate::paint::paint_stands_around_the_text(bytes_of(line, begin, end + 1));
    let head = bytes_of(line, 0, begin);
    let part = bytes_of(line, begin, end + 1);
    let tail = bytes_of(line, end + 1, bytes.len() as int);
    assert(highlighted(lines, seq![span])[index] == marked_line(span, index, line));
    assert(head + ("\x1B[1;4;31m"@ + part + "\x1B[0m"@) + tail =~= head + "\x1B[1;4;31m"@ + part
        + "\x1B[0m"@ + tail);
    (head, part, tail)
}

/// The three stretches into which a line is cut have the bytes that they stand for.
proof fn lemma_three_parts(line: Seq<char>, begin: int, end: int)
    requires
        is_part(line, begin, end),
    ensures
        0 <= begin,
        bytes_of(line, 0, begin) + bytes_of(line, begin, end + 1) + bytes_of(
            line,
            end + 1,
            encode_utf8(line).len() as int,
        ) == line,
        encode_utf8(bytes_of(line, 0, begin)).len() == begin,
        encode_utf8(bytes_of(line, begin, end + 1)).len() == end + 1 - begin,
        encode_utf8(bytes_of(line, end + 1, encode_utf8(line).len() as int)).len()
            == encode_utf8(line).len() - (end + 1),
{
    painting_keeps_the_text(line, begin, end);
    let bytes = encode_utf8(line);
    encode_utf8_valid_utf8(line);
    lemma_boundary_in_rest(bytes, begin, end + 1);
    let rest = bytes.subrange(begin, bytes.len() as int);
    valid_utf8_split(bytes, begin);
    valid_utf8_split(rest, end + 1 - begin);
    assert(rest.subrange(0, end + 1 - begin) =~= bytes.subrange(begin, end + 1));
    assert(rest.subrange(end + 1 - begin, rest.len() as int) =~= bytes.subrange(
        end + 1,
        bytes.len() as int,
    ));
    decode_utf8_encode_utf8(bytes.subrange(0, begin));
    decode_utf8_encode_utf8(bytes.subrange(begin, end + 1));
    decode_utf8_encode_utf8(bytes.subrange(end + 1, bytes.len() as int));
}

/// A line before the first line of a span or after its last one stays as it is, and
/// so does an empty line.
pub proof fn spans_stay_within_their_lines(lines: Seq<Seq<char>>, span: Span, index: int)
    requires
        0 <= index < lines.len(),
        1 <= span.start_line,
        1 <= span.end_line,
        index + 1 < span.start_line || span.end_line < index + 1 || lines[index].len() == 0,
    ensures
        highlighted(lines, seq![span]).len() == lines.len(),
        highlighted(lines, seq![span])[index] == lines[index],
{
    let none: Seq<Span> = Seq::empty();
    assert(seq![span].drop_last() =~= none);
    assert(highlighted(lines, none) == lines);
}

/// Lines and columns are counted from one: a zero means the same as a one.
pub proof fn zero_counts_as_one(lines: Seq<Seq<char>>, span: Span)
    ensures
        ({
            let counted = Span {
                start_line: if span.start_line == 0 { 1 } else { span.start_line },
                start_column: if span.start_column == 0 { 1 } else { span.start_column },
                end_line: if span.end_line == 0 { 1 } else { span.end_line },
                end_column: if span.end_column == 0 { 1 } else { span.end_column },
            };
            &&& highlighted(lines, seq![span]) == highlighted(lines, seq![counted])
            &&& highlightable(lines, seq![span]) == highlightable(lines, seq![counted])
        }),
{
    let counted = Span {
        start_line: if span.start_line == 0 { 1 } else { span.start_line },
        start_column: if span.start_column == 0 { 1 } else { span.start_column },
        end_line: if span.end_line == 0 { 1 } else { span.end_line },
        end_column: if span.end_column == 0 { 1 } else { span.end_column },
    };
    let none: Seq<Span> = Seq::empty();
    assert(seq![span].drop_last() =~= none);
    assert(seq![counted].drop_last() =~= none);
    assert(highlighted(lines, none) == lines);
    assert forall|i: int| 0 <= i < lines.len() implies fits_line(span, i, #[trigger] lines[i])
        == fits_line(counted, i, lines[i]) && marked_line(span, i, lines[i]) == marked_line(
        counted,
        i,
        lines[i],
    ) by {}
    if fits(span, lines) {
        assert(fits(counted, lines));
    }
    if fits(counted, lines) {
        assert(fits(span, lines));
    }
    assert(marked(span, lines) =~= marked(counted, lines));
}

/// The spans are painted one after the other, each on what the ones before it left.
pub proof fn spans_are_painted_in_order(lines: Seq<Seq<char>>, spans: Seq<Span>, span: Span)
    ensures
        highlighted(lines, Seq::empty()) == lines,
        highlightable(lines, Seq::empty()),
        highlighted(lines, seq![span]).len() == lines.len(),
        highlighted(lines, spans.push(span)) == highlighted(
            highlighted(lines, spans),
            seq![span],
        ),
        highlightable(lines, spans.push(span)) == (highlightable(lines, spans) && highlightable(
            highlighted(lines, spans),
            seq![span],
        )),
{
    let none: Seq<Span> = Seq::empty();
    let painted = highlighted(lines, spans);
    assert(spans.push(span).drop_last() =~= spans);
    assert(seq![span].drop_last() =~= none);
    assert(highlighted(lines, none) == lines);
    assert(highlighted(painted, none) == painted);
    assert(highlightable(painted, none));
}

/// A span can be painted if and only if both its ends lie within the lines on which
/// they fall, between two characters, and the start is not behind the end.
pub proof fn spans_have_to_fit(lines: Seq<Seq<char>>, span: Span)
    requires
        1 <= span.start_line,
        1 <= span.end_line,
        1 <= span.start_column,
        1 <= span.end_column,
    ensures
        highlightable(lines, seq![span]) <==> forall|index: int|
            0 <= index < lines.len() && span.start_line <= index + 1 <= span.end_line
                && (#[trigger] lines[index]).len() > 0 ==> {
                let bytes = encode_utf8(lines[index]);
                let from = if index + 1 == span.start_line {
                    span.start_column - 1
                } else {
                    0
                };
                let to = if index + 1 == span.end_line {
                    span.end_column as int
                } else {
                    bytes.len() as int
                };
                &&& from <= to <= bytes.len()
                &&& is_char_boundary(bytes, from)
                &&& is_char_boundary(bytes, to)
            },
{
    let none: Seq<Span> = Seq::empty();
    assert(seq![span].drop_last() =~= none);
    assert(seq![span].last() == span);
    assert(highlighted(lines, none) == lines);
    assert(highlightable(lines, none));
    assert(highlightable(lines, seq![span]) == fits(span, lines));
}

/// The three stretches into which a line is cut for painting are the line: painting
/// adds escape sequences and takes nothing away.
pub proof fn painting_keeps_the_text(line: Seq<char>, begin: int, end: int)
    requires
        is_part(line, begin, end),
    ensures
        bytes_of(line, 0, begin) + bytes_of(line, begin, end + 1) + bytes_of(
            line,
            end + 1,
            encode_utf8(line).len() as int,
        ) == line,
{
    let bytes = encode_utf8(line);
    let rest = bytes.subrange(begin, bytes.len() as int);
    encode_utf8_valid_utf8(line);
    encode_utf8_decode_utf8(line);
    decode_utf8_split(bytes, begin);
    valid_utf8_split(bytes, begin);
    lemma_boundary_in_rest(bytes, begin, end + 1);
    decode_utf8_split(rest, end + 1 - begin);
    assert(rest.subrange(0, end + 1 - begin) =~= bytes.subrange(begin, end + 1));
    assert(rest.subrange(end + 1 - begin, rest.len() as int) =~= bytes.subrange(
        end + 1,
        bytes.len() as int,
    ));
    assert(bytes_of(line, 0, begin) + bytes_of(line, begin, end + 1) + bytes_of(
        line,
        end + 1,
        bytes.len() as int,
    ) =~= line);
}

/// A later character boundary is one of the bytes behind an earlier one too.
proof fn lemma_boundary_in_rest(bytes: Seq<u8>, from: int, at: int)
    requires
        valid_utf8(bytes),
        from <= at <= bytes.len(),
        is_char_boundary(bytes, from),
        is_char_boundary(bytes, at),
    ensures
        0 <= from,
        valid_utf8(bytes.subrange(from, bytes.len() as int)),
        is_char_boundary(bytes.subrange(from, bytes.len() as int), at - from),
{
    assert(0 <= from) by {
        reveal_with_fuel(is_char_boundary, 2);
    }
    let rest = bytes.subrange(from, bytes.len() as int);
    valid_utf8_split(bytes, from);
    if at == bytes.len() {
        is_char_boundary_start_end_of_seq(rest);
    } else {
        assert(rest[at - from] == bytes[at]);
        is_char_boundary_iff_not_is_continuation_byte(bytes, at);
        is_char_boundary_iff_not_is_continuation_byte(rest, at - from);
    }
}

fn count_from_zero(place: u32) -> (result: usize)
    ensures
        result == from_zero(place),
        result < u32::MAX,
{
    if place == 0 {
        0
    } else {
        (place - 1) as usize
    }
}

/// The bytes from the first to the second, both among them, that `span` covers of
/// `line`.
fn part_of(span: Span, index: usize, line: &str) -> (part: (usize, usize))
    requires
        line@.len() > 0,
    ensures
        part.0 == begin_of(span, index as int),
        part.1 == end_of(span, index as int, line@),
        part.1 < usize::MAX,
{
    proof {
        lemma_encoding_not_empty(line@);
    }
    let begin: usize = if index == count_from_zero(span.start_line) {
        count_from_zero(span.start_column)
    } else {
        0
    };
    let end: usize = if index == count_from_zero(span.end_line) {
        count_from_zero(span.end_column)
    } else {
        line.as_bytes().len() - 1
    };
    (begin, end)
}

proof fn lemma_encoding_not_empty(text: Seq<char>)
    requires
        text.len() > 0,
    ensures
        encode_utf8(text).len() > 0,
{
    encode_utf8_first_scalar(text);
    encode_utf8_valid_utf8(text);
}

fn is_touched(span: Span, index: usize, line: &str) -> (result: bool)
    ensures
        result == touches(span, index as int, line@),
{
    !line.is_empty() && count_from_zero(span.start_line) <= index && index <= count_from_zero(
        span.end_line,
    )
}

fn line_fits(span: Span, index: usize, line: &str) -> (result: bool)
    ensures
        result == fits_line(span, index as int, line@),
{
    if !is_touched(span, index, line) {
        return true;
    }
    let (begin, end): (usize, usize) = part_of(span, index, line);
    begin <= end + 1 && end + 1 <= line.as_bytes().len() && line.is_char_boundary(begin)
        && line.is_char_boundary(end + 1)
}

fn mark_line(span: Span, index: usize, line: &str) -> (result: String)
    requires
        fits_line(span, index as int, line@),
    ensures
        result@ == marked_line(span, index as int, line@),
{
    if !is_touched(span, index, line) {
        return line.to_owned();
    }
    let (begin, end): (usize, usize) = part_of(span, index, line);
    let ghost bytes = encode_utf8(line@);
    proof {
        encode_utf8_valid_utf8(line@);
        lemma_boundary_in_rest(bytes, begin as int, end + 1);
    }
    let (head, rest): (&str, &str) = line.split_at(begin);
    let (part, tail): (&str, &str) = rest.split_at(end + 1 - begin);
    proof {
        encode_utf8_decode_utf8(head@);
        encode_utf8_decode_utf8(part@);
        encode_utf8_decode_utf8(tail@);
        assert(part.spec_bytes() =~= bytes.subrange(begin as int, end + 1));
        assert(tail.spec_bytes() =~= bytes.subrange(end + 1, bytes.len() as int));
    }
    let mut result: String = head.to_owned();
    result.append(paint_error(part).as_str());
    result.append(tail);
    result
}

fn mark_lines(span: Span, code: &Vec<String>) -> (result: Vec<String>)
    requires
        fits(span, code.deep_view()),
    ensures
        result.deep_view() == marked(span, code.deep_view()),
{
    let ghost all = code.deep_view();
    let mut result: Vec<String> = Vec::new();
    let mut i: usize = 0;
    while i < code.len()
        invariant
            i <= code@.len(),
            all == code.deep_view(),
            fits(span, all),
            result.deep_view() == marked(span, all).take(i as int),
        decreases code@.len() - i,
    {
        proof {
            assert(all[i as int] == code@[i as int]@);
            assert(fits_line(span, i as int, all[i as int]));
            assert(marked(span, all).take(i + 1) =~= marked(span, all).take(i as int).push(
                marked(span, all)[i as int],
            ));
        }
        push_line(&mut result, mark_line(span, i, code[i].as_str()));
        i += 1;
    }
    proof {
        assert(marked(span, all).take(i as int) =~= marked(span, all));
    }
    result
}

fn lines_fit(span: Span, code: &Vec<String>) -> (result: bool)
    ensures
        result == fits(span, code.deep_view()),
{
    let ghost all = code.deep_view();
    let mut i: usize = 0;
    while i < code.len()
        invariant
            i <= code@.len(),
            all == code.deep_view(),
            forall|k: int| 0 <= k < i ==> fits_line(span, k, #[trigger] all[k]),
        decreases code@.len() - i,
    {
        proof {
            assert(all[i as int] == code@[i as int]@);
        }
        if !line_fits(span, i, code[i].as_str()) {
            proof {
                assert(!fits_line(span, i as int, all[i as int]));
            }
            return false;
        }
        i += 1;
    }
    true
}

/// The lines of `snippet` with what the spans cover painted as errors.
pub fn highlight(snippet: &str, spans: &Vec<Span>) -> (result: Vec<String>)
    requires
        highlightable(crate::text::lines_of(snippet@), spans@),
    ensures
        result.deep_view() == highlighted(crate::text::lines_of(snippet@), spans@),
{
    let ghost code = crate::text::lines_of(snippet@);
    let mut result: Vec<String> = lines(snippet);
    let mut i: usize = 0;
    while i < spans.len()
        invariant
            i <= spans@.len(),
            highlightable(code, spans@),
            result.deep_view() == highlighted(code, spans@.take(i as int)),
        decreases spans@.len() - i,
    {
        proof {
            lemma_highlightable_prefix(code, spans@, i + 1);
            assert(spans@.take(i + 1).drop_last() =~= spans@.take(i as int));
        }
        result = mark_lines(spans[i], &result);
        i += 1;
    }
    proof {
        assert(spans@.take(i as int) =~= spans@);
    }
    result
}

/// Tells whether the spans can be painted in `snippet`, one after the other.
pub fn can_highlight(snippet: &str, spans: &Vec<Span>) -> (result: bool)
    ensures
        result == highlightable(crate::text::lines_of(snippet@), spans@),
{
    let ghost code = crate::text::lines_of(snippet@);
    let mut current: Vec<String> = lines(snippet);
    let mut i: usize = 0;
    while i < spans.len()
        invariant
            i <= spans@.len(),
            code == crate::text::lines_of(snippet@),
            highlightable(code, spans@.take(i as int)),
            current.deep_view() == highlighted(code, spans@.take(i as int)),
        decreases spans@.len() - i,
    {
        proof {
            assert(spans@.take(i + 1).drop_last() =~= spans@.take(i as int));
        }
        if !lines_fit(spans[i], &current) {
            proof {
                if highlightable(code, spans@) {
                    lemma_highlightable_prefix(code, spans@, i + 1);
                }
            }
            return false;
        }
        current = mark_lines(spans[i], &current);
        i += 1;
    }
    proof {
        assert(spans@.take(i as int) =~= spans@);
    }
    true
}

proof fn lemma_highlightable_prefix(code: Seq<Seq<char>>, spans: Seq<Span>, n: int)
    requires
        highlightable(code, spans),
        0 <= n <= spans.len(),
    ensures
        highlightable(code, spans.take(n)),
    decreases spans.len(),
{
    if n == spans.len() {
        assert(spans.take(n) =~= spans);
    } else {
        lemma_highlightable_prefix(code, spans.drop_last(), n);
        assert(spans.drop_last().take(n) =~= spans.take(n));
    }
}

} // verus!
