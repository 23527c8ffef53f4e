//! Text on which the session works: splitting, joining, replacing, decimal
//! numbers and the alphabetical order.
use vstd::prelude::*;
use vstd::string::*;

verus! {

/// `String::push` appends one character at the end.
pub assume_specification[ String::push ](text: &mut String, c: char)
    ensures
        final(text)@ == old(text)@.push(c),
;

/// The characters of `text`, in order.
pub fn characters(text: &str) -> (chars: Vec<char>)
    ensures
        chars@ == text@,
{
    let mut chars: Vec<char> = Vec::new();
    for c in iter: text.chars()
        invariant
            iter.seq() == text@,
            chars@ == text@.take(iter.index()),
    {
        proof {
            assert(text@.take(iter.index() + 1) =~= text@.take(iter.index()).push(c));
        }
        chars.push(c);
    }
    proof {
        assert(text@.take(text@.len() as int) =~= text@);
    }
    chars
}

/// Whether `text` begins with `prefix`.
pub fn starts_with(text: &str, prefix: &str) -> (found: bool)
    ensures
        found == prefix@.is_prefix_of(text@),
{
    let text_chars: Vec<char> = characters(text);
    let prefix_chars: Vec<char> = characters(prefix);
    begins_at(&text_chars, 0, &prefix_chars)
}

/// Whether `a` and `b` are the same text.
pub fn is_same(a: &str, b: &str) -> (same: bool)
    ensures
        same == (a@ == b@),
{
    a.to_owned() == b.to_owned()
}

/// Whether `pattern` stands in `text` at position `at`.
fn begins_at(text: &Vec<char>, at: usize, pattern: &Vec<char>) -> (found: bool)
    requires
        at <= text@.len(),
    ensures
        found == pattern@.is_prefix_of(text@.skip(at as int)),
{
    if text.len() - at < pattern.len() {
        return false;
    }
    let mut i: usize = 0;
    while i < pattern.len()
        invariant
            i <= pattern@.len(),
            at + pattern@.len() <= text.len(),
            pattern@.take(i as int) == text@.skip(at as int).take(i as int),
        decreases pattern@.len() - i,
    {
        if text[at + i] != pattern[i] {
            proof {
                if pattern@.is_prefix_of(text@.skip(at as int)) {
                    assert(pattern@[i as int] == text@.skip(at as int)[i as int]);
                }
            }
            return false;
        }
        proof {
            assert(pattern@.take(i + 1) =~= pattern@.take(i as int).push(pattern@[i as int]));
            assert(text@.skip(at as int).take(i + 1) =~= text@.skip(at as int).take(i as int).push(
                text@[at + i],
            ));
        }
        i += 1;
    }
    proof {
        assert(pattern@.take(pattern@.len() as int) =~= pattern@);
        assert(pattern@ =~= text@.skip(at as int).subrange(0, pattern@.len() as int));
    }
    true
}

/// The pieces of `text` between the occurrences of `separator`: one more than
/// there are separators, and the empty text has one empty piece.
pub open spec fn split(text: Seq<char>, separator: char) -> Seq<Seq<char>>
    decreases text.len(),
{
    if text.len() == 0 {
        seq![Seq::empty()]
    } else {
        let pieces = split(text.drop_last(), separator);
        if text.last() == separator {
            pieces.push(Seq::empty())
        } else {
            pieces.drop_last().push(pieces.last().push(text.last()))
        }
    }
}

/// The pieces one after the other, with `separator` between neighbours.
pub open spec fn joined(pieces: Seq<Seq<char>>, separator: Seq<char>) -> Seq<char>
    decreases pieces.len(),
{
    if pieces.len() == 0 {
        Seq::empty()
    } else if pieces.len() == 1 {
        pieces[0]
    } else {
        joined(pieces.drop_last(), separator) + separator + pieces.last()
    }
}

/// A split has at least one piece.
proof fn lemma_split_not_empty(text: Seq<char>, separator: char)
    ensures
        split(text, separator).len() >= 1,
    decreases text.len(),
{
    if text.len() > 0 {
        lemma_split_not_empty(text.drop_last(), separator);
    }
}

/// Joining the pieces of a split with the separator gives the text back, and no
/// piece holds the separator.
pub proof fn split_then_join(text: Seq<char>, separator: char)
    ensures
        joined(split(text, separator), seq![separator]) == text,
        forall|i: int|
            0 <= i < split(text, separator).len() ==> !(#[trigger] split(
                text,
                separator,
            )[i]).contains(separator),
    decreases text.len(),
{
    if text.len() > 0 {
        let init = text.drop_last();
        let before = split(init, separator);
        let after = split(text, separator);
        split_then_join(init, separator);
        lemma_split_not_empty(init, separator);
        assert(text =~= init.push(text.last()));
        if text.last() == separator {
            assert(after.drop_last() =~= before);
            assert(joined(after, seq![separator]) =~= text);
        } else {
            let grown = before.last().push(text.last());
            assert(after.drop_last() =~= before.drop_last());
            assert(joined(after, seq![separator]) =~= text);
            assert(!grown.contains(separator)) by {
                if grown.contains(separator) {
                    let k = choose|k: int| 0 <= k < grown.len() && grown[k] == separator;
                    assert(before.last()[k] == separator);
                    assert(before.last().contains(separator));
                }
            }
            assert forall|i: int| 0 <= i < after.len() implies !(#[trigger] after[i]).contains(
                separator,
            ) by {
                if i < after.len() - 1 {
                    assert(after[i] == before[i]);
                }
            }
        }
    } else {
        assert(split(text, separator)[0] =~= text);
    }
}

/// Text without the separator only makes the last piece longer.
proof fn lemma_split_tail(text: Seq<char>, tail: Seq<char>, separator: char)
    requires
        !tail.contains(separator),
    ensures
        split(text + tail, separator) == split(text, separator).drop_last().push(
            split(text, separator).last() + tail,
        ),
    decreases tail.len(),
{
    let pieces = split(text, separator);
    lemma_split_not_empty(text, separator);
    if tail.len() == 0 {
        assert(text + tail =~= text);
        assert(pieces.last() + tail =~= pieces.last());
        assert(pieces.drop_last().push(pieces.last()) =~= pieces);
    } else {
        let init = tail.drop_last();
        assert(!init.contains(separator)) by {
            if init.contains(separator) {
                let k = choose|k: int| 0 <= k < init.len() && init[k] == separator;
                assert(tail[k] == separator);
            }
        }
        lemma_split_tail(text, init, separator);
        let whole = text + tail;
        assert(tail[tail.len() - 1] != separator);
        assert(whole.drop_last() =~= text + init);
        let shorter = pieces.drop_last().push(pieces.last() + init);
        assert(shorter.drop_last() =~= pieces.drop_last());
        assert((pieces.last() + init).push(tail.last()) =~= pieces.last() + tail);
    }
}

/// Splitting pieces that were joined with the separator gives the pieces back, if
/// none of them holds it.
pub proof fn join_then_split(pieces: Seq<Seq<char>>, separator: char)
    requires
        pieces.len() > 0,
        forall|i: int| 0 <= i < pieces.len() ==> !(#[trigger] pieces[i]).contains(separator),
    ensures
        split(joined(pieces, seq![separator]), separator) == pieces,
    decreases pieces.len(),
{
    let last = pieces.last();
    let init = pieces.drop_last();
    let none: Seq<char> = Seq::empty();
    if init.len() == 0 {
        lemma_split_tail(none, last, separator);
        assert(none + last =~= last);
        assert(split(none, separator) =~= seq![none]);
        assert(split(last, separator) =~= pieces);
    } else {
        join_then_split(init, separator);
        let begun = joined(init, seq![separator]) + seq![separator];
        assert(begun.drop_last() =~= joined(init, seq![separator]));
        assert(split(begun, separator) =~= init.push(none));
        lemma_split_tail(begun, last, separator);
        assert(none + last =~= last);
        assert(init.push(none).drop_last() =~= init);
        assert(init.push(last) =~= pieces);
    }
}

/// Nothing joins to nothing, one piece to itself, and two rows of pieces to what
/// each of them joins to, with the separator between.
pub proof fn joining_goes_part_by_part(
    piece: Seq<char>,
    a: Seq<Seq<char>>,
    b: Seq<Seq<char>>,
    separator: Seq<char>,
)
    requires
        a.len() > 0,
        b.len() > 0,
    ensures
        joined(Seq::empty(), separator) == Seq::<char>::empty(),
        joined(seq![piece], separator) == piece,
        joined(a + b, separator) == joined(a, separator) + separator + joined(b, separator),
    decreases b.len(),
{
    let init = b.drop_last();
    assert((a + b).drop_last() =~= a + init);
    if init.len() == 0 {
        assert(a + init =~= a);
        assert(joined(b, separator) == b.last());
    } else {
        joining_goes_part_by_part(piece, a, init, separator);
        assert(joined(a, separator) + separator + joined(init, separator) + separator + b.last()
            =~= joined(a, separator) + separator + (joined(init, separator) + separator
            + b.last()));
    }
}

/// What stands before the first separator is the first piece.
proof fn lemma_split_first(piece: Seq<char>, rest: Seq<char>, separator: char)
    requires
        !piece.contains(separator),
    ensures
        split(piece + seq![separator] + rest, separator) == seq![piece] + split(rest, separator),
{
    let pieces = split(rest, separator);
    lemma_split_not_empty(rest, separator);
    split_then_join(rest, separator);
    joining_goes_part_by_part(piece, seq![piece], pieces, seq![separator]);
    let all = seq![piece] + pieces;
    assert forall|i: int| 0 <= i < all.len() implies !(#[trigger] all[i]).contains(separator) by {
        if i > 0 {
            assert(all[i] == pieces[i - 1]);
        }
    }
    join_then_split(all, separator);
}

/// Splits `text` at every `separator`.
pub fn split_on(text: &str, separator: char) -> (pieces: Vec<String>)
    ensures
        pieces.deep_view() == split(text@, separator),
        pieces@.len() >= 1,
{
    let chars: Vec<char> = characters(text);
    let mut pieces: Vec<String> = Vec::new();
    let mut piece: String = String::new();
    let mut i: usize = 0;
    proof {
        assert(pieces.deep_view().push(piece@) =~= split(chars@.take(0), separator));
    }
    while i < chars.len()
        invariant
            i <= chars@.len(),
            pieces.deep_view().push(piece@) == split(chars@.take(i as int), separator),
        decreases chars@.len() - i,
    {
        let c: char = chars[i];
        let ghost before = pieces.deep_view();
        let ghost current = piece@;
        proof {
            assert(chars@.take(i + 1).drop_last() =~= chars@.take(i as int));
            assert(before.push(current).drop_last() =~= before);
        }
        if c == separator {
            push_line(&mut pieces, piece);
            piece = String::new();
        } else {
            piece.push(c);
        }
        i += 1;
    }
    push_line(&mut pieces, piece);
    proof {
        assert(chars@.take(i as int) =~= text@);
    }
    pieces
}

/// Appends `line` to `lines`.
pub fn push_line(lines: &mut Vec<String>, line: String)
    ensures
        final(lines).deep_view() == old(lines).deep_view().push(line@),
        final(lines)@ == old(lines)@.push(line),
{
    let ghost before = lines.deep_view();
    lines.push(line);
    proof {
        assert(lines.deep_view() =~= before.push(line@));
    }
}

/// Appends `row` to `rows`.
pub fn push_row(rows: &mut Vec<Vec<String>>, row: Vec<String>)
    ensures
        final(rows).deep_view() == old(rows).deep_view().push(row.deep_view()),
{
    let ghost before = rows.deep_view();
    rows.push(row);
    proof {
        assert(rows.deep_view() =~= before.push(row.deep_view()));
    }
}

/// `line` without one carriage return at its end.
pub open spec fn without_return(line: Seq<char>) -> Seq<char> {
    if line.len() > 0 && line.last() == '\r' {
        line.drop_last()
    } else {
        line
    }
}

/// The lines of `text`. A line ends in a line feed, with or without a carriage
/// return before it; text after the last line feed is a line too, as it stands.
pub open spec fn lines_of(text: Seq<char>) -> Seq<Seq<char>> {
    let pieces = split(text, '\n');
    let ended = pieces.drop_last().map_values(|line: Seq<char>| without_return(line));
    if pieces.last().len() == 0 {
        ended
    } else {
        ended.push(pieces.last())
    }
}

/// A line ends in a line feed, which takes one carriage return before it along.
/// Text without a line feed is one line as it stands, and no text is no line.
pub proof fn lines_end_in_line_feeds(line: Seq<char>, rest: Seq<char>)
    requires
        !line.contains('\n'),
    ensures
        lines_of(Seq::empty()) == Seq::<Seq<char>>::empty(),
        line.len() > 0 ==> lines_of(line) == seq![line],
        line.len() == 0 || line.last() != '\r' ==> lines_of(line + seq!['\n'] + rest) == seq![line]
            + lines_of(rest),
        lines_of(line + seq!['\r', '\n'] + rest) == seq![line] + lines_of(rest),
{
    let none: Seq<char> = Seq::empty();
    assert(split(none, '\n') =~= seq![none]);
    assert(lines_of(none) =~= Seq::<Seq<char>>::empty());
    lemma_split_tail(none, line, '\n');
    assert(none + line =~= line);
    assert(split(line, '\n') =~= seq![line]);
    if line.len() > 0 {
        assert(lines_of(line) =~= seq![line]);
    }
    if line.len() == 0 || line.last() != '\r' {
        lemma_first_line(line, rest);
    }
    let returned = line.push('\r');
    assert(!returned.contains('\n')) by {
        if returned.contains('\n') {
            let k = choose|k: int| 0 <= k < returned.len() && returned[k] == '\n';
            assert(line[k] == '\n');
        }
    }
    lemma_first_line(returned, rest);
    assert(returned + seq!['\n'] + rest =~= line + seq!['\r', '\n'] + rest);
    assert(returned.drop_last() =~= line);
}

proof fn lemma_first_line(piece: Seq<char>, rest: Seq<char>)
    requires
        !piece.contains('\n'),
    ensures
        lines_of(piece + seq!['\n'] + rest) == seq![without_return(piece)] + lines_of(rest),
{
    let pieces = split(rest, '\n');
    lemma_split_not_empty(rest, '\n');
    lemma_split_first(piece, rest, '\n');
    let all = seq![piece] + pieces;
    assert(all.last() == pieces.last());
    assert(all.drop_last() =~= seq![piece] + pieces.drop_last());
    assert(all.drop_last().map_values(|line: Seq<char>| without_return(line)) =~= seq![
        without_return(piece),
    ] + pieces.drop_last().map_values(|line: Seq<char>| without_return(line)));
    assert(lines_of(piece + seq!['\n'] + rest) =~= seq![without_return(piece)] + lines_of(rest));
}

/// Splits `text` into its lines.
pub fn lines(text: &str) -> (result: Vec<String>)
    ensures
        result.deep_view() == lines_of(text@),
{
    let pieces: Vec<String> = split_on(text, '\n');
    let ghost all = pieces.deep_view();
    let ghost ended = all.drop_last().map_values(|line: Seq<char>| without_return(line));
    let mut result: Vec<String> = Vec::new();
    let last: usize = pieces.len() - 1;
    let mut i: usize = 0;
    while i < last
        invariant
            i <= last,
            last == pieces@.len() - 1,
            all == pieces.deep_view(),
            ended == all.drop_last().map_values(|line: Seq<char>| without_return(line)),
            result.deep_view() == ended.take(i as int),
        decreases last - i,
    {
        let line: String = drop_return(pieces[i].as_str());
        proof {
            assert(ended.take(i + 1) =~= ended.take(i as int).push(ended[i as int]));
        }
        push_line(&mut result, line);
        i += 1;
    }
    proof {
        assert(ended.take(last as int) =~= ended);
    }
    if !pieces[last].as_str().is_empty() {
        push_line(&mut result, pieces[last].clone());
    }
    result
}

fn drop_return(line: &str) -> (result: String)
    ensures
        result@ == without_return(line@),
{
    let chars: Vec<char> = characters(line);
    if chars.len() > 0 && chars[chars.len() - 1] == '\r' {
        let result: String = piece(&chars, 0, chars.len() - 1);
        proof {
            assert(result@ =~= line@.drop_last());
        }
        result
    } else {
        line.to_owned()
    }
}

/// The characters of `chars` from `from` up to `to`, as a text.
fn piece(chars: &Vec<char>, from: usize, to: usize) -> (result: String)
    requires
        from <= to <= chars@.len(),
    ensures
        result@ == chars@.subrange(from as int, to as int),
{
    let mut result: String = String::new();
    let mut i: usize = from;
    proof {
        assert(result@ =~= chars@.subrange(from as int, from as int));
    }
    while i < to
        invariant
            from <= i <= to <= chars@.len(),
            result@ == chars@.subrange(from as int, i as int),
        decreases to - i,
    {
        proof {
            assert(chars@.subrange(from as int, i + 1) =~= chars@.subrange(
                from as int,
                i as int,
            ).push(chars@[i as int]));
        }
        result.push(chars[i]);
        i += 1;
    }
    result
}

/// Joins `pieces`, with `separator` between neighbours.
pub fn join(pieces: &Vec<String>, separator: &str) -> (result: String)
    ensures
        result@ == joined(pieces.deep_view(), separator@),
{
    let ghost all = pieces.deep_view();
    let mut result: String = String::new();
    let mut i: usize = 0;
    while i < pieces.len()
        invariant
            i <= pieces@.len(),
            all == pieces.deep_view(),
            result@ == joined(all.take(i as int), separator@),
        decreases pieces@.len() - i,
    {
        proof {
            assert(all.take(i + 1).drop_last() =~= all.take(i as int));
        }
        if i > 0 {
            result.append(separator);
        }
        result.append(pieces[i].as_str());
        proof {
            if i == 0 {
                assert(result@ =~= all[0]);
            }
        }
        i += 1;
    }
    proof {
        assert(all.take(i as int) =~= all);
    }
    result
}

/// `text` with every occurrence of `pattern` turned into `with`, found from left
/// to right, none overlapping the one before.
pub open spec fn replaced(text: Seq<char>, pattern: Seq<char>, with: Seq<char>) -> Seq<char>
    decreases text.len(),
{
    if pattern.len() == 0 || text.len() < pattern.len() {
        text
    } else if pattern.is_prefix_of(text) {
        with + replaced(text.skip(pattern.len() as int), pattern, with)
    } else {
        seq![text[0]] + replaced(text.drop_first(), pattern, with)
    }
}

/// A text without the pattern stays as it is.
pub proof fn absent_patterns_change_nothing(
    text: Seq<char>,
    pattern: Seq<char>,
    with: Seq<char>,
)
    requires
        pattern.len() > 0,
        forall|i: int| 0 <= i < text.len() ==> !pattern.is_prefix_of(#[trigger] text.skip(i)),
    ensures
        replaced(text, pattern, with) == text,
    decreases text.len(),
{
    if text.len() >= pattern.len() {
        assert(text.skip(0) =~= text);
        let rest = text.drop_first();
        assert forall|i: int| 0 <= i < rest.len() implies !pattern.is_prefix_of(
            #[trigger] rest.skip(i),
        ) by {
            assert(rest.skip(i) =~= text.skip(i + 1));
        }
        absent_patterns_change_nothing(rest, pattern, with);
        assert(seq![text[0]] + rest =~= text);
    }
}

/// The first occurrence of the pattern is replaced, what stands before it stays, and
/// what stands behind it is looked through on its own.
pub proof fn first_occurrence_is_replaced(
    head: Seq<char>,
    pattern: Seq<char>,
    tail: Seq<char>,
    with: Seq<char>,
)
    requires
        pattern.len() > 0,
        forall|i: int|
            0 <= i < head.len() ==> !pattern.is_prefix_of(
                #[trigger] (head + pattern + tail).skip(i),
            ),
    ensures
        replaced(head + pattern + tail, pattern, with) == head + with + replaced(
            tail,
            pattern,
            with,
        ),
    decreases head.len(),
{
    let text = head + pattern + tail;
    if head.len() == 0 {
        assert(pattern =~= text.subrange(0, pattern.len() as int));
        assert(text.skip(pattern.len() as int) =~= tail);
        assert(head + with =~= with);
    } else {
        let rest = head.drop_first();
        assert(text.skip(0) =~= text);
        assert(text.drop_first() =~= rest + pattern + tail);
        assert forall|i: int| 0 <= i < rest.len() implies !pattern.is_prefix_of(
            #[trigger] (rest + pattern + tail).skip(i),
        ) by {
            assert((rest + pattern + tail).skip(i) =~= text.skip(i + 1));
        }
        first_occurrence_is_replaced(rest, pattern, tail, with);
        assert(seq![text[0]] + (rest + with + replaced(tail, pattern, with)) =~= head + with
            + replaced(tail, pattern, with));
    }
}

/// Replacing one character by another goes character by character.
pub proof fn characters_are_replaced(text: Seq<char>, old_one: char, new_one: char)
    ensures
        replaced(text, seq![old_one], seq![new_one]).len() == text.len(),
        forall|i: int|
            0 <= i < text.len() ==> #[trigger] replaced(text, seq![old_one], seq![new_one])[i]
                == (if text[i] == old_one {
                new_one
            } else {
                text[i]
            }),
    decreases text.len(),
{
    if text.len() > 0 {
        let pattern = seq![old_one];
        let rest = text.drop_first();
        characters_are_replaced(rest, old_one, new_one);
        assert(text.skip(1) =~= rest);
        assert(text.subrange(0, 1) =~= seq![text[0]]);
        let later = replaced(rest, pattern, seq![new_one]);
        if text[0] == old_one {
            assert(pattern =~= text.subrange(0, 1));
            assert(replaced(text, pattern, seq![new_one]) =~= seq![new_one] + later);
        } else {
            assert(pattern[0] != text.subrange(0, 1)[0]);
            assert(replaced(text, pattern, seq![new_one]) =~= seq![text[0]] + later);
        }
        assert forall|i: int| 0 <= i < text.len() implies #[trigger] replaced(
            text,
            pattern,
            seq![new_one],
        )[i] == (if text[i] == old_one {
            new_one
        } else {
            text[i]
        }) by {
            if i > 0 {
                assert(later[i - 1] == replaced(text, pattern, seq![new_one])[i]);
                assert(rest[i - 1] == text[i]);
            }
        }
    }
}

/// Replacing a character by nothing keeps all other characters, in order.
pub proof fn characters_are_removed(text: Seq<char>, unwanted: char)
    ensures
        replaced(text, seq![unwanted], Seq::empty()) == text.filter(|c: char| c != unwanted),
    decreases text.len(),
{
    let keep = |c: char| c != unwanted;
    if text.len() > 0 {
        let pattern = seq![unwanted];
        let rest = text.drop_first();
        characters_are_removed(rest, unwanted);
        assert(text.skip(1) =~= rest);
        assert(text.subrange(0, 1) =~= seq![text[0]]);
        assert(text =~= seq![text[0]] + rest);
        let first = seq![text[0]];
        Seq::filter_distributes_over_add(first, rest, keep);
        assert(first.drop_last() =~= Seq::<char>::empty());
        reveal_with_fuel(Seq::filter, 2);
        if text[0] == unwanted {
            assert(pattern =~= text.subrange(0, 1));
            assert(first.filter(keep) =~= Seq::<char>::empty());
        } else {
            assert(pattern[0] != text.subrange(0, 1)[0]);
            assert(first.filter(keep) =~= first);
        }
        assert(replaced(text, pattern, Seq::empty()) =~= text.filter(keep));
    } else {
        reveal(Seq::filter);
    }
}

/// Turns every occurrence of `pattern` in `text` into `with`.
pub fn replace(text: &str, pattern: &str, with: &str) -> (result: String)
    requires
        pattern@.len() > 0,
    ensures
        result@ == replaced(text@, pattern@, with@),
{
    let chars: Vec<char> = characters(text);
    let wanted: Vec<char> = characters(pattern);
    let mut result: String = String::new();
    let mut i: usize = 0;
    proof {
        assert(chars@.skip(0) =~= text@);
        assert(result@ + replaced(text@, pattern@, with@) =~= replaced(text@, pattern@, with@));
    }
    while i < chars.len()
        invariant
            i <= chars@.len(),
            chars@ == text@,
            wanted@ == pattern@,
            pattern@.len() > 0,
            result@ + replaced(text@.skip(i as int), pattern@, with@) == replaced(
                text@,
                pattern@,
                with@,
            ),
        decreases chars@.len() - i,
    {
        let ghost rest = text@.skip(i as int);
        let ghost before = result@;
        if begins_at(&chars, i, &wanted) {
            result.append(with);
            proof {
                assert(rest.skip(pattern@.len() as int) =~= text@.skip(i + pattern@.len()));
                assert(before + (with@ + replaced(
                    text@.skip(i + pattern@.len()),
                    pattern@,
                    with@,
                )) =~= result@ + replaced(text@.skip(i + pattern@.len()), pattern@, with@));
            }
            i += wanted.len();
        } else {
            result.push(chars[i]);
            proof {
                let tail = text@.skip(i + 1);
                assert(rest.drop_first() =~= tail);
                if rest.len() < pattern@.len() {
                    assert(rest =~= seq![rest[0]] + tail);
                    assert(before + rest =~= result@ + tail);
                } else {
                    assert(before + (seq![rest[0]] + replaced(tail, pattern@, with@)) =~= result@
                        + replaced(tail, pattern@, with@));
                }
            }
            i += 1;
        }
    }
    proof {
        assert(result@ + replaced(text@.skip(i as int), pattern@, with@) =~= result@);
    }
    result
}

/// Whether `c` is one of the ten decimal digits.
pub open spec fn is_digit(c: char) -> bool {
    '0' <= c <= '9'
}

/// The digit that stands for `n`, which is below ten.
pub open spec fn digit(n: nat) -> char {
    if n == 0 {
        '0'
    } else if n == 1 {
        '1'
    } else if n == 2 {
        '2'
    } else if n == 3 {
        '3'
    } else if n == 4 {
        '4'
    } else if n == 5 {
        '5'
    } else if n == 6 {
        '6'
    } else if n == 7 {
        '7'
    } else if n == 8 {
        '8'
    } else {
        '9'
    }
}

/// `n` in decimal, without leading zeros.
pub open spec fn decimal(n: nat) -> Seq<char>
    decreases n,
{
    if n < 10 {
        seq![digit(n)]
    } else {
        decimal(n / 10).push(digit(n % 10))
    }
}

/// The number that a row of decimal digits stands for.
pub open spec fn value_of(digits: Seq<char>) -> nat
    decreases digits.len(),
{
    if digits.len() == 0 {
        0
    } else {
        value_of(digits.drop_last()) * 10 + (digits.last() as nat - '0' as nat) as nat
    }
}

/// `text` without one plus sign in front.
pub open spec fn unsigned_part(text: Seq<char>) -> Seq<char> {
    if text.len() > 0 && text[0] == '+' {
        text.drop_first()
    } else {
        text
    }
}

/// The number up to `max` that `text` stands for: at least one digit and nothing
/// but digits, after at most one plus sign.
pub open spec fn number_in(text: Seq<char>, max: nat) -> Option<nat> {
    let digits = unsigned_part(text);
    if digits.len() > 0 && (forall|i: int| 0 <= i < digits.len() ==> is_digit(digits[i]))
        && value_of(digits) <= max {
        Some(value_of(digits))
    } else {
        None
    }
}

fn digit_char(n: u8) -> (c: char)
    requires
        n < 10,
    ensures
        c == digit(n as nat),
{
    match n {
        0 => '0',
        1 => '1',
        2 => '2',
        3 => '3',
        4 => '4',
        5 => '5',
        6 => '6',
        7 => '7',
        8 => '8',
        _ => '9',
    }
}

/// Writes `n` in decimal.
pub fn to_decimal(n: u128) -> (result: String)
    ensures
        result@ == decimal(n as nat),
    decreases n,
{
    let mut result: String = if n < 10 {
        String::new()
    } else {
        to_decimal(n / 10)
    };
    result.push(digit_char((n % 10) as u8));
    proof {
        if n < 10 {
            assert(result@ =~= seq![digit(n as nat)]);
        }
    }
    result
}

/// Reads the number up to `max` that `text` stands for.
pub fn to_number(text: &str, max: u64) -> (result: Option<u64>)
    ensures
        (match result {
            Some(n) => Some(n as nat),
            None => None,
        }) == number_in(text@, max as nat),
{
    let chars: Vec<char> = characters(text);
    let start: usize = if chars.len() > 0 && chars[0] == '+' {
        1
    } else {
        0
    };
    let ghost digits = unsigned_part(text@);
    proof {
        assert(digits =~= text@.skip(start as int));
    }
    if start == chars.len() {
        return None;
    }
    let mut value: u64 = 0;
    let mut i: usize = start;
    while i < chars.len()
        invariant
            start <= i <= chars@.len(),
            chars@ == text@,
            digits == unsigned_part(text@),
            digits == text@.skip(start as int),
            value == value_of(digits.take(i - start)),
            value <= max,
            forall|k: int| 0 <= k < i - start ==> is_digit(#[trigger] digits[k]),
        decreases chars@.len() - i,
    {
        let c: char = chars[i];
        let ghost at = i - start;
        proof {
            assert(digits[at] == c);
            assert(digits.take(at + 1).drop_last() =~= digits.take(at));
        }
        if c < '0' || c > '9' {
            return None;
        }
        let next: u128 = (value as u128) * 10 + ((c as u32) - ('0' as u32)) as u128;
        proof {
            lemma_value_of_prefix(digits, at + 1);
        }
        if next > max as u128 {
            return None;
        }
        value = next as u64;
        i += 1;
    }
    proof {
        assert(digits.take(digits.len() as int) =~= digits);
    }
    Some(value)
}

/// More digits never make a number smaller.
proof fn lemma_value_of_prefix(digits: Seq<char>, n: int)
    requires
        0 <= n <= digits.len(),
    ensures
        value_of(digits.take(n)) <= value_of(digits),
    decreases digits.len(),
{
    if n == digits.len() {
        assert(digits.take(n) =~= digits);
    } else {
        lemma_value_of_prefix(digits.drop_last(), n);
        assert(digits.drop_last().take(n) =~= digits.take(n));
    }
}

/// Every number that fits is read back from its decimal form, which is made of
/// digits alone.
pub proof fn decimal_then_number(n: nat, max: nat)
    requires
        n <= max,
    ensures
        number_in(decimal(n), max) == Some(n),
        forall|i: int| 0 <= i < decimal(n).len() ==> is_digit(#[trigger] decimal(n)[i]),
{
    lemma_decimal(n);
    assert(is_digit(decimal(n)[0]));
    assert(unsigned_part(decimal(n)) == decimal(n));
}

proof fn lemma_decimal(n: nat)
    ensures
        decimal(n).len() > 0,
        value_of(decimal(n)) == n,
        forall|i: int| 0 <= i < decimal(n).len() ==> is_digit(#[trigger] decimal(n)[i]),
    decreases n,
{
    if n < 10 {
        assert(decimal(n).drop_last() =~= Seq::<char>::empty());
        assert(value_of(decimal(n)) == value_of(decimal(n).drop_last()) * 10 + n);
    } else {
        lemma_decimal(n / 10);
        assert(decimal(n).drop_last() =~= decimal(n / 10));
    }
}

/// A number is read digit by digit, after at most one plus sign; anything else is
/// no number, and neither is one above the limit.
pub proof fn numbers_are_read_digit_by_digit(text: Seq<char>, c: char, max: nat)
    ensures
        number_in(Seq::empty(), max) is None,
        number_in(seq!['+'], max) is None,
        '0' <= c <= '9' && c as int - '0' as int <= max ==> number_in(seq![c], max) == Some((c as int - '0' as int) as nat),
        '0' <= c <= '9' && c as int - '0' as int > max ==> number_in(seq![c], max) is None,
        '0' <= c <= '9' ==> number_in(seq!['+', c], max) == number_in(seq![c], max),
        '0' <= c <= '9' && text.len() > 0 && text != seq!['+'] ==> number_in(text.push(c), max)
            == match number_in(text, max) {
            Some(n) => if n * 10 + (c as int - '0' as int) <= max {
                Some((n * 10 + (c as int - '0' as int)) as nat)
            } else {
                None
            },
            None => None,
        },
        !('0' <= c <= '9') && (c != '+' || text.len() > 0) ==> number_in(
            text.push(c),
            max,
        ) is None,
{
    let one = seq![c];
    let signed = seq!['+', c];
    assert(seq!['+'].drop_first() =~= Seq::<char>::empty());
    assert(signed.drop_first() =~= one);
    assert(one.drop_last() =~= Seq::<char>::empty());
    assert(value_of(one.drop_last()) == 0);
    assert(one[0] == c);
    let longer = text.push(c);
    let before = unsigned_part(text);
    let after = unsigned_part(longer);
    if text.len() > 0 {
        assert(after =~= before.push(c));
        assert(after.drop_last() =~= before);
        assert(after[after.len() - 1] == c);
        assert(forall|i: int| 0 <= i < before.len() ==> before[i] == #[trigger] after[i]);
        if text != seq!['+'] {
            if before.len() == 0 {
                assert(text =~= seq!['+']);
            }
            if '0' <= c <= '9' {
                assert(value_of(after) == value_of(before) * 10 + (c as int - '0' as int));
                if forall|i: int| 0 <= i < before.len() ==> is_digit(before[i]) {
                    assert(forall|i: int| 0 <= i < after.len() ==> is_digit(after[i]));
                } else {
                    let k = choose|k: int| 0 <= k < before.len() && !is_digit(before[k]);
                    assert(!is_digit(after[k]));
                }
            }
        }
    } else {
        assert(longer =~= one);
        assert(c != '+' ==> unsigned_part(longer)[0] == c);
    }
}

/// A number is written in decimal without leading zeros.
pub proof fn decimals_have_no_leading_zeros(n: nat)
    ensures
        n < 10 ==> decimal(n) == seq![(n + '0' as nat) as char],
        n >= 10 ==> decimal(n).len() > 1 && decimal(n)[0] != '0',
        number_in(decimal(n), n) == Some(n),
    decreases n,
{
    decimal_then_number(n, n);
    if n >= 10 {
        lemma_decimal(n / 10);
        decimals_have_no_leading_zeros(n / 10);
        if n / 10 < 10 {
            assert(decimal(n)[0] == decimal(n / 10)[0]);
        }
    }
}

/// Whether `a` comes before `b` in alphabetical order, character by character;
/// a text comes after each of its proper prefixes.
pub open spec fn precedes(a: Seq<char>, b: Seq<char>) -> bool
    decreases a.len(),
{
    if b.len() == 0 {
        false
    } else if a.len() == 0 {
        true
    } else if a[0] != b[0] {
        a[0] < b[0]
    } else {
        precedes(a.drop_first(), b.drop_first())
    }
}

/// Whether `a` comes before `b` in alphabetical order.
pub fn is_before(a: &str, b: &str) -> (result: bool)
    ensures
        result == precedes(a@, b@),
{
    let left: Vec<char> = characters(a);
    let right: Vec<char> = characters(b);
    let mut i: usize = 0;
    proof {
        assert(a@.skip(0) =~= a@);
        assert(b@.skip(0) =~= b@);
    }
    while i < left.len() && i < right.len()
        invariant
            i <= left@.len(),
            i <= right@.len(),
            left@ == a@,
            right@ == b@,
            precedes(a@, b@) == precedes(a@.skip(i as int), b@.skip(i as int)),
        decreases left@.len() - i,
    {
        if left[i] != right[i] {
            return left[i] < right[i];
        }
        proof {
            assert(a@.skip(i as int).drop_first() =~= a@.skip(i + 1));
            assert(b@.skip(i as int).drop_first() =~= b@.skip(i + 1));
        }
        i += 1;
    }
    i < right.len()
}

/// The alphabetical order is strict and total: of two different texts exactly one
/// comes first.
pub proof fn order_is_total(a: Seq<char>, b: Seq<char>)
    ensures
        !precedes(a, a),
        a != b ==> precedes(a, b) != precedes(b, a),
    decreases a.len(),
{
    if a.len() > 0 {
        order_is_total(a.drop_first(), a.drop_first());
    }
    if a.len() > 0 && b.len() > 0 && a[0] == b[0] {
        order_is_total(a.drop_first(), b.drop_first());
        if a.drop_first() == b.drop_first() {
            assert(a =~= seq![a[0]] + a.drop_first());
            assert(b =~= seq![b[0]] + b.drop_first());
        }
    } else if a.len() == 0 && b.len() == 0 {
        assert(a =~= b);
    }
}

/// What comes before a text comes before everything that follows that text.
pub proof fn order_is_transitive(a: Seq<char>, b: Seq<char>, c: Seq<char>)
    requires
        precedes(a, b),
        precedes(b, c),
    ensures
        precedes(a, c),
    decreases a.len(),
{
    if a.len() > 0 && a[0] == b[0] && b[0] == c[0] {
        order_is_transitive(a.drop_first(), b.drop_first(), c.drop_first());
    }
}

/// The first character in which two texts differ decides, and a text comes before
/// what it is a part of.
pub proof fn first_difference_decides(
    common: Seq<char>,
    a: char,
    b: char,
    x: Seq<char>,
    y: Seq<char>,
)
    ensures
        precedes(common, common.push(a) + x),
        !precedes(common.push(a) + x, common),
        a < b ==> precedes(common.push(a) + x, common.push(b) + y),
        b < a ==> !precedes(common.push(a) + x, common.push(b) + y),
    decreases common.len(),
{
    let p = common.push(a) + x;
    let q = common.push(b) + y;
    if common.len() > 0 {
        let rest = common.drop_first();
        first_difference_decides(rest, a, b, x, y);
        assert(p.drop_first() =~= rest.push(a) + x);
        assert(q.drop_first() =~= rest.push(b) + y);
    } else {
        assert(p[0] == a && q[0] == b);
    }
}

} // verus!
