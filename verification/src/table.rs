//! Tables drawn with characters.
use vstd::prelude::*;

verus! {

/// Where a reader of terminal text stands towards escape sequences.
#[derive(Clone, Copy, Debug, PartialEq, Eq, Structural)]
pub enum Escape {
    /// Outside of any sequence.
    Outside,
    /// Just behind the escape character.
    Begun,
    /// Behind the opening bracket and not yet behind the closing `m`.
    Inside,
}

/// Where the reader stands after `c`. A new line is read from outside.
pub open spec fn escape_after(state: Escape, c: char) -> Escape {
    if c == '\n' {
        Escape::Outside
    } else {
        match state {
            Escape::Outside => if c == '\x1B' {
                Escape::Begun
            } else {
                Escape::Outside
            },
            Escape::Begun => if c == '[' {
                Escape::Inside
            } else {
                Escape::Outside
            },
            Escape::Inside => if c == 'm' {
                Escape::Outside
            } else {
                Escape::Inside
            },
        }
    }
}

/// Whether every character that `text` has inside an escape sequence is an ASCII
/// character, for a reader who comes to it in `state`.
pub open spec fn ascii_escapes_from(text: Seq<char>, state: Escape) -> bool
    decreases text.len(),
{
    if text.len() == 0 {
        true
    } else {
        &&& state == Escape::Inside ==> text[0] <= '\x7F'
        &&& ascii_escapes_from(text.drop_first(), escape_after(state, text[0]))
    }
}

/// Whether the width of `text` on a terminal can be told: a character inside an
/// escape sequence has to be an ASCII character.
pub open spec fn measurable(text: Seq<char>) -> bool {
    ascii_escapes_from(text, Escape::Outside)
}

/// Whether the width of every cell of `rows` can be told.
pub open spec fn all_measurable(rows: Seq<Seq<Seq<char>>>) -> bool {
    forall|i: int, j: int|
        0 <= i < rows.len() && 0 <= j < rows[i].len() ==> measurable(#[trigger] rows[i][j])
}

/// What `prettytable::Table` writes for a table with these rows of cells, in its
/// default format and without titles.
pub uninterp spec fn table_text(rows: Seq<Seq<Seq<char>>>) -> Seq<char>;

/// Fills a `prettytable::Table` with one `prettytable::Row` of `prettytable::Cell`
/// for each row and writes it with `format`. The text depends on the cells alone;
/// what it looks like is left to `table_text`. The outside crate gives up on a
/// cell whose width it takes to be negative, which needs characters that are not
/// ASCII inside an escape sequence.
#[verifier::external_body]
pub(crate) fn draw_table(rows: &Vec<Vec<String>>) -> (result: String)
    requires
        all_measurable(rows.deep_view()),
    ensures
        result@ == table_text(rows.deep_view()),
{
    let mut table = prettytable::Table::new();
    for row in rows {
        table.add_row(prettytable::Row::new(
            row.iter().map(|cell| prettytable::Cell::new(cell)).collect(),
        ));
    }
    format!("{}", table)
}

/// Tells whether the width of `text` can be told.
pub fn is_measurable(text: &str) -> (result: bool)
    ensures
        result == measurable(text@),
{
    let chars: Vec<char> = crate::text::characters(text);
    let mut state: Escape = Escape::Outside;
    let mut i: usize = 0;
    proof {
        assert(text@.skip(0) =~= text@);
    }
    while i < chars.len()
        invariant
            i <= chars@.len(),
            chars@ == text@,
            measurable(text@) == ascii_escapes_from(text@.skip(i as int), state),
        decreases chars@.len() - i,
    {
        let c: char = chars[i];
        proof {
            assert(text@.skip(i as int).drop_first() =~= text@.skip(i + 1));
        }
        if state == Escape::Inside && c > '\x7F' {
            return false;
        }
        state = next_escape(state, c);
        i += 1;
    }
    true
}

/// Tells whether the width of every cell of `rows` can be told.
pub fn are_measurable(rows: &Vec<Vec<String>>) -> (result: bool)
    ensures
        result == all_measurable(rows.deep_view()),
{
    let ghost all = rows.deep_view();
    let mut i: usize = 0;
    while i < rows.len()
        invariant
            i <= rows@.len(),
            all == rows.deep_view(),
            forall|a: int, b: int|
                0 <= a < i && 0 <= b < all[a].len() ==> measurable(#[trigger] all[a][b]),
        decreases rows@.len() - i,
    {
        let row: &Vec<String> = &rows[i];
        let mut j: usize = 0;
        while j < row.len()
            invariant
                i < rows@.len(),
                j <= row@.len(),
                *row == rows@[i as int],
                all == rows.deep_view(),
                forall|b: int| 0 <= b < j ==> measurable(#[trigger] all[i as int][b]),
            decreases row@.len() - j,
        {
            proof {
                assert(all[i as int][j as int] == row@[j as int]@);
            }
            if !is_measurable(row[j].as_str()) {
                return false;
            }
            j += 1;
        }
        i += 1;
    }
    true
}

fn next_escape(state: Escape, c: char) -> (next: Escape)
    ensures
        next == escape_after(state, c),
{
    if c == '\n' {
        return Escape::Outside;
    }
    match state {
        Escape::Outside => if c == '\x1B' {
            Escape::Begun
        } else {
            Escape::Outside
        },
        Escape::Begun => if c == '[' {
            Escape::Inside
        } else {
            Escape::Outside
        },
        Escape::Inside => if c == 'm' {
            Escape::Outside
        } else {
            Escape::Inside
        },
    }
}

/// A text without the escape character can always be measured.
pub proof fn plain_text_is_measurable(text: Seq<char>)
    requires
        !text.contains('\x1B'),
    ensures
        measurable(text),
    decreases text.len(),
{
    if text.len() > 0 {
        assert(text[0] != '\x1B');
        assert(!text.drop_first().contains('\x1B')) by {
            if text.drop_first().contains('\x1B') {
                let k = choose|k: int|
                    0 <= k < text.drop_first().len() && text.drop_first()[k] == '\x1B';
                assert(text[k + 1] == '\x1B');
            }
        }
        plain_text_is_measurable(text.drop_first());
    }
}

/// What can be measured, piece by piece: a character that begins no escape sequence
/// does not matter, nor does an escape character without its bracket; an escape
/// sequence, which a closing `m` or the end of the line ends, has to be ASCII.
pub proof fn only_escapes_are_hard_to_measure(c: char, inner: Seq<char>, rest: Seq<char>)
    requires
        !inner.contains('m'),
        !inner.contains('\n'),
    ensures
        measurable(Seq::empty()),
        measurable(seq!['\x1B']),
        c != '\x1B' ==> measurable(seq![c] + rest) == measurable(rest),
        c != '[' ==> measurable(seq!['\x1B', c] + rest) == measurable(rest),
        measurable(seq!['\x1B', '['] + inner) == (forall|i: int|
            0 <= i < inner.len() ==> #[trigger] inner[i] <= '\x7F'),
        measurable(seq!['\x1B', '['] + inner + seq!['m'] + rest) == ((forall|i: int|
            0 <= i < inner.len() ==> #[trigger] inner[i] <= '\x7F') && measurable(rest)),
        measurable(seq!['\x1B', '['] + inner + seq!['\n'] + rest) == ((forall|i: int|
            0 <= i < inner.len() ==> #[trigger] inner[i] <= '\x7F') && measurable(rest)),
{
    reveal_with_fuel(ascii_escapes_from, 3);
    let none: Seq<char> = Seq::empty();
    assert(seq!['\x1B'].drop_first() =~= none);
    assert((seq![c] + rest).drop_first() =~= rest);
    let escaped = seq!['\x1B', c] + rest;
    assert(escaped.drop_first() =~= seq![c] + rest);
    lemma_bracket(inner);
    assert(inner + none =~= inner);
    lemma_inside(inner, none);
    lemma_bracket(inner + seq!['m'] + rest);
    lemma_inside(inner, seq!['m'] + rest);
    assert((seq!['m'] + rest).drop_first() =~= rest);
    assert(inner + (seq!['m'] + rest) =~= inner + seq!['m'] + rest);
    assert(seq!['\x1B', '['] + (inner + seq!['m'] + rest) =~= seq!['\x1B', '['] + inner + seq!['m']
        + rest);
    lemma_bracket(inner + seq!['\n'] + rest);
    lemma_inside(inner, seq!['\n'] + rest);
    assert((seq!['\n'] + rest).drop_first() =~= rest);
    assert(inner + (seq!['\n'] + rest) =~= inner + seq!['\n'] + rest);
    assert(seq!['\x1B', '['] + (inner + seq!['\n'] + rest) =~= seq!['\x1B', '['] + inner
        + seq!['\n'] + rest);
}

proof fn lemma_bracket(text: Seq<char>)
    ensures
        measurable(seq!['\x1B', '['] + text) == ascii_escapes_from(text, Escape::Inside),
{
    reveal_with_fuel(ascii_escapes_from, 3);
    let whole = seq!['\x1B', '['] + text;
    assert(whole.drop_first() =~= seq!['['] + text);
    assert((seq!['['] + text).drop_first() =~= text);
}

proof fn lemma_inside(inner: Seq<char>, rest: Seq<char>)
    requires
        !inner.contains('m'),
        !inner.contains('\n'),
    ensures
        ascii_escapes_from(inner + rest, Escape::Inside) == ((forall|i: int|
            0 <= i < inner.len() ==> #[trigger] inner[i] <= '\x7F') && ascii_escapes_from(
            rest,
            Escape::Inside,
        )),
    decreases inner.len(),
{
    if inner.len() == 0 {
        assert(inner + rest =~= rest);
    } else {
        let later = inner.drop_first();
        assert(inner[0] != 'm' && inner[0] != '\n');
        assert(forall|i: int| 0 <= i < later.len() ==> later[i] == #[trigger] inner[i + 1]);
        assert(!later.contains('m') && !later.contains('\n')) by {
            if later.contains('m') {
                let k = choose|k: int| 0 <= k < later.len() && later[k] == 'm';
                assert(inner[k + 1] == 'm');
            }
            if later.contains('\n') {
                let k = choose|k: int| 0 <= k < later.len() && later[k] == '\n';
                assert(inner[k + 1] == '\n');
            }
        }
        lemma_inside(later, rest);
        assert((inner + rest).drop_first() =~= later + rest);
        if forall|i: int| 0 <= i < later.len() ==> #[trigger] later[i] <= '\x7F' {
            assert(forall|i: int| 1 <= i < inner.len() ==> inner[i] == #[trigger] later[i - 1]);
            assert forall|i: int| 0 <= i < inner.len() && inner[0] <= '\x7F' implies
                #[trigger] inner[i] <= '\x7F' by {
                if i > 0 {
                    assert(inner[i] == later[i - 1]);
                }
            }
        } else {
            let k = choose|k: int| 0 <= k < later.len() && later[k] > '\x7F';
            assert(inner[k + 1] > '\x7F');
        }
    }
}

} // verus!
