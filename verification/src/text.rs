//! The textual representation of a grid: rendering to the two-character
//! alphabet `{'.', '#'}`, parsing seed lines written in it, and the law that
//! the two are inverse to each other.

use vstd::prelude::*;

verus! {

/// The glyph of one cell: `'#'` for alive, `'.'` for dead.
pub open spec fn cell_char(b: bool) -> char {
    if b {
        '#'
    } else {
        '.'
    }
}

/// One rendered row: the glyph of each cell, without a line terminator.
pub open spec fn format_row_spec(row: Seq<bool>) -> Seq<char> {
    row.map_values(|b: bool| cell_char(b))
}

/// The full rendering: one line per row, each followed by `'\n'`.
pub open spec fn format_spec(g: Seq<Seq<bool>>) -> Seq<char>
    decreases g.len(),
{
    if g.len() == 0 {
        Seq::empty()
    } else {
        format_spec(g.drop_last()) + format_row_spec(g.last()).push('\n')
    }
}

/// Whether every character of a seed line lies in the alphabet `{'.', '#'}`.
pub open spec fn row_chars_ok(s: Seq<char>) -> bool {
    forall|i: int| 0 <= i < s.len() ==> (#[trigger] s[i]) == '#' || s[i] == '.'
}

/// The cells a seed line denotes, assuming its characters are in the alphabet.
pub open spec fn parse_row_cells(s: Seq<char>) -> Seq<bool> {
    s.map_values(|c: char| c == '#')
}

/// Whether every line of a seed lies in the alphabet.
pub open spec fn grid_lines_ok(lines: Seq<Seq<char>>) -> bool {
    forall|i: int| 0 <= i < lines.len() ==> row_chars_ok(#[trigger] lines[i])
}

/// Parsing a whole seed, line by line: `Some` exactly when every character of
/// every line is in the alphabet.
pub open spec fn parse_grid_spec(lines: Seq<Seq<char>>) -> Option<Seq<Seq<bool>>> {
    if grid_lines_ok(lines) {
        Some(Seq::new(lines.len(), |i: int| parse_row_cells(lines[i])))
    } else {
        None
    }
}

/// The lines of a text: `'\n'` closes a line, and a trailing unterminated
/// piece counts as one more line.
pub open spec fn split_lines(s: Seq<char>) -> Seq<Seq<char>>
    decreases s.len(),
{
    if s.len() == 0 {
        Seq::empty()
    } else if s[0] == '\n' {
        seq![Seq::<char>::empty()] + split_lines(s.drop_first())
    } else {
        let rest = split_lines(s.drop_first());
        if rest.len() == 0 {
            seq![seq![s[0]]]
        } else {
            seq![seq![s[0]] + rest[0]] + rest.skip(1)
        }
    }
}

/// A rendered row never contains a line terminator: its characters all come
/// from the alphabet.
pub proof fn lemma_row_no_newline(row: Seq<bool>)
    ensures
        !format_row_spec(row).contains('\n'),
{
    let line = format_row_spec(row);
    assert forall|i: int| 0 <= i < line.len() implies line[i] != '\n' by {
        assert(line[i] == cell_char(row[i]));
    }
}

/// Splitting starts over after a terminated first line.
pub proof fn lemma_split_prepend(line: Seq<char>, rest: Seq<char>)
    requires
        !line.contains('\n'),
    ensures
        split_lines(line + seq!['\n'] + rest) == seq![line] + split_lines(rest),
    decreases line.len(),
{
    let s = line + seq!['\n'] + rest;
    if line.len() == 0 {
        assert(s =~= seq!['\n'] + rest);
        assert(s[0] == '\n');
        assert(s.drop_first() =~= rest);
        assert(Seq::<char>::empty() =~= line);
    } else {
        assert(s[0] == line[0]);
        assert(line[0] != '\n');
        assert(s.drop_first() =~= line.drop_first() + seq!['\n'] + rest);
        assert(!line.drop_first().contains('\n')) by {
            assert forall|i: int| 0 <= i < line.drop_first().len() implies line.drop_first()[i]
                != '\n' by {
                assert(line.drop_first()[i] == line[i + 1]);
            }
        }
        lemma_split_prepend(line.drop_first(), rest);
        let rest_split = split_lines(s.drop_first());
        assert(rest_split == seq![line.drop_first()] + split_lines(rest));
        assert(rest_split.len() >= 1);
        assert(seq![s[0]] + rest_split[0] =~= line);
        assert(rest_split.skip(1) =~= split_lines(rest));
        assert(split_lines(s) =~= seq![line] + split_lines(rest));
    }
}

/// The render of a non-empty grid starts with its first rendered row, closed
/// by a terminator, followed by the render of the remaining rows.
pub proof fn lemma_format_front(g: Seq<Seq<bool>>)
    requires
        g.len() > 0,
    ensures
        format_spec(g) == format_row_spec(g[0]) + seq!['\n'] + format_spec(g.drop_first()),
    decreases g.len(),
{
    if g.len() == 1 {
        assert(g.drop_last() =~= Seq::<Seq<bool>>::empty());
        assert(g.drop_first() =~= Seq::<Seq<bool>>::empty());
        assert(g.last() == g[0]);
        assert(format_spec(g) =~= format_row_spec(g[0]) + seq!['\n'] + format_spec(
            g.drop_first(),
        ));
    } else {
        let body = g.drop_last();
        lemma_format_front(body);
        assert(body[0] == g[0]);
        assert(body.drop_first() =~= g.drop_first().drop_last());
        assert(g.drop_first().last() == g.last());
        assert(format_spec(g.drop_first()) == format_spec(g.drop_first().drop_last())
            + format_row_spec(g.drop_first().last()).push('\n'));
        assert(format_spec(g) =~= format_row_spec(g[0]) + seq!['\n'] + format_spec(
            g.drop_first(),
        ));
    }
}

/// Splitting the rendered text of a grid yields exactly its rendered rows.
pub proof fn lemma_split_render(g: Seq<Seq<bool>>)
    ensures
        split_lines(format_spec(g)) == g.map_values(|row: Seq<bool>| format_row_spec(row)),
    decreases g.len(),
{
    if g.len() == 0 {
        assert(split_lines(format_spec(g)) =~= g.map_values(
            |row: Seq<bool>| format_row_spec(row),
        ));
    } else {
        lemma_format_front(g);
        lemma_row_no_newline(g[0]);
        lemma_split_prepend(format_row_spec(g[0]), format_spec(g.drop_first()));
        lemma_split_render(g.drop_first());
        assert(g.map_values(|row: Seq<bool>| format_row_spec(row)) =~= seq![format_row_spec(g[0])]
            + g.drop_first().map_values(|row: Seq<bool>| format_row_spec(row)));
    }
}

/// Round trip: rendering a grid row by row and parsing the rendered lines as a
/// seed restores exactly the grid that was rendered.
pub proof fn lemma_format_parse_round_trip(g: Seq<Seq<bool>>)
    ensures
        parse_grid_spec(g.map_values(|row: Seq<bool>| format_row_spec(row))) == Some(g),
{
    let lines = g.map_values(|row: Seq<bool>| format_row_spec(row));
    assert forall|i: int| 0 <= i < lines.len() implies row_chars_ok(#[trigger] lines[i]) by {
        assert(forall|j: int|
            0 <= j < lines[i].len() ==> (#[trigger] lines[i][j]) == cell_char(g[i][j]));
    }
    let parsed = Seq::new(lines.len(), |i: int| parse_row_cells(lines[i]));
    assert forall|i: int| 0 <= i < g.len() implies parsed[i] == g[i] by {
        assert forall|j: int| 0 <= j < g[i].len() implies parsed[i][j] == g[i][j] by {
            assert(lines[i][j] == cell_char(g[i][j]));
        }
        assert(parsed[i] =~= g[i]);
    }
    assert(parsed =~~= g);
}

/// The round trip over the full rendered text: the render of a grid, split
/// into its lines and parsed back as a seed, reproduces the identical grid.
pub proof fn lemma_render_parse_round_trip(g: Seq<Seq<bool>>)
    ensures
        parse_grid_spec(split_lines(format_spec(g))) == Some(g),
{
    lemma_split_render(g);
    lemma_format_parse_round_trip(g);
}

} // verus!
