//! Seed handling: configuration and seed validation, parsing of seed lines
//! over the alphabet `{'.', '#'}`, and pseudo-random seed generation.

use vstd::prelude::*;

use crate::grid::{grid_view, rectangular};
use crate::text::{parse_row_cells, row_chars_ok};

verus! {

/// The failures that keep a simulation from starting. They are structural
/// preconditions, so all of them are fatal: there is no partial success.
#[derive(Clone, Copy, Debug, PartialEq, Eq, Structural)]
pub enum LifeError {
    /// A non-positive grid dimension.
    Config,
    /// An empty seed, or a row whose length differs from the first row's.
    Shape,
    /// A seed character outside `{'.', '#'}`.
    Alphabet,
}

/// Height and width must both be positive for a simulation to start.
pub fn validate_dims(height: usize, width: usize) -> (r: Result<(), LifeError>)
    ensures
        r is Ok <==> (height >= 1 && width >= 1),
        r matches Err(e) ==> e == LifeError::Config,
{
    if height >= 1 && width >= 1 {
        Ok(())
    } else {
        Err(LifeError::Config)
    }
}

/// Parse one seed line: it must be exactly `width` characters over
/// `{'.', '#'}`. A character outside the alphabet is reported first, as the
/// line is scanned; only a fully-decoded line of the wrong length is a shape
/// error.
pub fn parse_line(l: &str, width: usize) -> (r: Result<Vec<bool>, LifeError>)
    ensures
        r is Ok <==> (row_chars_ok(l@) && l@.len() == width),
        r matches Ok(row) ==> row@ == parse_row_cells(l@),
        !row_chars_ok(l@) ==> r == Err::<Vec<bool>, LifeError>(LifeError::Alphabet),
        row_chars_ok(l@) && l@.len() != width ==> r == Err::<Vec<bool>, LifeError>(
            LifeError::Shape,
        ),
{
    let n = l.unicode_len();
    let mut row: Vec<bool> = Vec::new();
    let mut i: usize = 0;
    while i < n
        invariant
            n == l@.len(),
            i <= n,
            row@.len() == i,
            forall|k: int| 0 <= k < i ==> ((#[trigger] l@[k]) == '#' || l@[k] == '.'),
            forall|k: int| 0 <= k < i ==> row@[k] == (l@[k] == '#'),
        decreases n - i,
    {
        let ch = l.get_char(i);
        if ch == '#' {
            row.push(true);
        } else if ch == '.' {
            row.push(false);
        } else {
            proof {
                assert(!(l@[i as int] == '#' || l@[i as int] == '.'));
            }
            return Err(LifeError::Alphabet);
        }
        i += 1;
    }
    if row.len() != width {
        return Err(LifeError::Shape);
    }
    proof {
        assert(row@ =~= parse_row_cells(l@));
    }
    Ok(row)
}

/// Accept a list of parsed rows as a grid: there must be at least one row,
/// the first row must not be empty, and every row must be as long as the
/// first. Anything else is a shape error.
pub fn build_grid(rows: Vec<Vec<bool>>) -> (r: Result<Vec<Vec<bool>>, LifeError>)
    ensures
        r is Ok <==> rectangular(grid_view(rows)),
        r matches Ok(g) ==> grid_view(g) == grid_view(rows),
        r matches Err(e) ==> e == LifeError::Shape,
{
    if rows.len() == 0 {
        return Err(LifeError::Shape);
    }
    let w = rows[0].len();
    if w == 0 {
        return Err(LifeError::Shape);
    }
    let mut i: usize = 1;
    while i < rows.len()
        invariant
            rows@.len() >= 1,
            w == rows@[0]@.len(),
            w >= 1,
            1 <= i <= rows@.len(),
            forall|k: int| 0 <= k < i ==> (#[trigger] rows@[k])@.len() == w,
        decreases rows@.len() - i,
    {
        if rows[i].len() != w {
            proof {
                assert(grid_view(rows)[i as int].len() != grid_view(rows)[0].len());
            }
            return Err(LifeError::Shape);
        }
        i += 1;
    }
    Ok(rows)
}

/// Relies on `rand::random::<bool>`: one 50/50 coin flip from the
/// thread-local generator. Nothing can be promised of its value.
#[verifier::external_body]
fn coin_flip() -> bool {
    rand::random()
}

/// A pseudo-random seed line: exactly `len` characters, each an independent
/// 50/50 choice between `'#'` and `'.'`.
pub fn generate_random_line(len: usize) -> (s: String)
    ensures
        s@.len() == len,
        row_chars_ok(s@),
{
    let mut s = String::new();
    let mut i: usize = 0;
    while i < len
        invariant
            i <= len,
            s@.len() == i,
            row_chars_ok(s@),
        decreases len - i,
    {
        proof {
            reveal_strlit("#");
            reveal_strlit(".");
        }
        if coin_flip() {
            s.append("#");
        } else {
            s.append(".");
        }
        i += 1;
    }
    s
}

} // verus!
