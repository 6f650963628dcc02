//! Character rendering of a generation: one glyph per cell.

use vstd::prelude::*;

verus! {

/// The glyph a cell is drawn as: a full block when alive, a space when dead.
pub open spec fn glyph(alive: bool) -> char {
    if alive {
        '\u{2588}'
    } else {
        ' '
    }
}

/// Draws a row as one line of text, one glyph per cell in row order.
pub fn render_row(row: &Vec<bool>) -> (line: String)
    ensures
        line@ == row@.map_values(|cell: bool| glyph(cell)),
{
    let mut line = String::new();
    let mut i: usize = 0;
    while i < row.len()
        invariant
            i <= row@.len(),
            line@ == row@.take(i as int).map_values(|cell: bool| glyph(cell)),
        decreases row@.len() - i,
    {
        if row[i] {
            line.append("\u{2588}");
        } else {
            line.append(" ");
        }
        proof {
            reveal_strlit("\u{2588}");
            reveal_strlit(" ");
            assert(line@ =~= row@.take(i + 1).map_values(|cell: bool| glyph(cell)));
        }
        i += 1;
    }
    proof {
        assert(row@.take(row@.len() as int) =~= row@);
    }
    line
}

} // verus!
