//! The automaton engine: neighborhood encoding, rule lookup, and the
//! generation step on a ring of cells.

use vstd::prelude::*;
use vstd::arithmetic::div_mod::{
    lemma_mod_add_multiples_vanish,
    lemma_mod_self_0,
    lemma_small_mod,
};

verus! {

/// The one error the engine can produce: the rule is outside `[0, 255]` or
/// the row is empty.
#[derive(Clone, Copy, Debug, PartialEq, Eq, Structural)]
pub enum AutomatonError {
    InvalidArgument,
}

/// The 3-bit encoding of a neighborhood: the left neighbor is the most
/// significant bit, the cell itself the middle bit, the right neighbor the
/// least significant bit. Always in `[0, 7]`.
pub open spec fn neighborhood_value(left: bool, center: bool, right: bool) -> int {
    4 * (if left { 1int } else { 0int }) + 2 * (if center { 1int } else { 0int }) + (
    if right {
        1int
    } else {
        0int
    })
}

/// The next state of a cell: bit `neighborhood` of `rule`, where bit 0 is the
/// least significant. Meaningful for `rule` in `[0, 255]` and `neighborhood`
/// in `[0, 7]`.
pub open spec fn next_state(rule: usize, neighborhood: usize) -> bool {
    (rule >> neighborhood) & 1 == 1
}

/// Packs a neighborhood into its 3-bit encoding, left neighbor first.
pub fn encode_neighborhood(left: bool, center: bool, right: bool) -> (n: usize)
    ensures
        n == neighborhood_value(left, center, right),
        n <= 7,
{
    let high: usize = if left { 4 } else { 0 };
    let mid: usize = if center { 2 } else { 0 };
    let low: usize = if right { 1 } else { 0 };
    high + mid + low
}

/// Packs a 3-cell window into its neighborhood encoding, first element as the
/// most significant bit.
pub fn generate_num_repr(bits: &[bool]) -> (n: usize)
    requires
        bits@.len() == 3,
    ensures
        n == neighborhood_value(bits@[0], bits@[1], bits@[2]),
        n <= 7,
{
    encode_neighborhood(bits[0], bits[1], bits[2])
}

/// Looks up the rule bit selected by a neighborhood encoding.
pub fn generate_next(rule: &usize, neighbourhood: usize) -> (alive: bool)
    requires
        *rule <= 255,
        neighbourhood <= 7,
    ensures
        alive == next_state(*rule, neighbourhood),
{
    ((*rule >> neighbourhood) & 1) == 1
}

/// Extends a row by one cell at each end so that every original cell has both
/// neighbors adjacent: the last cell is prepended and the first appended.
pub fn wrap_around(cells: &[bool]) -> (v: Vec<bool>)
    requires
        cells@.len() >= 1,
    ensures
        v@ == seq![cells@.last()] + cells@ + seq![cells@.first()],
{
    let last_element = cells[cells.len() - 1];
    let first_element = cells[0];
    let mut new_vec: Vec<bool> = Vec::new();
    new_vec.push(last_element);
    let mut i: usize = 0;
    while i < cells.len()
        invariant
            cells@.len() >= 1,
            i <= cells@.len(),
            new_vec@.len() == i + 1,
            new_vec@[0] == cells@.last(),
            forall|j: int| 0 <= j < i ==> new_vec@[j + 1] == cells@[j],
        decreases cells@.len() - i,
    {
        new_vec.push(cells[i]);
        i += 1;
    }
    new_vec.push(first_element);
    proof {
        assert(new_vec@ =~= seq![cells@.last()] + cells@ + seq![cells@.first()]);
    }
    new_vec
}

/// The next generation: cell `i` holds the rule bit selected by the
/// neighborhood of cell `i` in `row`, with circular neighbor lookups.
pub open spec fn step_spec(row: Seq<bool>, rule: usize) -> Seq<bool> {
    Seq::new(
        row.len(),
        |i: int|
            next_state(
                rule,
                neighborhood_value(
                    row[(i - 1 + row.len()) % (row.len() as int)],
                    row[i],
                    row[(i + 1) % (row.len() as int)],
                ) as usize,
            ),
    )
}

/// Circular neighbor indices agree with direct case analysis: for an index in
/// range, `(i - 1 + width) % width` steps left around the ring and
/// `(i + 1) % width` steps right.
proof fn lemma_ring_index(i: int, width: int)
    requires
        0 <= i < width,
    ensures
        (i - 1 + width) % width == if i == 0 {
            width - 1
        } else {
            i - 1
        },
        (i + 1) % width == if i + 1 == width {
            0
        } else {
            i + 1
        },
{
    if i == 0 {
        lemma_small_mod((width - 1) as nat, width as nat);
    } else {
        lemma_mod_add_multiples_vanish(i - 1, width);
        lemma_small_mod((i - 1) as nat, width as nat);
    }
    if i + 1 == width {
        lemma_mod_self_0(width);
    } else {
        lemma_small_mod((i + 1) as nat, width as nat);
    }
}

/// Computes the next generation of `row` under `rule` on a ring, leaving
/// `row` untouched. Rejects an empty row and a rule outside `[0, 255]`.
pub fn step(row: &Vec<bool>, rule: usize) -> (res: Result<Vec<bool>, AutomatonError>)
    ensures
        res is Ok <==> (row@.len() >= 1 && rule <= 255),
        res matches Ok(next) ==> next@ == step_spec(row@, rule),
        res matches Ok(next) ==> next@.len() == row@.len(),
        res is Err ==> res == Err::<Vec<bool>, AutomatonError>(AutomatonError::InvalidArgument),
{
    if row.len() == 0 || rule > 255 {
        return Err(AutomatonError::InvalidArgument);
    }
    let width = row.len();
    let mut next: Vec<bool> = Vec::new();
    let mut i: usize = 0;
    while i < width
        invariant
            width == row@.len(),
            width >= 1,
            rule <= 255,
            i <= width,
            next@.len() == i,
            forall|j: int| 0 <= j < i ==> next@[j] == step_spec(row@, rule)[j],
        decreases width - i,
    {
        let left = if i == 0 {
            row[width - 1]
        } else {
            row[i - 1]
        };
        let center = row[i];
        let right = if i + 1 == width {
            row[0]
        } else {
            row[i + 1]
        };
        let n = encode_neighborhood(left, center, right);
        let alive = generate_next(&rule, n);
        proof {
            lemma_ring_index(i as int, width as int);
            assert(alive == step_spec(row@, rule)[i as int]);
        }
        next.push(alive);
        i += 1;
    }
    proof {
        assert(next@ =~= step_spec(row@, rule));
    }
    Ok(next)
}

/// Builds the starting generation: every cell dead except the center cell,
/// index `width / 2`. Rejects a width of zero.
pub fn initial_row(width: usize) -> (res: Result<Vec<bool>, AutomatonError>)
    ensures
        res is Ok <==> width >= 1,
        res matches Ok(row) ==> row@.len() == width,
        res matches Ok(row) ==> forall|i: int|
            0 <= i < width ==> row@[i] == (i == width as int / 2),
        res is Err ==> res == Err::<Vec<bool>, AutomatonError>(AutomatonError::InvalidArgument),
{
    if width == 0 {
        return Err(AutomatonError::InvalidArgument);
    }
    let center = width / 2;
    let mut row: Vec<bool> = Vec::new();
    let mut i: usize = 0;
    while i < width
        invariant
            center == width as int / 2,
            i <= width,
            row@.len() == i,
            forall|j: int| 0 <= j < i ==> row@[j] == (j == width as int / 2),
        decreases width - i,
    {
        row.push(i == center);
        i += 1;
    }
    Ok(row)
}

/// The ring property: the generation step reads the last cell as the left
/// neighbor of the first cell, and the first cell as the right neighbor of
/// the last.
pub proof fn lemma_ring_boundaries(row: Seq<bool>, rule: usize)
    requires
        row.len() >= 2,
    ensures
        step_spec(row, rule)[0] == next_state(
            rule,
            neighborhood_value(row[row.len() - 1], row[0], row[1]) as usize,
        ),
        step_spec(row, rule)[row.len() - 1] == next_state(
            rule,
            neighborhood_value(row[row.len() - 2], row[row.len() - 1], row[0]) as usize,
        ),
{
    lemma_ring_index(0, row.len() as int);
    lemma_ring_index(row.len() - 1, row.len() as int);
}

/// Under rule 0 every neighborhood maps to dead, so the next generation of
/// any row is all dead.
pub proof fn lemma_rule_zero_all_dead(row: Seq<bool>)
    ensures
        forall|i: int| 0 <= i < row.len() ==> !step_spec(row, 0)[i],
{
    assert(forall|n: usize| !((0usize >> n) & 1 == 1)) by (bit_vector);
}

/// Under rule 255 every neighborhood maps to alive, so the next generation of
/// any row is all alive.
pub proof fn lemma_rule_max_all_alive(row: Seq<bool>)
    ensures
        forall|i: int| 0 <= i < row.len() ==> step_spec(row, 255)[i],
{
    assert(forall|n: usize| n <= 7 ==> (255usize >> n) & 1 == 1) by (bit_vector);
}

/// On a one-cell row the cell is its own left and right neighbor, so its
/// neighborhood encodes three copies of itself; an alive cell always reads
/// neighborhood 7.
pub proof fn lemma_width_one(cell: bool, rule: usize)
    ensures
        step_spec(seq![cell], rule) =~= seq![
            next_state(rule, neighborhood_value(cell, cell, cell) as usize),
        ],
        neighborhood_value(true, true, true) == 7,
{
    lemma_ring_index(0, 1);
}

} // verus!
