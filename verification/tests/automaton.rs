use terminaltomata::automaton::{
    encode_neighborhood, generate_next, generate_num_repr, initial_row, step, wrap_around,
    AutomatonError,
};

#[test]
fn encode_all_neighborhoods() {
    let cases: Vec<(bool, bool, bool, usize)> = vec![
        (false, false, false, 0),
        (false, false, true, 1),
        (false, true, false, 2),
        (false, true, true, 3),
        (true, false, false, 4),
        (true, false, true, 5),
        (true, true, false, 6),
        (true, true, true, 7),
    ];
    for (l, c, r, expected) in cases {
        assert_eq!(encode_neighborhood(l, c, r), expected);
        let as_int = |b: bool| if b { 1usize } else { 0 };
        assert_eq!(encode_neighborhood(l, c, r), 4 * as_int(l) + 2 * as_int(c) + as_int(r));
    }
}

#[test]
fn num_repr_packs_windows() {
    assert_eq!(generate_num_repr(&[false, false, false]), 0);
    assert_eq!(generate_num_repr(&[false, false, true]), 1);
    assert_eq!(generate_num_repr(&[true, false, true]), 5);
    assert_eq!(generate_num_repr(&[true, true, true]), 7);
}

#[test]
fn next_state_reads_rule_bits() {
    // rule 90 is 0b01011010: bits 1, 3, 4 and 6 are set.
    let rule: usize = 90;
    let expected = [false, true, false, true, true, false, true, false];
    for n in 0..8usize {
        assert_eq!(generate_next(&rule, n), expected[n]);
        assert_eq!(generate_next(&rule, n), (rule >> n) & 1 == 1);
    }
}

#[test]
fn step_preserves_length() {
    for width in 1..9usize {
        let row = initial_row(width).unwrap();
        let next = step(&row, 110).unwrap();
        assert_eq!(next.len(), width);
    }
}

#[test]
fn step_wraps_around_the_ring() {
    // Rule 4: only neighborhood 2 (dead, alive, dead) stays alive. The lone
    // alive cell at index 0 survives only because its neighbors on the ring,
    // indices 2 and 1, are both dead.
    let row = vec![true, false, false];
    assert_eq!(step(&row, 4).unwrap(), vec![true, false, false]);
    // Rule 2: only neighborhood 1 (dead, dead, alive) turns alive. The last
    // cell sees the first as its right neighbor.
    assert_eq!(step(&row, 2).unwrap(), vec![false, false, true]);
}

#[test]
fn rule_zero_kills_every_cell() {
    let row = vec![true, true, false, true];
    assert_eq!(step(&row, 0).unwrap(), vec![false, false, false, false]);
}

#[test]
fn rule_max_fills_every_cell() {
    let row = vec![false, true, false];
    assert_eq!(step(&row, 255).unwrap(), vec![true, true, true]);
}

#[test]
fn rule_90_sierpinski_step() {
    let row = vec![false, false, true, false, false];
    assert_eq!(step(&row, 90).unwrap(), vec![false, true, false, true, false]);
}

#[test]
fn invalid_inputs_are_rejected() {
    let empty: Vec<bool> = vec![];
    assert_eq!(step(&empty, 90), Err(AutomatonError::InvalidArgument));
    let row = vec![false, true, false];
    assert_eq!(step(&row, 256), Err(AutomatonError::InvalidArgument));
    assert_eq!(initial_row(0), Err(AutomatonError::InvalidArgument));
}

#[test]
fn width_one_cell_is_its_own_neighbors() {
    // An alive lone cell always reads neighborhood 7, so bit 7 decides.
    let row = vec![true];
    assert_eq!(step(&row, 128).unwrap(), vec![true]);
    assert_eq!(step(&row, 127).unwrap(), vec![false]);
}

#[test]
fn wrap_around_extends_both_ends() {
    assert_eq!(
        wrap_around(&[true, false, false]),
        vec![false, true, false, false, true]
    );
    assert_eq!(wrap_around(&[true]), vec![true, true, true]);
}

#[test]
fn initial_row_centers_one_alive_cell() {
    assert_eq!(initial_row(5).unwrap(), vec![false, false, true, false, false]);
    assert_eq!(initial_row(1).unwrap(), vec![true]);
    assert_eq!(initial_row(2).unwrap(), vec![false, true]);
}
