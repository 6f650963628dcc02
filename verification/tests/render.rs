use terminaltomata::render::render_row;

#[test]
fn render_draws_one_glyph_per_cell() {
    let row = vec![true, false, true];
    assert_eq!(render_row(&row), "\u{2588} \u{2588}");
}

#[test]
fn render_empty_row_is_empty_line() {
    let row: Vec<bool> = vec![];
    assert_eq!(render_row(&row), "");
}
