use textgrid::{Cell, Grid, GridError};

fn cell(s: &str) -> Cell {
    Cell::new(s.to_string())
}

fn data_at(g: &Grid, r: usize, c: usize) -> String {
    g.get_cell(r, c).unwrap().get_data().clone()
}

fn sample() -> Grid {
    Grid::from(vec![vec![cell("a"), cell("bb")], vec![cell("ccc"), cell("d")]])
}

#[test]
fn new_grid_has_empty_cells() {
    let g = Grid::new(2, 3);
    assert_eq!(g.rows(), 2);
    assert_eq!(g.cols(), 3);
    assert_eq!(g.flat_iter().len(), 6);
    assert!(g.flat_iter().iter().all(|c| c.get_data().is_empty()));
}

#[test]
fn from_pads_ragged_rows() {
    let g = Grid::from(vec![vec![cell("x")], vec![cell("y"), cell("z"), cell("w")], vec![]]);
    assert_eq!(g.rows(), 3);
    assert_eq!(g.cols(), 3);
    assert_eq!(data_at(&g, 0, 0), "x");
    assert_eq!(data_at(&g, 0, 1), "");
    assert_eq!(data_at(&g, 1, 2), "w");
    assert_eq!(data_at(&g, 2, 0), "");
    assert_eq!(g.flat_iter().len(), 9);
}

#[test]
fn default_grid_is_empty() {
    let g = Grid::default();
    assert_eq!(g.rows(), 0);
    assert_eq!(g.cols(), 0);
    assert!(g.flat_iter().is_empty());
}

#[test]
fn from_empty_is_zero_by_zero() {
    let g = Grid::from(vec![]);
    assert_eq!(g.rows(), 0);
    assert_eq!(g.cols(), 0);
    assert_eq!(g.render(), " ┌──┐ \n └──┘ \n");
}

#[test]
fn set_then_get_cell() {
    let mut g = Grid::new(2, 2);
    g.set_cell(1, 0, cell("v"));
    assert_eq!(data_at(&g, 1, 0), "v");
    assert_eq!(data_at(&g, 0, 0), "");
    assert_eq!(data_at(&g, 1, 1), "");
}

#[test]
fn out_of_bounds_errors_name_the_index() {
    let g = Grid::new(2, 3);
    assert!(g.get_cell(2, 0).is_none());
    assert!(g.get_cell(0, 3).is_none());
    assert!(matches!(g.try_get_cell(2, 0), Err(GridError::RowIndexOutOfBounds)));
    assert!(matches!(g.try_get_cell(0, 3), Err(GridError::ColIndexOutOfBounds)));
    assert!(matches!(g.try_get_cell(5, 5), Err(GridError::RowAndColIndexOutOfBounds)));
    assert!(g.try_get_cell(1, 2).is_ok());
    assert_eq!(g.check_index(1, 2), Ok(()));
}

#[test]
fn get_cell_does_not_wrap_into_next_row() {
    let g = sample();
    assert!(g.get_cell(0, 2).is_none());
}

#[test]
fn try_set_cell_reports_and_keeps_grid() {
    let mut g = Grid::new(1, 1);
    assert_eq!(g.try_set_cell(0, 1, cell("x")), Err(GridError::ColIndexOutOfBounds));
    assert_eq!(data_at(&g, 0, 0), "");
    assert_eq!(g.try_set_cell(0, 0, cell("x")), Ok(()));
    assert_eq!(data_at(&g, 0, 0), "x");
}

#[test]
fn error_messages() {
    assert_eq!(GridError::RowIndexOutOfBounds.message(), "Row index out of bounds");
    assert_eq!(GridError::ColIndexOutOfBounds.message(), "Column index out of bounds");
    assert_eq!(
        GridError::RowAndColIndexOutOfBounds.message(),
        "Row and column index out of bounds"
    );
}

#[test]
fn get_cell_mut_changes_in_place() {
    let mut g = sample();
    g.get_cell_mut(1, 1).unwrap().get_data_mut().push_str("!");
    assert_eq!(data_at(&g, 1, 1), "d!");
    assert!(g.get_cell_mut(2, 0).is_none());
}

#[test]
fn row_and_col_iter() {
    let g = sample();
    let row: Vec<String> = g.row_iter(1).iter().map(|c| c.get_data().clone()).collect();
    assert_eq!(row, vec!["ccc", "d"]);
    let col: Vec<String> = g.col_iter(1).iter().map(|c| c.get_data().clone()).collect();
    assert_eq!(col, vec!["bb", "d"]);
    assert!(g.row_iter(2).is_empty());
    assert!(g.col_iter(7).is_empty());
}

#[test]
fn flat_iter_is_row_major() {
    let g = sample();
    let all: Vec<String> = g.flat_iter().iter().map(|c| c.get_data().clone()).collect();
    assert_eq!(all, vec!["a", "bb", "ccc", "d"]);
}

#[test]
fn set_cells_pads_and_truncates() {
    let mut g = Grid::new(2, 2);
    g.set_cells(vec![cell("1"), cell("2"), cell("3")]);
    assert_eq!(data_at(&g, 1, 0), "3");
    assert_eq!(data_at(&g, 1, 1), "");
    g.set_cells(vec![cell("a"), cell("b"), cell("c"), cell("d"), cell("e")]);
    assert_eq!(data_at(&g, 1, 1), "d");
    assert_eq!(g.flat_iter().len(), 4);
}

#[test]
fn insert_row_at_end_appends() {
    let mut g = sample();
    g.insert_row(2, vec![cell("e"), cell("f")]);
    assert_eq!(g.rows(), 3);
    let all: Vec<String> = g.flat_iter().iter().map(|c| c.get_data().clone()).collect();
    assert_eq!(all, vec!["a", "bb", "ccc", "d", "e", "f"]);
}

#[test]
fn insert_row_shifts_later_rows() {
    let mut g = sample();
    g.get_cell_mut(1, 0).unwrap().set_color("red");
    g.insert_row(1, vec![cell("x"), cell("y")]);
    assert_eq!(g.rows(), 3);
    assert_eq!(data_at(&g, 0, 0), "a");
    assert_eq!(data_at(&g, 1, 0), "x");
    assert_eq!(data_at(&g, 1, 1), "y");
    assert_eq!(data_at(&g, 2, 0), "ccc");
    assert_eq!(data_at(&g, 2, 1), "d");
    // the moved cell keeps its formatting
    let lines = g.get_cell(2, 0).unwrap().render_lines(1, 3);
    assert_eq!(lines, vec!["\x1b[31mccc\x1b[0m"]);
}

#[test]
fn insert_row_pads_short_and_cuts_long() {
    let mut g = sample();
    g.insert_row(0, vec![cell("only")]);
    assert_eq!(data_at(&g, 0, 0), "only");
    assert_eq!(data_at(&g, 0, 1), "");
    g.insert_row(0, vec![cell("1"), cell("2"), cell("3")]);
    assert_eq!(g.cols(), 2);
    assert_eq!(data_at(&g, 0, 1), "2");
    assert_eq!(g.flat_iter().len(), 8);
}

#[test]
fn insert_col_shifts_later_cols() {
    let mut g = sample();
    g.insert_col(1, vec![cell("x"), cell("y")]);
    assert_eq!(g.cols(), 3);
    let all: Vec<String> = g.flat_iter().iter().map(|c| c.get_data().clone()).collect();
    assert_eq!(all, vec!["a", "x", "bb", "ccc", "y", "d"]);
    g.insert_col(3, vec![cell("z")]);
    let all: Vec<String> = g.flat_iter().iter().map(|c| c.get_data().clone()).collect();
    assert_eq!(all, vec!["a", "x", "bb", "z", "ccc", "y", "d", ""]);
}

#[test]
fn set_row_and_set_col() {
    let mut g = sample();
    g.set_row(0, vec![cell("p")]);
    assert_eq!(data_at(&g, 0, 0), "p");
    assert_eq!(data_at(&g, 0, 1), "");
    assert_eq!(data_at(&g, 1, 0), "ccc");
    g.set_col(1, vec![cell("q"), cell("r"), cell("extra")]);
    assert_eq!(data_at(&g, 0, 1), "q");
    assert_eq!(data_at(&g, 1, 1), "r");
    assert_eq!(data_at(&g, 1, 0), "ccc");
}

#[test]
fn resize_round_trip_keeps_overlap() {
    let mut g = sample();
    g.resize(3, 3);
    assert_eq!(g.flat_iter().len(), 9);
    assert_eq!(data_at(&g, 1, 1), "d");
    assert_eq!(data_at(&g, 2, 2), "");
    g.resize(2, 2);
    let all: Vec<String> = g.flat_iter().iter().map(|c| c.get_data().clone()).collect();
    assert_eq!(all, vec!["a", "bb", "ccc", "d"]);
}

#[test]
fn resize_shrink_loses_cells() {
    let mut g = sample();
    g.resize(1, 1);
    assert_eq!(g.flat_iter().len(), 1);
    g.resize(2, 2);
    let all: Vec<String> = g.flat_iter().iter().map(|c| c.get_data().clone()).collect();
    assert_eq!(all, vec!["a", "", "", ""]);
}

#[test]
fn clear_empties_grid() {
    let mut g = sample();
    g.clear();
    assert_eq!(g.rows(), 0);
    assert_eq!(g.cols(), 0);
    assert!(g.flat_iter().is_empty());
}

#[test]
fn layout_of_two_by_two() {
    let g = sample();
    assert_eq!(g.col_widths(), vec![3, 2]);
    assert_eq!(g.row_heights(), vec![1, 1]);
}

#[test]
fn render_two_by_two() {
    let g = sample();
    assert_eq!(
        g.render(),
        " ┌─────┬────┐ \n │ a   │ bb │ \n ├─────┼────┤ \n │ ccc │ d  │ \n └─────┴────┘ \n"
    );
    assert_eq!(g.render().lines().count(), 5);
}

#[test]
fn render_twice_is_identical() {
    let mut g = sample();
    g.get_cell_mut(0, 1).unwrap().set_style("bold");
    g.get_cell_mut(1, 0).unwrap().set_align("right");
    assert_eq!(g.render(), g.render());
}

#[test]
fn render_multiline_row_and_alignment() {
    let mut g = Grid::from(vec![vec![cell("x\ny\nz"), cell("q")]]);
    g.get_cell_mut(0, 1).unwrap().set_align("bottom");
    g.get_cell_mut(0, 1).unwrap().set_align("center");
    assert_eq!(g.row_heights(), vec![3]);
    assert_eq!(
        g.render(),
        " ┌───┬───┐ \n │ x │   │ \n │ y │   │ \n │ z │ q │ \n └───┴───┘ \n"
    );
}

#[test]
fn render_explicit_sizes() {
    let mut g = Grid::from(vec![vec![cell("abcdef\nsecond")]]);
    g.get_cell_mut(0, 0).unwrap().set_width(3);
    g.get_cell_mut(0, 0).unwrap().set_height(1);
    assert_eq!(g.render(), " ┌─────┐ \n │ abc │ \n └─────┘ \n");
}

#[test]
fn render_rows_without_columns() {
    let g = Grid::new(2, 0);
    assert_eq!(g.render(), " ┌──┐ \n ├──┤ \n └──┘ \n");
}
