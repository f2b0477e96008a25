use sx3d::{get_asc_range, is_valid_cols, RasterTriangle, SquaredCanvas};

fn triangle(cells: Vec<(i64, i64)>, shade_level: i64, depth: i64) -> RasterTriangle {
    RasterTriangle { cells, shade_level, depth }
}

fn lines(frame: &str) -> Vec<&str> {
    let mut lines: Vec<&str> = frame.split("\r\n").collect();
    assert_eq!(lines.pop(), Some(""));
    lines
}

#[test]
fn canvas_has_derived_sizes() {
    let canvas = SquaredCanvas::new(5);
    assert_eq!(canvas.cols(), 5);
    assert_eq!(canvas.chars_per_row(), 13);
    assert_eq!(canvas.zero_col(), 2);
}

#[test]
fn even_or_huge_cols_are_not_valid() {
    assert!(is_valid_cols(1));
    assert!(is_valid_cols(5));
    assert!(!is_valid_cols(4));
    assert!(!is_valid_cols(0));
    assert!(!is_valid_cols(usize::MAX));
}

#[test]
fn frame_of_five_columns_has_five_lines_of_thirteen() {
    let canvas = SquaredCanvas::new(5);
    let frame = canvas.get_frame();
    let lines = lines(&frame);
    assert_eq!(lines.len(), 5);
    for line in lines {
        assert_eq!(line.chars().count(), 13);
        assert_eq!(line, "             ");
    }
}

#[test]
fn cells_map_to_storage_positions() {
    let canvas = SquaredCanvas::new(5);
    assert_eq!(canvas.get_index(0, 0), Some(32));
    assert_eq!(canvas.get_index(-2, -2), Some(0));
    assert_eq!(canvas.get_index(2, 2), Some(12 + 4 * 13));
    assert_eq!(canvas.get_index(3, 0), None);
    assert_eq!(canvas.get_index(0, -3), None);
    assert_eq!(canvas.get_index(i64::MIN, i64::MAX), None);
}

#[test]
fn higher_rows_are_printed_higher_up() {
    let mut canvas = SquaredCanvas::new(5);
    canvas.set_mesh(&vec![
        triangle(vec![(0, 0)], 12, 0),
        triangle(vec![(1, 2)], 0, 0),
        triangle(vec![(-2, -2)], 6, 0),
    ]);
    let frame = canvas.get_frame();
    let lines = lines(&frame);
    assert_eq!(lines[0], "         .   ");
    assert_eq!(lines[1], "             ");
    assert_eq!(lines[2], "      @      ");
    assert_eq!(lines[3], "             ");
    assert_eq!(lines[4], "c            ");
}

#[test]
fn nearer_triangle_wins_either_order() {
    let far = || triangle(vec![(0, 0), (1, 0)], 0, 1);
    let near = || triangle(vec![(0, 0)], 12, 2);

    let mut canvas = SquaredCanvas::new(5);
    canvas.set_mesh(&vec![far(), near()]);
    let first = canvas.get_frame();
    canvas.set_mesh(&vec![near(), far()]);
    let second = canvas.get_frame();

    assert_eq!(first, second);
    assert_eq!(lines(&first)[2], "      @  .   ");
}

#[test]
fn equal_depth_keeps_first_drawn() {
    let mut canvas = SquaredCanvas::new(3);
    canvas.set_mesh(&vec![triangle(vec![(0, 0)], 3, 5), triangle(vec![(0, 0)], 9, 5)]);
    assert_eq!(lines(&canvas.get_frame())[1], "   \"   ");
}

#[test]
fn set_pixel_applies_depth_test() {
    let mut canvas = SquaredCanvas::new(3);
    canvas.set_pixel(1, 1, 12, 4);
    canvas.set_pixel(1, 1, 0, 3);
    assert_eq!(lines(&canvas.get_frame())[0], "      @");
    canvas.set_pixel(1, 1, 0, 5);
    assert_eq!(lines(&canvas.get_frame())[0], "      .");
    canvas.clear();
    assert_eq!(lines(&canvas.get_frame())[0], "       ");
}

#[test]
fn set_mesh_starts_from_a_clear_canvas() {
    let mut canvas = SquaredCanvas::new(3);
    canvas.set_mesh(&vec![triangle(vec![(-1, -1), (0, 0)], 12, 0)]);
    canvas.set_mesh(&vec![triangle(vec![(1, 1)], 12, -100)]);
    let frame = canvas.get_frame();
    assert_eq!(frame, "      @\r\n       \r\n       \r\n");
}

#[test]
fn asc_range_orders_its_ends() {
    assert_eq!(get_asc_range(3, -2), -2..4);
    assert_eq!(get_asc_range(-2, 3), -2..4);
    assert_eq!(get_asc_range(7, 7), 7..8);
}

#[test]
fn cells_off_the_canvas_are_found() {
    let canvas = SquaredCanvas::new(5);
    let inside = triangle(vec![(0, 0), (2, -2)], 0, 0);
    let outside = triangle(vec![(0, 0), (3, 0), (0, -4)], 0, 0);
    assert_eq!(canvas.first_outside_cell(&inside), None);
    assert_eq!(canvas.first_outside_cell(&outside), Some((3, 0)));
}
