use conway::grid::Grid;
use conway::layout::{grid_line_segments, live_cell_rects, PixelLine, PixelRect};
use conway::world::World;
use conway::{GRID_SIZE, WINDOW_SIZE};

fn rows(pattern: &[&str]) -> Vec<Vec<bool>> {
    pattern
        .iter()
        .map(|line| line.chars().map(|c| c == '#').collect())
        .collect()
}

#[test]
fn standard_world_has_sixty_by_forty_cells() {
    assert_eq!(WINDOW_SIZE, (1200, 800));
    assert_eq!(GRID_SIZE, 20);
    let world = World::new(WINDOW_SIZE.0, WINDOW_SIZE.1, GRID_SIZE).unwrap();
    assert_eq!(world.width(), 1200);
    assert_eq!(world.height(), 800);
    assert_eq!(world.cell_size(), 20);
    assert_eq!(world.columns(), 60);
    assert_eq!(world.rows(), 40);
}

#[test]
fn world_dimensions_round_down() {
    let world = World::new(50, 39, 20).unwrap();
    assert_eq!(world.columns(), 2);
    assert_eq!(world.rows(), 1);
}

#[test]
fn world_rejects_zero_cell_size() {
    assert!(World::new(100, 100, 0).is_none());
}

#[test]
fn world_rejects_width_below_a_cell() {
    assert!(World::new(19, 100, 20).is_none());
    assert!(World::new(0, 100, 20).is_none());
}

#[test]
fn world_rejects_height_below_a_cell() {
    assert!(World::new(100, 19, 20).is_none());
    assert!(World::new(100, 0, 20).is_none());
}

#[test]
fn world_rejects_sizes_beyond_pixel_coordinates() {
    assert!(World::new(2_147_483_648, 100, 20).is_none());
    assert!(World::new(100, 2_147_483_648, 20).is_none());
    assert!(World::new(2_147_483_647, 2_147_483_647, 2_147_483_647).is_some());
}

#[test]
fn world_of_one_cell() {
    let world = World::new(20, 20, 20).unwrap();
    assert_eq!(world.columns(), 1);
    assert_eq!(world.rows(), 1);
    assert_eq!(world.cell_at(19, 19), Some((0, 0)));
    assert_eq!(world.cell_at(20, 19), None);
}

#[test]
fn cell_at_divides_by_the_cell_size() {
    let world = World::new(1200, 800, 20).unwrap();
    assert_eq!(world.cell_at(0, 0), Some((0, 0)));
    assert_eq!(world.cell_at(19, 19), Some((0, 0)));
    assert_eq!(world.cell_at(20, 19), Some((0, 1)));
    assert_eq!(world.cell_at(25, 45), Some((2, 1)));
    assert_eq!(world.cell_at(1199, 799), Some((39, 59)));
}

#[test]
fn cell_at_ignores_pixels_outside_the_world() {
    let world = World::new(1200, 800, 20).unwrap();
    assert_eq!(world.cell_at(-1, 0), None);
    assert_eq!(world.cell_at(0, -1), None);
    assert_eq!(world.cell_at(1200, 0), None);
    assert_eq!(world.cell_at(0, 800), None);
    assert_eq!(world.cell_at(i32::MIN, i32::MIN), None);
    assert_eq!(world.cell_at(i32::MAX, i32::MAX), None);
    assert_eq!(world.cell_at(i32::MAX, 5), None);
}

#[test]
fn cell_at_ignores_a_strip_too_narrow_for_a_cell() {
    let world = World::new(50, 30, 20).unwrap();
    assert_eq!(world.cell_at(39, 19), Some((0, 1)));
    assert_eq!(world.cell_at(40, 10), None);
    assert_eq!(world.cell_at(49, 10), None);
    assert_eq!(world.cell_at(10, 20), None);
    assert_eq!(world.cell_at(10, 29), None);
}

#[test]
fn live_cells_become_squares_in_reading_order() {
    let world = World::new(60, 40, 20).unwrap();
    let grid = Grid::from_rows(rows(&["#.#", ".#."])).unwrap();
    assert_eq!(
        live_cell_rects(&world, &grid),
        vec![
            PixelRect { x: 0, y: 0, width: 20, height: 20 },
            PixelRect { x: 40, y: 0, width: 20, height: 20 },
            PixelRect { x: 20, y: 20, width: 20, height: 20 },
        ]
    );
}

#[test]
fn dead_grid_has_no_squares() {
    let world = World::new(60, 40, 20).unwrap();
    let grid = Grid::new(3, 2).unwrap();
    assert_eq!(live_cell_rects(&world, &grid), Vec::new());
}

#[test]
fn full_grid_has_a_square_for_each_cell() {
    let world = World::new(45, 31, 15).unwrap();
    let grid = Grid::from_rows(rows(&["###", "###"])).unwrap();
    assert_eq!(
        live_cell_rects(&world, &grid),
        vec![
            PixelRect { x: 0, y: 0, width: 15, height: 15 },
            PixelRect { x: 15, y: 0, width: 15, height: 15 },
            PixelRect { x: 30, y: 0, width: 15, height: 15 },
            PixelRect { x: 0, y: 15, width: 15, height: 15 },
            PixelRect { x: 15, y: 15, width: 15, height: 15 },
            PixelRect { x: 30, y: 15, width: 15, height: 15 },
        ]
    );
}

#[test]
fn square_of_the_last_cell_of_the_standard_world() {
    let world = World::new(1200, 800, 20).unwrap();
    let mut grid = Grid::new(60, 40).unwrap();
    grid.set(39, 59, true);
    assert_eq!(
        live_cell_rects(&world, &grid),
        vec![PixelRect { x: 1180, y: 780, width: 20, height: 20 }]
    );
}

#[test]
fn square_under_a_pixel_holds_it() {
    let world = World::new(1200, 800, 20).unwrap();
    for (x, y) in [(0, 0), (19, 19), (20, 40), (599, 401), (1199, 799)] {
        let (row, col) = world.cell_at(x, y).unwrap();
        let mut grid = Grid::new(60, 40).unwrap();
        grid.set(row, col, true);
        let rects = live_cell_rects(&world, &grid);
        assert_eq!(rects.len(), 1);
        let rect = rects[0];
        assert!(rect.x <= x && x < rect.x + rect.width as i32);
        assert!(rect.y <= y && y < rect.y + rect.height as i32);
    }
}

#[test]
fn grid_lines_run_along_every_column_and_row() {
    let world = World::new(60, 40, 20).unwrap();
    assert_eq!(
        grid_line_segments(&world),
        vec![
            PixelLine { x1: 0, y1: 0, x2: 0, y2: 40 },
            PixelLine { x1: 20, y1: 0, x2: 20, y2: 40 },
            PixelLine { x1: 40, y1: 0, x2: 40, y2: 40 },
            PixelLine { x1: 0, y1: 0, x2: 60, y2: 0 },
            PixelLine { x1: 0, y1: 20, x2: 60, y2: 20 },
        ]
    );
}

#[test]
fn grid_lines_of_the_standard_world() {
    let world = World::new(1200, 800, 20).unwrap();
    let lines = grid_line_segments(&world);
    assert_eq!(lines.len(), 100);
    assert_eq!(lines[59], PixelLine { x1: 1180, y1: 0, x2: 1180, y2: 800 });
    assert_eq!(lines[60], PixelLine { x1: 0, y1: 0, x2: 1200, y2: 0 });
    assert_eq!(lines[99], PixelLine { x1: 0, y1: 780, x2: 1200, y2: 780 });
}

#[test]
fn grid_lines_span_the_whole_world_where_cells_do_not() {
    let world = World::new(50, 30, 20).unwrap();
    assert_eq!(
        grid_line_segments(&world),
        vec![
            PixelLine { x1: 0, y1: 0, x2: 0, y2: 30 },
            PixelLine { x1: 20, y1: 0, x2: 20, y2: 30 },
            PixelLine { x1: 0, y1: 0, x2: 50, y2: 0 },
        ]
    );
}
