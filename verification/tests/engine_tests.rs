use conway::engine::{apply_rule, count_live_neighbors};
use conway::grid::Grid;
use conway::{step, step_forward};

fn rows(pattern: &[&str]) -> Vec<Vec<bool>> {
    pattern
        .iter()
        .map(|line| line.chars().map(|c| c == '#').collect())
        .collect()
}

fn grid(pattern: &[&str]) -> Grid {
    Grid::from_rows(rows(pattern)).unwrap()
}

fn with_cells(width: usize, height: usize, cells: &[(usize, usize)]) -> Grid {
    let mut grid = Grid::new(width, height).unwrap();
    for &(row, col) in cells {
        grid.set(row, col, true);
    }
    grid
}

#[test]
fn rule_for_every_count() {
    let alive: Vec<bool> = (0u8..=8).map(|n| apply_rule(true, n)).collect();
    let dead: Vec<bool> = (0u8..=8).map(|n| apply_rule(false, n)).collect();
    assert_eq!(
        alive,
        vec![false, false, true, true, false, false, false, false, false]
    );
    assert_eq!(
        dead,
        vec![false, false, false, true, false, false, false, false, false]
    );
}

#[test]
fn step_keeps_dimensions() {
    for (width, height) in [(1, 1), (1, 7), (7, 1), (3, 5), (60, 40)] {
        let mut start = Grid::new(width, height).unwrap();
        start.set(height / 2, width / 2, true);
        let next = step(&start);
        assert_eq!(next.width(), width);
        assert_eq!(next.height(), height);
        for row in next.as_rows() {
            assert_eq!(row.len(), width);
        }
    }
}

#[test]
fn step_leaves_its_input_alone_and_repeats_itself() {
    let start = grid(&[".....", "..#..", "..#..", "..#..", "....."]);
    let before = start.as_rows().clone();
    let first = step(&start);
    let second = step(&start);
    assert_eq!(start.as_rows(), &before);
    assert_eq!(first.as_rows(), second.as_rows());
    assert_eq!(
        first.as_rows(),
        &rows(&[".....", ".....", ".###.", ".....", "....."])
    );
}

#[test]
fn empty_grid_stays_empty() {
    let start = Grid::new(6, 4).unwrap();
    assert_eq!(step(&start).as_rows(), &vec![vec![false; 6]; 4]);
}

#[test]
fn lone_cell_dies() {
    let start = with_cells(5, 5, &[(2, 2)]);
    assert_eq!(step(&start).as_rows(), &vec![vec![false; 5]; 5]);
}

#[test]
fn block_is_still_in_the_middle() {
    let start = grid(&["....", ".##.", ".##.", "...."]);
    assert_eq!(step(&start).as_rows(), start.as_rows());
}

#[test]
fn block_is_still_across_the_corner() {
    let start = grid(&["#..#", "....", "....", "#..#"]);
    assert_eq!(step(&start).as_rows(), start.as_rows());
    let wide = with_cells(9, 6, &[(5, 8), (5, 0), (0, 8), (0, 0)]);
    assert_eq!(step(&wide).as_rows(), wide.as_rows());
}

#[test]
fn block_is_still_at_every_position() {
    for height in 4..7usize {
        for width in 4..7usize {
            for row in 0..height {
                for col in 0..width {
                    let start = with_cells(
                        width,
                        height,
                        &[
                            (row, col),
                            (row, (col + 1) % width),
                            ((row + 1) % height, col),
                            ((row + 1) % height, (col + 1) % width),
                        ],
                    );
                    assert_eq!(step(&start).as_rows(), start.as_rows());
                }
            }
        }
    }
}

#[test]
fn blinker_oscillates_in_the_middle() {
    let lying = grid(&[".....", ".....", ".###.", ".....", "....."]);
    let standing = step(&lying);
    assert_eq!(
        standing.as_rows(),
        &rows(&[".....", "..#..", "..#..", "..#..", "....."])
    );
    assert_eq!(step(&standing).as_rows(), lying.as_rows());
}

#[test]
fn blinker_oscillates_across_the_edges() {
    let lying = grid(&["##..#", ".....", ".....", ".....", "....."]);
    let standing = step(&lying);
    assert_eq!(
        standing.as_rows(),
        &rows(&["#....", "#....", ".....", ".....", "#...."])
    );
    assert_eq!(step(&standing).as_rows(), lying.as_rows());
}

#[test]
fn blinker_oscillates_at_every_position() {
    for height in 5..8usize {
        for width in 5..8usize {
            for row in 0..height {
                for col in 0..width {
                    let lying = with_cells(
                        width,
                        height,
                        &[
                            (row, (col + width - 1) % width),
                            (row, col),
                            (row, (col + 1) % width),
                        ],
                    );
                    let standing = with_cells(
                        width,
                        height,
                        &[
                            ((row + height - 1) % height, col),
                            (row, col),
                            ((row + 1) % height, col),
                        ],
                    );
                    let once = step(&lying);
                    assert_eq!(once.as_rows(), standing.as_rows());
                    assert_eq!(step(&once).as_rows(), lying.as_rows());
                }
            }
        }
    }
}

#[test]
fn corner_cell_counts_the_opposite_corner() {
    let start = with_cells(6, 4, &[(3, 5)]);
    assert_eq!(count_live_neighbors(&start, 0, 0), 1);
    assert_eq!(count_live_neighbors(&start, 1, 1), 0);
    assert_eq!(count_live_neighbors(&start, 3, 5), 0);
}

#[test]
fn birth_across_the_corner() {
    let start = with_cells(5, 5, &[(4, 4), (0, 1), (1, 0)]);
    assert_eq!(count_live_neighbors(&start, 0, 0), 3);
    let next = step(&start);
    assert!(next.get(0, 0));
}

#[test]
fn edges_wrap_both_ways() {
    let start = with_cells(5, 4, &[(0, 0)]);
    assert_eq!(count_live_neighbors(&start, 0, 4), 1);
    assert_eq!(count_live_neighbors(&start, 3, 0), 1);
    assert_eq!(count_live_neighbors(&start, 3, 4), 1);
    assert_eq!(count_live_neighbors(&start, 1, 1), 1);
    assert_eq!(count_live_neighbors(&start, 2, 2), 0);
    assert_eq!(count_live_neighbors(&start, 0, 2), 0);
}

#[test]
fn neighbors_count_all_eight() {
    let full = grid(&["###", "###", "###"]);
    assert_eq!(count_live_neighbors(&full, 1, 1), 8);
    assert_eq!(count_live_neighbors(&full, 0, 0), 8);
    let ring = grid(&["###", "#.#", "###"]);
    assert_eq!(count_live_neighbors(&ring, 1, 1), 8);
    assert_eq!(count_live_neighbors(&ring, 0, 0), 7);
}

#[test]
fn single_cell_world_is_its_own_neighbor() {
    let alive = grid(&["#"]);
    assert_eq!(count_live_neighbors(&alive, 0, 0), 8);
    assert_eq!(step(&alive).as_rows(), &rows(&["."]));
    let dead = grid(&["."]);
    assert_eq!(count_live_neighbors(&dead, 0, 0), 0);
    assert_eq!(step(&dead).as_rows(), &rows(&["."]));
}

#[test]
fn one_column_world_counts_cells_three_times() {
    let start = grid(&["#", ".", ".", "."]);
    assert_eq!(count_live_neighbors(&start, 0, 0), 2);
    assert_eq!(count_live_neighbors(&start, 1, 0), 3);
    assert_eq!(count_live_neighbors(&start, 2, 0), 0);
    assert_eq!(count_live_neighbors(&start, 3, 0), 3);
    assert_eq!(step(&start).as_rows(), &rows(&["#", "#", ".", "#"]));
}

#[test]
fn one_row_world_counts_cells_three_times() {
    let start = grid(&["#..."]);
    assert_eq!(count_live_neighbors(&start, 0, 0), 2);
    assert_eq!(count_live_neighbors(&start, 0, 1), 3);
    assert_eq!(count_live_neighbors(&start, 0, 2), 0);
    assert_eq!(count_live_neighbors(&start, 0, 3), 3);
    assert_eq!(step(&start).as_rows(), &rows(&["##.#"]));
}

#[test]
fn two_by_two_world_counts_each_cell_twice() {
    let start = grid(&["#.", ".."]);
    assert_eq!(count_live_neighbors(&start, 0, 0), 0);
    assert_eq!(count_live_neighbors(&start, 0, 1), 2);
    assert_eq!(count_live_neighbors(&start, 1, 0), 2);
    assert_eq!(count_live_neighbors(&start, 1, 1), 4);
}

#[test]
fn glider_moves_one_cell_in_four_steps() {
    let start = grid(&[
        ".#....",
        "..#...",
        "###...",
        "......",
        "......",
        "......",
    ]);
    let mut current = start;
    for _ in 0..4 {
        current = step(&current);
    }
    assert_eq!(
        current.as_rows(),
        &rows(&[
            "......",
            "..#...",
            "...#..",
            ".###..",
            "......",
            "......",
        ])
    );
}

#[test]
fn crowded_cell_dies() {
    let start = grid(&[".....", "..#..", ".###.", "..#..", "....."]);
    let next = step(&start);
    assert!(!next.get(2, 2));
    assert_eq!(
        next.as_rows(),
        &rows(&[".....", ".###.", ".#.#.", ".###.", "....."])
    );
}

#[test]
fn step_forward_works_on_rows() {
    let start = rows(&[".....", ".....", ".###.", ".....", "....."]);
    let next = step_forward(start.clone());
    assert_eq!(
        next,
        rows(&[".....", "..#..", "..#..", "..#..", "....."])
    );
    assert_eq!(step_forward(next), start);
}

#[test]
fn step_forward_agrees_with_step() {
    let start = rows(&["#..#.", ".##..", "..#.#", "#...#"]);
    let by_rows = step_forward(start.clone());
    let by_grid = step(&Grid::from_rows(start).unwrap());
    assert_eq!(&by_rows, by_grid.as_rows());
    assert_eq!(by_rows.len(), 4);
    assert!(by_rows.iter().all(|row| row.len() == 5));
}

#[test]
fn step_forward_on_the_full_size_world() {
    let mut start = vec![vec![false; 60]; 40];
    start[0][59] = true;
    start[0][0] = true;
    start[0][1] = true;
    let next = step_forward(start);
    assert_eq!(next.len(), 40);
    assert!(next.iter().all(|row| row.len() == 60));
    let alive: Vec<(usize, usize)> = (0..40)
        .flat_map(|r| (0..60).map(move |c| (r, c)))
        .filter(|&(r, c)| next[r][c])
        .collect();
    assert_eq!(alive, vec![(0, 0), (1, 0), (39, 0)]);
}
