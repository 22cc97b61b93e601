use game_of_life::frame::{alive_cell_positions, next_frame, window_pixel_size};
use game_of_life::game_context::{BoardError, GRID_X_SIZE, GRID_Y_SIZE};
use game_of_life::{CellState, GameContext};

use CellState::{Alive, Dead};

fn parse(rows: &[&str]) -> Vec<Vec<CellState>> {
    rows.iter()
        .map(|r| r.chars().map(|ch| if ch == '#' { Alive } else { Dead }).collect())
        .collect()
}

fn ctx(rows: &[&str]) -> GameContext {
    GameContext { board: parse(rows) }
}

#[test]
fn block_is_a_still_life() {
    let mut g = ctx(&["....", ".##.", ".##.", "...."]);
    g.update();
    assert_eq!(g.board, parse(&["....", ".##.", ".##.", "...."]));
    g.update();
    assert_eq!(g.board, parse(&["....", ".##.", ".##.", "...."]));
}

#[test]
fn isolated_cell_dies() {
    let mut g = ctx(&["...", ".#.", "..."]);
    g.update();
    assert_eq!(g.board, parse(&["...", "...", "..."]));
}

#[test]
fn crowded_cell_dies() {
    let b = parse(&["###", "###", "###"]);
    assert_eq!(GameContext::get_alive_neighbors_count(1, 1, &b), 8);
    let next = GameContext::advance(&b);
    assert_eq!(next[1][1], Dead);
    // corners keep three neighbours and survive, edge midpoints have five and die
    assert_eq!(next, parse(&["#.#", "...", "#.#"]));
}

#[test]
fn l_tromino_gives_birth() {
    let mut g = ctx(&["#.", "##"]);
    assert_eq!(GameContext::get_alive_neighbors_count(0, 1, &g.board), 3);
    g.update();
    assert_eq!(g.board, parse(&["##", "##"]));
}

#[test]
fn corner_does_not_wrap() {
    // live cells along the far edges would be neighbours of (0, 0) on a torus
    let b = parse(&["...#", "...#", "...#", "####"]);
    assert_eq!(GameContext::get_alive_neighbors_count(0, 0, &b), 0);
    let full = parse(&["####", "####", "####", "####"]);
    assert_eq!(GameContext::get_alive_neighbors_count(0, 0, &full), 3);
    assert_eq!(GameContext::get_alive_neighbors_count(3, 3, &full), 3);
    assert_eq!(GameContext::get_alive_neighbors_count(0, 2, &full), 5);
    assert_eq!(GameContext::get_alive_neighbors_count(1, 1, &full), 8);
}

#[test]
fn last_row_and_column_are_counted() {
    let b = parse(&["...", ".##", ".##"]);
    assert_eq!(GameContext::get_alive_neighbors_count(2, 2, &b), 3);
    assert_eq!(GameContext::get_alive_neighbors_count(2, 1, &b), 3);
    assert_eq!(GameContext::get_alive_neighbors_count(2, 0, &b), 2);
}

#[test]
fn blinker_oscillates() {
    let mut g = ctx(&[".....", "..#..", "..#..", "..#..", "....."]);
    g.update();
    assert_eq!(g.board, parse(&[".....", ".....", ".###.", ".....", "....."]));
    g.update();
    assert_eq!(g.board, parse(&[".....", "..#..", "..#..", "..#..", "....."]));
}

#[test]
fn advance_keeps_dimensions_and_is_deterministic() {
    let b = parse(&["#..#.", ".##..", "#...#"]);
    let a1 = GameContext::advance(&b);
    let a2 = GameContext::advance(&b);
    assert_eq!(a1, a2);
    assert_eq!(a1.len(), 3);
    assert!(a1.iter().all(|r| r.len() == 5));
    assert_eq!(b, parse(&["#..#.", ".##..", "#...#"]));
}

#[test]
fn seeding_all_heads_marks_exactly_eligible_cells() {
    let flips = vec![vec![true; 5]; 4];
    let g = GameContext::from_coin_flips(5, 4, &flips).unwrap();
    assert_eq!(g.width(), 5);
    assert_eq!(g.height(), 4);
    for r in 0..4 {
        for c in 0..5 {
            let expected = if (r + c) % 3 == 0 { Alive } else { Dead };
            assert_eq!(g.board[r][c], expected);
        }
    }
}

#[test]
fn seeding_takes_each_cells_coin() {
    let flips = vec![
        vec![false, true, true, true],
        vec![true, true, false, false],
        vec![true, true, true, true],
    ];
    let g = GameContext::from_coin_flips(4, 3, &flips).unwrap();
    assert_eq!(g.board, parse(&["...#", "....", ".#.."]));
    let tails = vec![vec![false; 4]; 3];
    let g = GameContext::from_coin_flips(4, 3, &tails).unwrap();
    assert_eq!(g.board, parse(&["....", "....", "...."]));
}

#[test]
fn zero_dimensions_are_refused() {
    let flips: Vec<Vec<bool>> = Vec::new();
    assert_eq!(GameContext::from_coin_flips(3, 0, &flips).err(), Some(BoardError::InvalidDimensions));
    let flips = vec![Vec::new(), Vec::new()];
    assert_eq!(GameContext::from_coin_flips(0, 2, &flips).err(), Some(BoardError::InvalidDimensions));
    assert_eq!(GameContext::with_size(0, 5).err(), Some(BoardError::InvalidDimensions));
    assert_eq!(GameContext::with_size(5, 0).err(), Some(BoardError::InvalidDimensions));
}

#[test]
fn random_seeding_leaves_ineligible_cells_dead() {
    let g = GameContext::with_size(7, 6).unwrap();
    assert_eq!(g.width(), 7);
    assert_eq!(g.height(), 6);
    for r in 0..6 {
        for c in 0..7 {
            if (r + c) % 3 != 0 {
                assert_eq!(g.board[r][c], Dead);
            }
        }
    }
    let g = GameContext::new();
    assert_eq!(g.height(), GRID_Y_SIZE);
    assert_eq!(g.width(), GRID_X_SIZE);
    for r in 0..GRID_Y_SIZE {
        for c in 0..GRID_X_SIZE {
            if (r + c) % 3 != 0 {
                assert_eq!(g.board[r][c], Dead);
            }
        }
    }
}

#[test]
fn random_seeding_uses_both_outcomes() {
    // 2133 eligible cells on the default board: all heads or all tails is
    // practically impossible for a fair coin
    let g = GameContext::new();
    let alive = g.board.iter().flatten().filter(|c| **c == Alive).count();
    assert!(alive > 0);
    assert!(alive < 2133);
}

#[test]
fn positions_map_column_to_x_and_row_to_y() {
    let b = parse(&["#..", "..#"]);
    assert_eq!(alive_cell_positions(&b, 5), vec![(0, 0), (10, 5)]);
    let b = parse(&["...", "..."]);
    assert_eq!(alive_cell_positions(&b, 5), Vec::<(u32, u32)>::new());
    let b = parse(&[".#", "#."]);
    assert_eq!(alive_cell_positions(&b, 4), vec![(4, 0), (0, 4)]);
}

#[test]
fn window_size_is_cells_times_pixels() {
    assert_eq!(window_pixel_size(80, 80, 5), Some((400, 400)));
    assert_eq!(window_pixel_size(3, 2, 7), Some((21, 14)));
    assert_eq!(window_pixel_size(1 << 31, 2, 2), None);
    assert_eq!(window_pixel_size(2, 1 << 31, 2), None);
    assert_eq!(window_pixel_size(1 << 31, 2, 1), Some((1 << 31, 2)));
}

#[test]
fn board_advances_every_tenth_frame() {
    let mut frame = 0u32;
    let mut advanced = Vec::new();
    for n in 1..=30u32 {
        let (next, go) = next_frame(frame, 10);
        frame = next;
        if go {
            advanced.push(n);
        }
    }
    assert_eq!(advanced, vec![10, 20, 30]);
    assert_eq!(next_frame(9, 10), (0, true));
    assert_eq!(next_frame(3, 10), (4, false));
    assert_eq!(next_frame(0, 1), (0, true));
}
