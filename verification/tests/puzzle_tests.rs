//! Board, obstacle, match-detection and preview tests.

use puzzle_tactics::puzzle::PuzzleBoard;
use puzzle_tactics::puzzle::ObstacleType;
use puzzle_tactics::puzzle::TileType;
use puzzle_tactics::puzzle::TileGrid;
use puzzle_tactics::puzzle::TilePreview;
use puzzle_tactics::puzzle::PREVIEW_SIZE;
use puzzle_tactics::puzzle::check_match_at_position;
use puzzle_tactics::puzzle::would_match_after_swap;
use puzzle_tactics::puzzle::is_adjacent;
use puzzle_tactics::puzzle::calculate_mana_from_combo;
use puzzle_tactics::puzzle::Obstacle;
use puzzle_tactics::puzzle::detect_matches;

fn empty_grid() -> TileGrid {
    TileGrid::empty()
}

#[test]
fn test_board_has_bomb() {
    let mut board = PuzzleBoard::default();
    board.set_obstacle(3, 3, Some(ObstacleType::Bomb));
    assert!(board.has_bomb(3, 3));
    assert!(!board.has_bomb(0, 0));
}

#[test]
fn test_board_clear_bomb() {
    let mut board = PuzzleBoard::default();
    board.set_obstacle(3, 3, Some(ObstacleType::Bomb));
    assert!(board.has_bomb(3, 3));
    board.clear_obstacle(3, 3);
    assert!(!board.has_bomb(3, 3));
}

#[test]
fn test_adjacent_positions() {
    let pos = (3usize, 3usize);
    let adjacent: Vec<(i32, i32)> = vec![(-1, 0), (1, 0), (0, -1), (0, 1)];
    for (dx, dy) in &adjacent {
        let nx = pos.0 as i32 + dx;
        let ny = pos.1 as i32 + dy;
        assert!(nx >= 0 && ny >= 0);
        assert!(is_adjacent(pos, (nx as usize, ny as usize)));
    }
}

#[test]
fn test_ice_adjacent_pattern_exists() {
    let mut board = PuzzleBoard::default();
    board.set_obstacle(3, 3, Some(ObstacleType::Ice));
    assert!(board.has_ice(3, 3));
}

#[test]
fn test_bomb_defuse_no_explosion() {
    let mut board = PuzzleBoard::default();
    board.set_obstacle(3, 3, Some(ObstacleType::Bomb));
    board.clear_obstacle(3, 3);
    assert!(!board.has_bomb(3, 3));
    assert!(board.get_obstacle(3, 3).is_none());
}

#[test]
fn test_multiple_adjacent_bombs_defuse() {
    let mut board = PuzzleBoard::default();
    board.set_obstacle(2, 3, Some(ObstacleType::Bomb));
    board.set_obstacle(4, 3, Some(ObstacleType::Bomb));
    assert!(board.has_bomb(2, 3));
    assert!(board.has_bomb(4, 3));
    board.clear_obstacle(2, 3);
    board.clear_obstacle(4, 3);
    assert!(!board.has_bomb(2, 3));
    assert!(!board.has_bomb(4, 3));
}

#[test]
fn test_diagonal_not_adjacent() {
    let matched_pos = (3usize, 3usize);
    let diagonals = [(2, 2), (4, 4), (2, 4), (4, 2)];
    for (bx, by) in diagonals {
        let dx = (matched_pos.0 as i32 - bx as i32).abs();
        let dy = (matched_pos.1 as i32 - by as i32).abs();
        assert!(dx == 1 && dy == 1);
        assert!(dx + dy != 1);
        assert!(!is_adjacent(matched_pos, (bx, by)));
    }
}

#[test]
fn test_bomb_defuse_at_boundary() {
    let mut board = PuzzleBoard::default();
    board.set_obstacle(0, 0, Some(ObstacleType::Bomb));
    assert!(board.has_bomb(0, 0));
    board.clear_obstacle(0, 0);
    assert!(!board.has_bomb(0, 0));
}

#[test]
fn test_would_match_horizontal_swap_creates_match() {
    let mut grid = empty_grid();
    grid.set(0, 0, Some(TileType::Red));
    grid.set(1, 0, Some(TileType::Red));
    grid.set(2, 0, Some(TileType::Green));
    grid.set(3, 0, Some(TileType::Red));
    assert!(would_match_after_swap(&grid, (2, 0), (3, 0)));
}

#[test]
fn test_would_match_vertical_swap_creates_match() {
    let mut grid = empty_grid();
    grid.set(0, 0, Some(TileType::Red));
    grid.set(0, 1, Some(TileType::Red));
    grid.set(0, 2, Some(TileType::Green));
    grid.set(0, 3, Some(TileType::Red));
    assert!(would_match_after_swap(&grid, (0, 2), (0, 3)));
}

#[test]
fn test_would_match_no_match_returns_false() {
    let mut grid = empty_grid();
    grid.set(0, 0, Some(TileType::Red));
    grid.set(1, 0, Some(TileType::Blue));
    grid.set(2, 0, Some(TileType::Green));
    grid.set(3, 0, Some(TileType::Yellow));
    assert!(!would_match_after_swap(&grid, (0, 0), (1, 0)));
}

#[test]
fn test_would_match_swap_completes_match_at_destination() {
    let mut grid2 = empty_grid();
    grid2.set(0, 0, Some(TileType::Red));
    grid2.set(1, 0, Some(TileType::Blue));
    grid2.set(2, 0, Some(TileType::Red));
    grid2.set(3, 0, Some(TileType::Red));
    grid2.set(1, 1, Some(TileType::Red));
    assert!(would_match_after_swap(&grid2, (1, 0), (1, 1)));
}

#[test]
fn test_would_match_with_longer_match() {
    let mut grid = empty_grid();
    grid.set(0, 0, Some(TileType::Red));
    grid.set(1, 0, Some(TileType::Red));
    grid.set(2, 0, Some(TileType::Blue));
    grid.set(3, 0, Some(TileType::Red));
    grid.set(4, 0, Some(TileType::Red));
    grid.set(2, 1, Some(TileType::Red));
    assert!(would_match_after_swap(&grid, (2, 0), (2, 1)));
}

#[test]
fn test_would_match_empty_positions() {
    let grid = empty_grid();
    assert!(!would_match_after_swap(&grid, (0, 0), (1, 0)));
}

#[test]
fn test_check_match_at_position_horizontal() {
    let mut grid = empty_grid();
    grid.set(0, 0, Some(TileType::Red));
    grid.set(1, 0, Some(TileType::Red));
    grid.set(2, 0, Some(TileType::Red));
    assert!(check_match_at_position(&grid, 0, 0));
    assert!(check_match_at_position(&grid, 1, 0));
    assert!(check_match_at_position(&grid, 2, 0));
}

#[test]
fn test_check_match_at_position_vertical() {
    let mut grid = empty_grid();
    grid.set(0, 0, Some(TileType::Blue));
    grid.set(0, 1, Some(TileType::Blue));
    grid.set(0, 2, Some(TileType::Blue));
    assert!(check_match_at_position(&grid, 0, 0));
    assert!(check_match_at_position(&grid, 0, 1));
    assert!(check_match_at_position(&grid, 0, 2));
}

#[test]
fn test_check_match_at_position_no_match() {
    let mut grid = empty_grid();
    grid.set(0, 0, Some(TileType::Red));
    grid.set(1, 0, Some(TileType::Blue));
    grid.set(2, 0, Some(TileType::Red));
    assert!(!check_match_at_position(&grid, 0, 0));
    assert!(!check_match_at_position(&grid, 1, 0));
    assert!(!check_match_at_position(&grid, 2, 0));
}

#[test]
fn test_preview_generates_three_tiles() {
    let preview = TilePreview::default();
    assert_eq!(preview.len(), PREVIEW_SIZE);
    assert_eq!(preview.peek_all().len(), PREVIEW_SIZE);
}

#[test]
fn test_preview_rotates_correctly() {
    let mut preview = TilePreview::default();
    let initial_first = preview.peek_all()[0];
    let consumed = preview.consume_next();
    assert_eq!(consumed, initial_first);
    assert_eq!(preview.len(), PREVIEW_SIZE);
}

#[test]
fn test_preview_tiles_are_valid_types() {
    let preview = TilePreview::default();
    let tiles = preview.peek_all();
    for tile in tiles {
        let is_valid = matches!(
            tile,
            TileType::Red
                | TileType::Blue
                | TileType::Green
                | TileType::Yellow
                | TileType::Purple
        );
        assert!(is_valid, "Invalid tile type: {:?}", tile);
    }
}

#[test]
fn test_consume_maintains_queue_size() {
    let mut preview = TilePreview::default();
    for _ in 0..10 {
        preview.consume_next();
        assert_eq!(preview.len(), PREVIEW_SIZE);
    }
}

#[test]
fn test_peek_does_not_modify_queue() {
    let preview = TilePreview::default();
    let first_peek = preview.peek_all();
    let second_peek = preview.peek_all();
    assert_eq!(first_peek, second_peek);
}

#[test]
fn test_mana_from_combo_values() {
    assert_eq!(calculate_mana_from_combo(0), 0);
    assert_eq!(calculate_mana_from_combo(1), 1000);
    assert_eq!(calculate_mana_from_combo(2), 1500);
    assert_eq!(calculate_mana_from_combo(3), 2000);
    assert_eq!(calculate_mana_from_combo(4), 3000);
    assert_eq!(calculate_mana_from_combo(6), 4000);
}

#[test]
fn test_obstacle_constructors() {
    let ice = Obstacle::ice();
    assert!(ice.is_ice());
    assert!(!ice.is_bomb());
    assert_eq!(ice.countdown, None);
    let bomb = Obstacle::bomb(3);
    assert!(bomb.is_bomb());
    assert_eq!(bomb.countdown, Some(3));
}

#[test]
fn test_core_positions() {
    assert!(PuzzleBoard::is_core_position(3, 3));
    assert!(PuzzleBoard::is_core_position(4, 4));
    assert!(!PuzzleBoard::is_core_position(2, 3));
    assert!(PuzzleBoard::is_adjacent_to_core(2, 3));
    assert!(!PuzzleBoard::is_adjacent_to_core(0, 0));
}

#[test]
fn test_detect_matches_finds_exact_cells() {
    let mut grid = empty_grid();
    // a horizontal run of three and one isolated tile
    grid.set(0, 0, Some(TileType::Red));
    grid.set(1, 0, Some(TileType::Red));
    grid.set(2, 0, Some(TileType::Red));
    grid.set(5, 5, Some(TileType::Blue));
    let matched = detect_matches(&grid);
    assert_eq!(matched.len(), 3);
    for p in &matched {
        assert!(p.y == 0 && p.x <= 2);
    }
}
