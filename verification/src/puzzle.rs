//! The match-three board feeding the battle: tiles and obstacles, the board
//! index, match detection, cascade resolution and the upcoming-tile preview.

pub mod tile;
pub mod board;
pub mod preview;
pub mod input;
pub mod match_detector;
pub mod obstacle;
pub mod cascade;

pub use tile::Tile;
pub use tile::TileType;
pub use tile::GridPosition;
pub use tile::Matched;
pub use tile::Selected;
pub use tile::Obstacle;
pub use tile::ObstacleType;
pub use board::PuzzleBoard;
pub use board::PUZZLE_BOARD_SIZE;
pub use preview::TilePreview;
pub use preview::PREVIEW_SIZE;
pub use input::SwapTilesEvent;
pub use input::SwapAnimation;
pub use input::SelectedTile;
pub use input::is_adjacent;
pub use match_detector::TileGrid;
pub use match_detector::check_match_at_position;
pub use match_detector::would_match_after_swap;
pub use match_detector::build_tile_grid;
pub use match_detector::detect_matches;
pub use obstacle::BombCountdownText;
pub use obstacle::IceOverlay;
pub use obstacle::IceMeltEvent;
pub use obstacle::BombDefuseEvent;
pub use obstacle::handle_obstacle_spawn;
pub use cascade::CascadeState;
pub use cascade::calculate_mana_from_combo;
