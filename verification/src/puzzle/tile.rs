//! Tile and obstacle vocabulary of the match-three board: the five elemental
//! tile types (which double as the five unit archetypes), board coordinates,
//! and the ice / bomb obstacles.

use vstd::prelude::*;
use crate::color::DisplayColor;
use crate::rng::roll_below;

verus! {

/// Marker for a tile of the puzzle board.
pub struct Tile;

/// The five tile colors; each is also one of the five unit archetypes
/// (Red: warrior, Blue: tank, Green: ranger, Yellow: assassin, Purple: mage).
#[derive(Clone, Copy, PartialEq, Eq, Structural, Hash, Debug)]
pub enum TileType {
    Red,
    Blue,
    Green,
    Yellow,
    Purple,
}

/// Table index of a tile type, in declaration order.
pub open spec fn spec_tile_index(t: TileType) -> int {
    match t {
        TileType::Red => 0,
        TileType::Blue => 1,
        TileType::Green => 2,
        TileType::Yellow => 3,
        TileType::Purple => 4,
    }
}

impl TileType {
    /// Table index of this tile type, in declaration order.
    pub fn index(&self) -> (i: usize)
        ensures
            i == spec_tile_index(*self),
            i < 5,
    {
        match self {
            TileType::Red => 0,
            TileType::Blue => 1,
            TileType::Green => 2,
            TileType::Yellow => 3,
            TileType::Purple => 4,
        }
    }

    /// Tile type of a spawn-table roll: indices beyond the table fall back
    /// to `Purple`, as the spawn roll's catch-all arm does.
    pub fn from_index(i: u32) -> (t: TileType)
        ensures
            i == 0 ==> t == TileType::Red,
            i == 1 ==> t == TileType::Blue,
            i == 2 ==> t == TileType::Green,
            i == 3 ==> t == TileType::Yellow,
            i >= 4 ==> t == TileType::Purple,
    {
        match i {
            0 => TileType::Red,
            1 => TileType::Blue,
            2 => TileType::Green,
            3 => TileType::Yellow,
            _ => TileType::Purple,
        }
    }

    /// A tile type drawn uniformly from the five.
    pub fn random() -> TileType {
        TileType::from_index(roll_below(5))
    }

    /// The display color of the tile.
    pub fn color(&self) -> (c: DisplayColor)
        ensures
            c == spec_tile_color(*self),
    {
        match self {
            TileType::Red => DisplayColor::new(90, 20, 20),
            TileType::Blue => DisplayColor::new(20, 40, 90),
            TileType::Green => DisplayColor::new(20, 80, 30),
            TileType::Yellow => DisplayColor::new(90, 80, 20),
            TileType::Purple => DisplayColor::new(70, 30, 80),
        }
    }
}

pub open spec fn spec_tile_color(t: TileType) -> DisplayColor {
    match t {
        TileType::Red => DisplayColor { red: 90, green: 20, blue: 20 },
        TileType::Blue => DisplayColor { red: 20, green: 40, blue: 90 },
        TileType::Green => DisplayColor { red: 20, green: 80, blue: 30 },
        TileType::Yellow => DisplayColor { red: 90, green: 80, blue: 20 },
        TileType::Purple => DisplayColor { red: 70, green: 30, blue: 80 },
    }
}

/// A cell of the 8x8 puzzle board.
#[derive(Clone, Copy, PartialEq, Eq, Structural, Debug)]
pub struct GridPosition {
    pub x: usize,
    pub y: usize,
}

impl GridPosition {
    pub fn new(x: usize, y: usize) -> (p: GridPosition)
        ensures
            p.x == x && p.y == y,
    {
        GridPosition { x, y }
    }
}

/// Marker for a tile that belongs to a detected match and awaits removal.
pub struct Matched;

/// Marker for the tile currently picked by the player.
pub struct Selected;

#[derive(Clone, Copy, PartialEq, Eq, Structural, Debug)]
pub enum ObstacleType {
    Ice,
    Bomb,
}

/// An obstacle sitting on a board cell; bombs carry a countdown.
#[derive(Clone, Copy, PartialEq, Eq, Structural, Debug)]
pub struct Obstacle {
    pub obstacle_type: ObstacleType,
    pub countdown: Option<u8>,
}

impl Obstacle {
    pub fn ice() -> (o: Obstacle)
        ensures
            o.obstacle_type == ObstacleType::Ice,
            o.countdown is None,
    {
        Obstacle { obstacle_type: ObstacleType::Ice, countdown: None }
    }

    pub fn bomb(countdown: u8) -> (o: Obstacle)
        ensures
            o.obstacle_type == ObstacleType::Bomb,
            o.countdown == Some(countdown),
    {
        Obstacle { obstacle_type: ObstacleType::Bomb, countdown: Some(countdown) }
    }

    pub fn is_ice(&self) -> (b: bool)
        ensures
            b == (self.obstacle_type == ObstacleType::Ice),
    {
        self.obstacle_type == ObstacleType::Ice
    }

    pub fn is_bomb(&self) -> (b: bool)
        ensures
            b == (self.obstacle_type == ObstacleType::Bomb),
    {
        self.obstacle_type == ObstacleType::Bomb
    }
}

} // verus!
