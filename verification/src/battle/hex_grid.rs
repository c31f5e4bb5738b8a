//! Axial-coordinate hex grid: coordinate arithmetic, distance, adjacency,
//! and the battle board's occupancy index (at most one unit per cell).

use vstd::prelude::*;

verus! {

broadcast use vstd::array::group_array_axioms;

/// Number of columns of the battle board; cells span `q` in `[-3, 3]`.
pub const BATTLE_GRID_COLS: i32 = 7;
/// Nominal number of rows of the battle board; cells span `r` in `[-2, 2]`.
pub const BATTLE_GRID_ROWS: i32 = 4;

/// Coordinates handed to exec-mode arithmetic stay within this band so that
/// sums and differences fit an `i32`; every board cell lies far inside it.
pub const HEX_COORD_LIMIT: i32 = 1000000;

/// An axial hex coordinate.
#[derive(Clone, Copy, PartialEq, Eq, Structural, Hash, Debug)]
pub struct HexPosition {
    pub q: i32,
    pub r: i32,
}

pub open spec fn abs_val(x: int) -> int {
    if x < 0 { -x } else { x }
}

/// Hex Manhattan distance between two axial coordinates:
/// `(|dq| + |dq + dr| + |dr|) / 2`.
pub open spec fn spec_hex_distance(a: HexPosition, b: HexPosition) -> int {
    (abs_val(a.q - b.q) + abs_val(a.q + a.r - b.q - b.r) + abs_val(a.r - b.r)) / 2
}

pub open spec fn hex_in_range(p: HexPosition) -> bool {
    -HEX_COORD_LIMIT <= p.q <= HEX_COORD_LIMIT && -HEX_COORD_LIMIT <= p.r <= HEX_COORD_LIMIT
}

/// `n` sits at one of the six fixed neighbor offsets of `p`.
pub open spec fn is_hex_neighbor(p: HexPosition, n: HexPosition) -> bool {
    ||| (n.q == p.q + 1 && n.r == p.r)
    ||| (n.q == p.q + 1 && n.r == p.r - 1)
    ||| (n.q == p.q && n.r == p.r - 1)
    ||| (n.q == p.q - 1 && n.r == p.r)
    ||| (n.q == p.q - 1 && n.r == p.r + 1)
    ||| (n.q == p.q && n.r == p.r + 1)
}

/// The `k`-th neighbor offset of `p`, in the fixed order `neighbors`
/// returns: east first, then counter-clockwise. Exact for in-range `p`.
pub open spec fn spec_neighbor_at(p: HexPosition, k: int) -> HexPosition {
    if k == 0 {
        HexPosition { q: (p.q + 1) as i32, r: p.r }
    } else if k == 1 {
        HexPosition { q: (p.q + 1) as i32, r: (p.r - 1) as i32 }
    } else if k == 2 {
        HexPosition { q: p.q, r: (p.r - 1) as i32 }
    } else if k == 3 {
        HexPosition { q: (p.q - 1) as i32, r: p.r }
    } else if k == 4 {
        HexPosition { q: (p.q - 1) as i32, r: (p.r + 1) as i32 }
    } else {
        HexPosition { q: p.q, r: (p.r + 1) as i32 }
    }
}

/// The three pairwise differences entering the distance formula sum to an
/// even number, so the halving in `spec_hex_distance` is exact.
proof fn lemma_distance_sum_even(a: HexPosition, b: HexPosition)
    ensures
        (abs_val(a.q - b.q) + abs_val(a.q + a.r - b.q - b.r) + abs_val(a.r - b.r)) % 2 == 0,
{
}

/// Hex distance is symmetric.
pub proof fn lemma_hex_distance_symmetric(a: HexPosition, b: HexPosition)
    ensures
        spec_hex_distance(a, b) == spec_hex_distance(b, a),
{
}

/// Hex distance is zero exactly on identical coordinates.
pub proof fn lemma_hex_distance_zero_iff_eq(a: HexPosition, b: HexPosition)
    ensures
        spec_hex_distance(a, b) == 0 <==> a == b,
{
    lemma_distance_sum_even(a, b);
}

/// Each of the six neighbors of any coordinate lies at hex distance one,
/// in both directions.
pub proof fn lemma_neighbor_distance(p: HexPosition, n: HexPosition)
    requires
        is_hex_neighbor(p, n),
    ensures
        spec_hex_distance(n, p) == 1,
        spec_hex_distance(p, n) == 1,
{
}

impl HexPosition {
    pub fn new(q: i32, r: i32) -> (p: HexPosition)
        ensures
            p.q == q,
            p.r == r,
    {
        HexPosition { q, r }
    }

    /// The six adjacent coordinates, in a fixed order starting east and
    /// proceeding counter-clockwise. They may lie outside the board; the
    /// caller validates.
    pub fn neighbors(&self) -> (ns: [HexPosition; 6])
        requires
            hex_in_range(*self),
        ensures
            ns@.len() == 6,
            forall|i: int| 0 <= i < 6 ==> is_hex_neighbor(*self, #[trigger] ns@[i]),
            forall|i: int| 0 <= i < 6 ==> #[trigger] ns@[i] == spec_neighbor_at(*self, i),
    {
        [
            HexPosition::new(self.q + 1, self.r),
            HexPosition::new(self.q + 1, self.r - 1),
            HexPosition::new(self.q, self.r - 1),
            HexPosition::new(self.q - 1, self.r),
            HexPosition::new(self.q - 1, self.r + 1),
            HexPosition::new(self.q, self.r + 1),
        ]
    }

    /// Hex Manhattan distance to `other`.
    pub fn distance(&self, other: &HexPosition) -> (d: i32)
        requires
            hex_in_range(*self),
            hex_in_range(*other),
        ensures
            d == spec_hex_distance(*self, *other),
            d >= 0,
    {
        let dq: i32 = self.q - other.q;
        let dr: i32 = self.r - other.r;
        let ds: i32 = self.q + self.r - other.q - other.r;
        let abs_dq: i32 = if dq < 0 { -dq } else { dq };
        let abs_dr: i32 = if dr < 0 { -dr } else { dr };
        let abs_ds: i32 = if ds < 0 { -ds } else { ds };
        (abs_dq + abs_ds + abs_dr) / 2
    }
}

/// A board cell is addressable iff it lies within the fixed column and row
/// bounds.
pub open spec fn spec_valid_position(q: int, r: int) -> bool {
    -3 <= q <= 3 && -2 <= r <= 2
}

/// Cells of the player half of the board, scanned by `find_empty_position`.
pub open spec fn spec_player_half(q: int, r: int) -> bool {
    -3 <= q <= 3 && -2 <= r <= 0
}

/// Scan rank of `find_empty_position`: row-major over the player half.
pub open spec fn spec_player_scan_rank(q: int, r: int) -> int {
    (r + 2) * 7 + (q + 3)
}

/// Cells of the enemy half of the board, scanned by `find_enemy_spawn_position`.
pub open spec fn spec_enemy_half(q: int, r: int) -> bool {
    -3 <= q <= 3 && 1 <= r <= 2
}

/// Scan rank of `find_enemy_spawn_position`: row-major over the enemy half.
pub open spec fn spec_enemy_scan_rank(q: int, r: int) -> int {
    (r - 1) * 7 + (q + 3)
}

/// Number of occupied cells in a row of the occupancy vector.
pub open spec fn count_occupied(s: Seq<Option<u64>>) -> int
    decreases s.len(),
{
    if s.len() == 0 {
        0
    } else {
        count_occupied(s.drop_last()) + if s.last() is Some { 1int } else { 0int }
    }
}

proof fn lemma_count_occupied_update(s: Seq<Option<u64>>, i: int, v: Option<u64>)
    requires
        0 <= i < s.len(),
    ensures
        count_occupied(s.update(i, v)) == count_occupied(s)
            - (if s[i] is Some { 1int } else { 0int })
            + (if v is Some { 1int } else { 0int }),
    decreases s.len(),
{
    let su = s.update(i, v);
    assert(su.len() == s.len());
    if i == s.len() - 1 {
        assert(su.drop_last() =~= s.drop_last());
        assert(su.last() == v);
    } else {
        assert(su.drop_last() =~= s.drop_last().update(i, v));
        lemma_count_occupied_update(s.drop_last(), i, v);
        assert(su.last() == s.last());
    }
}

proof fn lemma_count_occupied_all_none(s: Seq<Option<u64>>)
    requires
        forall|i: int| 0 <= i < s.len() ==> s[i] is None,
    ensures
        count_occupied(s) == 0,
    decreases s.len(),
{
    if s.len() > 0 {
        lemma_count_occupied_all_none(s.drop_last());
    }
}

/// Occupancy index of the battle board: at most one unit per cell, units
/// named by their `u64` id.
pub struct BattleGrid {
    cells: Vec<Option<u64>>,
}

impl BattleGrid {
    /// One slot per addressable cell.
    pub closed spec fn wf(self) -> bool {
        self.cells@.len() == 35
    }

    spec fn idx_of(q: int, r: int) -> int {
        (q + 3) + 7 * (r + 2)
    }

    /// The occupant of cell `(q, r)`, `None` off the board.
    pub closed spec fn spec_at(self, q: int, r: int) -> Option<u64> {
        if spec_valid_position(q, r) && self.cells@.len() == 35 {
            self.cells@[Self::idx_of(q, r)]
        } else {
            None
        }
    }

    pub open spec fn spec_occupied(self, p: HexPosition) -> bool {
        self.spec_at(p.q as int, p.r as int) is Some
    }

    /// Total number of units on the board.
    pub closed spec fn spec_occupancy(self) -> int {
        count_occupied(self.cells@)
    }

    proof fn lemma_at_index(self, q: int, r: int)
        requires
            self.wf(),
            spec_valid_position(q, r),
        ensures
            0 <= Self::idx_of(q, r) < 35,
            self.spec_at(q, r) == self.cells@[Self::idx_of(q, r)],
    {
    }

    /// Distinct valid cells map to distinct slots.
    proof fn lemma_idx_distinct(q1: int, r1: int, q2: int, r2: int)
        requires
            spec_valid_position(q1, r1),
            spec_valid_position(q2, r2),
            !(q1 == q2 && r1 == r2),
        ensures
            Self::idx_of(q1, r1) != Self::idx_of(q2, r2),
    {
    }

    pub fn new() -> (g: BattleGrid)
        ensures
            g.wf(),
            forall|q: int, r: int| #[trigger] g.spec_at(q, r) is None,
            g.spec_occupancy() == 0,
    {
        let mut cells: Vec<Option<u64>> = Vec::new();
        let mut i: usize = 0;
        while i < 35
            invariant
                i <= 35,
                cells@.len() == i,
                forall|j: int| 0 <= j < i ==> cells@[j] is None,
            decreases 35 - i,
        {
            cells.push(None);
            i = i + 1;
        }
        proof {
            lemma_count_occupied_all_none(cells@);
        }
        BattleGrid { cells }
    }

    /// Whether `pos` lies on the board at all.
    pub fn is_valid_position(&self, pos: &HexPosition) -> (b: bool)
        ensures
            b == spec_valid_position(pos.q as int, pos.r as int),
    {
        pos.q >= -(BATTLE_GRID_COLS / 2) && pos.q <= BATTLE_GRID_COLS / 2
            && pos.r >= -(BATTLE_GRID_ROWS / 2) && pos.r <= BATTLE_GRID_ROWS / 2
    }

    pub fn is_occupied(&self, pos: &HexPosition) -> (b: bool)
        requires
            self.wf(),
        ensures
            b == self.spec_occupied(*pos),
    {
        if self.is_valid_position(pos) {
            let idx: usize = ((pos.q + 3) + 7 * (pos.r + 2)) as usize;
            self.cells[idx].is_some()
        } else {
            false
        }
    }

    /// The id of the unit standing at `pos`, if any.
    pub fn unit_at(&self, pos: &HexPosition) -> (u: Option<u64>)
        requires
            self.wf(),
        ensures
            u == self.spec_at(pos.q as int, pos.r as int),
    {
        if self.is_valid_position(pos) {
            let idx: usize = ((pos.q + 3) + 7 * (pos.r + 2)) as usize;
            self.cells[idx]
        } else {
            None
        }
    }

    /// Places a unit; succeeds iff `pos` is on the board and empty.
    pub fn place_unit(&mut self, pos: HexPosition, entity: u64) -> (placed: bool)
        requires
            old(self).wf(),
        ensures
            final(self).wf(),
            placed == (spec_valid_position(pos.q as int, pos.r as int)
                && old(self).spec_at(pos.q as int, pos.r as int) is None),
            placed ==> final(self).spec_at(pos.q as int, pos.r as int) == Some(entity),
            placed ==> final(self).spec_occupancy() == old(self).spec_occupancy() + 1,
            !placed ==> *final(self) == *old(self),
            forall|q: int, r: int| !(q == pos.q as int && r == pos.r as int)
                ==> final(self).spec_at(q, r) == old(self).spec_at(q, r),
    {
        if self.is_valid_position(&pos) && !self.is_occupied(&pos) {
            let idx: usize = ((pos.q + 3) + 7 * (pos.r + 2)) as usize;
            proof {
                lemma_count_occupied_update(self.cells@, idx as int, Some(entity));
            }
            self.cells.set(idx, Some(entity));
            proof {
                assert forall|q: int, r: int| !(q == pos.q as int && r == pos.r as int)
                    implies self.spec_at(q, r) == old(self).spec_at(q, r) by {
                    if spec_valid_position(q, r) {
                        Self::lemma_idx_distinct(q, r, pos.q as int, pos.r as int);
                    }
                }
            }
            true
        } else {
            false
        }
    }

    /// Removes and returns the occupant of `pos`, if any.
    pub fn remove_unit(&mut self, pos: &HexPosition) -> (removed: Option<u64>)
        requires
            old(self).wf(),
        ensures
            final(self).wf(),
            removed == old(self).spec_at(pos.q as int, pos.r as int),
            final(self).spec_at(pos.q as int, pos.r as int) is None,
            removed is Some ==> final(self).spec_occupancy() == old(self).spec_occupancy() - 1,
            removed is None ==> *final(self) == *old(self),
            forall|q: int, r: int| !(q == pos.q as int && r == pos.r as int)
                ==> final(self).spec_at(q, r) == old(self).spec_at(q, r),
    {
        if self.is_valid_position(pos) {
            let idx: usize = ((pos.q + 3) + 7 * (pos.r + 2)) as usize;
            let occupant: Option<u64> = self.cells[idx];
            if occupant.is_some() {
                proof {
                    lemma_count_occupied_update(self.cells@, idx as int, None);
                }
                self.cells.set(idx, None);
                proof {
                    assert forall|q: int, r: int| !(q == pos.q as int && r == pos.r as int)
                        implies self.spec_at(q, r) == old(self).spec_at(q, r) by {
                        if spec_valid_position(q, r) {
                            Self::lemma_idx_distinct(q, r, pos.q as int, pos.r as int);
                        }
                    }
                }
            }
            occupant
        } else {
            None
        }
    }

    /// Moves the occupant of `from` to `to`, atomically: if `from` is empty,
    /// or `to` is occupied or off the board, nothing changes. Occupancy is
    /// conserved by a successful move.
    pub fn move_unit(&mut self, from: &HexPosition, to: &HexPosition) -> (moved: bool)
        requires
            old(self).wf(),
        ensures
            final(self).wf(),
            moved == (old(self).spec_at(from.q as int, from.r as int) is Some
                && spec_valid_position(to.q as int, to.r as int)
                && (*to == *from || old(self).spec_at(to.q as int, to.r as int) is None)),
            !moved ==> *final(self) == *old(self),
            moved ==> final(self).spec_at(to.q as int, to.r as int)
                == old(self).spec_at(from.q as int, from.r as int),
            (moved && *to != *from) ==> final(self).spec_at(from.q as int, from.r as int) is None,
            moved ==> final(self).spec_occupancy() == old(self).spec_occupancy(),
            forall|q: int, r: int| !(q == from.q as int && r == from.r as int)
                && !(q == to.q as int && r == to.r as int)
                ==> final(self).spec_at(q, r) == old(self).spec_at(q, r),
    {
        let occupant: Option<u64> = self.unit_at(from);
        match occupant {
            None => false,
            Some(entity) => {
                let to_free = to.q == from.q && to.r == from.r || !self.is_occupied(to);
                if self.is_valid_position(to) && to_free {
                    let from_idx: usize = ((from.q + 3) + 7 * (from.r + 2)) as usize;
                    proof {
                        lemma_count_occupied_update(self.cells@, from_idx as int, None);
                    }
                    self.cells.set(from_idx, None);
                    let to_idx: usize = ((to.q + 3) + 7 * (to.r + 2)) as usize;
                    proof {
                        lemma_count_occupied_update(self.cells@, to_idx as int, Some(entity));
                    }
                    self.cells.set(to_idx, Some(entity));
                    proof {
                        assert forall|q: int, r: int| !(q == from.q as int && r == from.r as int)
                            && !(q == to.q as int && r == to.r as int)
                            implies self.spec_at(q, r) == old(self).spec_at(q, r) by {
                            if spec_valid_position(q, r) {
                                Self::lemma_idx_distinct(q, r, from.q as int, from.r as int);
                                Self::lemma_idx_distinct(q, r, to.q as int, to.r as int);
                            }
                        }
                        if *to != *from {
                            Self::lemma_idx_distinct(
                                from.q as int, from.r as int, to.q as int, to.r as int);
                        }
                    }
                    true
                } else {
                    false
                }
            },
        }
    }

    /// First empty cell of the player half (rows `r <= 0`), scanned
    /// row-major; `None` when that half is full. Used for summons.
    pub fn find_empty_position(&self) -> (found: Option<HexPosition>)
        requires
            self.wf(),
        ensures
            match found {
                Some(p) => {
                    &&& spec_player_half(p.q as int, p.r as int)
                    &&& self.spec_at(p.q as int, p.r as int) is None
                    &&& forall|q: int, r: int| spec_player_half(q, r)
                        && spec_player_scan_rank(q, r) < spec_player_scan_rank(p.q as int, p.r as int)
                        ==> #[trigger] self.spec_at(q, r) is Some
                },
                None => forall|q: int, r: int| spec_player_half(q, r)
                    ==> #[trigger] self.spec_at(q, r) is Some,
            },
    {
        let mut r: i32 = -2;
        while r <= 0
            invariant
                self.wf(),
                -2 <= r <= 1,
                forall|q2: int, r2: int| spec_player_half(q2, r2) && r2 < r
                    ==> #[trigger] self.spec_at(q2, r2) is Some,
            decreases 1 - r,
        {
            let mut q: i32 = -3;
            while q <= 3
                invariant
                    self.wf(),
                    -2 <= r <= 0,
                    -3 <= q <= 4,
                    forall|q2: int, r2: int| spec_player_half(q2, r2) && r2 < r
                        ==> #[trigger] self.spec_at(q2, r2) is Some,
                    forall|q2: int| -3 <= q2 < q
                        ==> #[trigger] self.spec_at(q2, r as int) is Some,
                decreases 4 - q,
            {
                let pos = HexPosition::new(q, r);
                if !self.is_occupied(&pos) {
                    proof {
                        assert forall|q2: int, r2: int| spec_player_half(q2, r2)
                            && spec_player_scan_rank(q2, r2) < spec_player_scan_rank(q as int, r as int)
                            implies self.spec_at(q2, r2) is Some by {
                            assert(r2 < r || (r2 == r && q2 < q));
                        }
                    }
                    return Some(pos);
                }
                q = q + 1;
            }
            r = r + 1;
        }
        None
    }

    /// First empty cell of the enemy half (rows `r >= 1`), scanned
    /// row-major; `None` when that half is full. Used for wave spawns.
    pub fn find_enemy_spawn_position(&self) -> (found: Option<HexPosition>)
        requires
            self.wf(),
        ensures
            match found {
                Some(p) => {
                    &&& spec_enemy_half(p.q as int, p.r as int)
                    &&& self.spec_at(p.q as int, p.r as int) is None
                    &&& forall|q: int, r: int| spec_enemy_half(q, r)
                        && spec_enemy_scan_rank(q, r) < spec_enemy_scan_rank(p.q as int, p.r as int)
                        ==> #[trigger] self.spec_at(q, r) is Some
                },
                None => forall|q: int, r: int| spec_enemy_half(q, r)
                    ==> #[trigger] self.spec_at(q, r) is Some,
            },
    {
        let mut r: i32 = 1;
        while r <= 2
            invariant
                self.wf(),
                1 <= r <= 3,
                forall|q2: int, r2: int| spec_enemy_half(q2, r2) && r2 < r
                    ==> #[trigger] self.spec_at(q2, r2) is Some,
            decreases 3 - r,
        {
            let mut q: i32 = -3;
            while q <= 3
                invariant
                    self.wf(),
                    1 <= r <= 2,
                    -3 <= q <= 4,
                    forall|q2: int, r2: int| spec_enemy_half(q2, r2) && r2 < r
                        ==> #[trigger] self.spec_at(q2, r2) is Some,
                    forall|q2: int| -3 <= q2 < q
                        ==> #[trigger] self.spec_at(q2, r as int) is Some,
                decreases 4 - q,
            {
                let pos = HexPosition::new(q, r);
                if !self.is_occupied(&pos) {
                    proof {
                        assert forall|q2: int, r2: int| spec_enemy_half(q2, r2)
                            && spec_enemy_scan_rank(q2, r2) < spec_enemy_scan_rank(q as int, r as int)
                            implies self.spec_at(q2, r2) is Some by {
                            assert(r2 < r || (r2 == r && q2 < q));
                        }
                    }
                    return Some(pos);
                }
                q = q + 1;
            }
            r = r + 1;
        }
        None
    }
}

} // verus!
