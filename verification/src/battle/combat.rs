//! Combat resolution: the critical/defense damage formula, per-tick
//! targeting, greedy movement, cooldown-gated attacks, ability casting,
//! buff timing and death cleanup.

use vstd::prelude::*;
use crate::fixed::mul_div;
use crate::rng::roll_below;
use crate::puzzle::tile::TileType;
use crate::battle::hex_grid::BattleGrid;
use crate::battle::hex_grid::HexPosition;
use crate::battle::hex_grid::hex_in_range;
use crate::battle::hex_grid::is_hex_neighbor;
use crate::battle::hex_grid::spec_hex_distance;
use crate::battle::hex_grid::spec_neighbor_at;
use crate::battle::hex_grid::spec_valid_position;
use crate::battle::unit::AttackCooldown;
use crate::battle::unit::BattleUnit;
use crate::battle::unit::RageBuff;
use crate::battle::unit::SnipeBuff;
use crate::battle::unit::StealthBuff;
use crate::battle::unit::Target;
use crate::battle::unit::Team;
use crate::battle::unit::UnitStats;
use crate::battle::unit::spec_damage_after_defense;
use crate::battle::damage_popup::DamagePopupEvent;
use crate::bridge::ObstacleSpawnEvent;
use crate::puzzle::tile::ObstacleType;
use crate::audio::AttackSoundEvent;
use crate::battle::unit::spec_final_damage;

verus! {

/// Damage calculation utility for critical hits and percentage defense.
pub struct DamageCalculator;

/// Raw damage after the critical roll: scaled by 1.5 on a crit.
pub open spec fn spec_crit_damage(base_damage: int, is_crit: bool) -> int {
    if is_crit { base_damage * 150 / 100 } else { base_damage }
}

/// The full formula: critical multiplier, then percentage defense capped at
/// an 80% reduction, then the one-point floor.
pub open spec fn spec_calculate_damage(base_damage: int, is_crit: bool, defense: int) -> int {
    spec_final_damage(spec_crit_damage(base_damage, is_crit), defense)
}

impl DamageCalculator {
    /// Critical hit multiplier, in percent.
    pub const CRIT_MULTIPLIER: u32 = 150;

    /// Cap on the defense reduction, in basis points.
    pub const MAX_DEFENSE_REDUCTION: u32 = 8000;

    /// Floor on any applied damage, in hundredths.
    pub const MIN_DAMAGE: u32 = 100;

    pub fn crit_multiplier() -> (m: u32)
        ensures
            m == 150,
    {
        DamageCalculator::CRIT_MULTIPLIER
    }

    /// Scales damage by the critical multiplier when `is_crit` holds.
    pub fn apply_crit(base_damage: u32, is_crit: bool) -> (r: u32)
        requires
            base_damage <= 100000000,
        ensures
            r == spec_crit_damage(base_damage as int, is_crit),
    {
        if is_crit {
            mul_div(base_damage, DamageCalculator::CRIT_MULTIPLIER, 100)
        } else {
            base_damage
        }
    }

    /// Reduces damage by `min(defense, 8000)` basis points.
    pub fn apply_defense(damage: u32, defense: u32) -> (r: u32)
        ensures
            r == spec_damage_after_defense(damage as int, defense as int),
            r <= damage,
    {
        let capped: u32 = if defense < 8000 { defense } else { 8000 };
        crate::fixed::apply_fraction_bp(damage, 10000 - capped)
    }

    /// The full damage calculation; never below one full point.
    pub fn calculate(base_damage: u32, is_crit: bool, defense: u32) -> (r: u32)
        requires
            base_damage <= 100000000,
        ensures
            r == spec_calculate_damage(base_damage as int, is_crit, defense as int),
            r >= 100,
    {
        let after_crit: u32 = DamageCalculator::apply_crit(base_damage, is_crit);
        let after_defense: u32 = DamageCalculator::apply_defense(after_crit, defense);
        if after_defense > DamageCalculator::MIN_DAMAGE {
            after_defense
        } else {
            DamageCalculator::MIN_DAMAGE
        }
    }
}

/// Rolls a critical hit with probability `chance` basis points: certain at
/// or above the full scale, impossible at zero.
pub fn roll_crit(chance: u32) -> (c: bool)
    ensures
        chance == 0 ==> !c,
        chance >= 10000 ==> c,
{
    roll_below(10000) < chance
}

/// Outgoing damage of one attack before the target's defense: the attack
/// stat through the critical (1.5), rage (1.2) and snipe (2.0) multipliers,
/// composed multiplicatively in that order.
pub open spec fn spec_attack_damage(attack: int, is_crit: bool, raging: bool, sniping: bool) -> int {
    let after_crit = spec_crit_damage(attack, is_crit);
    let after_rage = if raging { after_crit * 120 / 100 } else { after_crit };
    if sniping { after_rage * 2 } else { after_rage }
}

/// Computes one attack's outgoing damage from the attacker's stat and buff
/// state plus the already-decided critical roll.
pub fn attack_damage(attack: u32, is_crit: bool, raging: bool, sniping: bool) -> (d: u32)
    requires
        attack <= 10000000,
    ensures
        d == spec_attack_damage(attack as int, is_crit, raging, sniping),
        d <= 100000000,
{
    let after_crit: u32 = DamageCalculator::apply_crit(attack, is_crit);
    let after_rage: u32 = if raging { mul_div(after_crit, 120, 100) } else { after_crit };
    if sniping { after_rage * 2 } else { after_rage }
}

/// `other` is a lawful target for `me`: a distinct unit of the opposing
/// team not under active stealth.
pub open spec fn spec_targetable(me: BattleUnit, other: BattleUnit) -> bool {
    me.id != other.id && me.team != other.team && !other.spec_stealthed()
}

/// No two units share an id.
pub open spec fn spec_unique_ids(units: Seq<BattleUnit>) -> bool {
    forall|i: int, j: int| 0 <= i < j < units.len() ==> units[i].id != units[j].id
}

/// Every unit stands on a cell of the board.
pub open spec fn spec_positions_valid(units: Seq<BattleUnit>) -> bool {
    forall|i: int| 0 <= i < units.len()
        ==> spec_valid_position((#[trigger] units[i]).pos.q as int, units[i].pos.r as int)
}

/// The target (id and distance) after scanning the first `upto` units in
/// order: the first minimum-distance lawful target wins.
pub open spec fn spec_scan_target(units: Seq<BattleUnit>, me: BattleUnit, upto: int)
    -> Option<(u64, int)>
    decreases upto,
{
    if upto <= 0 {
        None
    } else {
        let prev = spec_scan_target(units, me, upto - 1);
        let cand = units[upto - 1];
        let d = spec_hex_distance(me.pos, cand.pos);
        if spec_targetable(me, cand) && (match prev {
            Some(p) => d < p.1,
            None => true,
        }) {
            Some((cand.id, d))
        } else {
            prev
        }
    }
}

/// The target the scan assigns to the unit at index `i`.
pub open spec fn spec_select_target(units: Seq<BattleUnit>, i: int) -> Option<u64> {
    match spec_scan_target(units, units[i], units.len() as int) {
        Some(p) => Some(p.0),
        None => None,
    }
}

/// A scan result always names some lawful target at its distance, and no
/// scanned unit is a strictly closer lawful target.
proof fn lemma_scan_target_sound(units: Seq<BattleUnit>, me: BattleUnit, upto: int)
    requires
        0 <= upto <= units.len(),
    ensures
        match spec_scan_target(units, me, upto) {
            Some(p) => {
                &&& exists|k: int| 0 <= k < upto && units[k].id == p.0
                    && spec_targetable(me, #[trigger] units[k])
                    && spec_hex_distance(me.pos, units[k].pos) == p.1
                &&& forall|k: int| 0 <= k < upto && spec_targetable(me, #[trigger] units[k])
                    ==> spec_hex_distance(me.pos, units[k].pos) >= p.1
            },
            None => forall|k: int| 0 <= k < upto ==> !spec_targetable(me, #[trigger] units[k]),
        },
    decreases upto,
{
    if upto > 0 {
        lemma_scan_target_sound(units, me, upto - 1);
    }
}

/// A unit under active stealth is never anyone's selected target
/// while its timer runs.
pub proof fn lemma_stealth_never_targeted(units: Seq<BattleUnit>, i: int, j: int)
    requires
        spec_unique_ids(units),
        0 <= i < units.len(),
        0 <= j < units.len(),
        units[j].spec_stealthed(),
    ensures
        spec_select_target(units, i) != Some(units[j].id),
{
    lemma_scan_target_sound(units, units[i], units.len() as int);
    if spec_select_target(units, i) == Some(units[j].id) {
        let k = choose|k: int| 0 <= k < units.len() && units[k].id == units[j].id
            && spec_targetable(units[i], #[trigger] units[k])
            && spec_hex_distance(units[i].pos, units[k].pos)
                == spec_scan_target(units, units[i], units.len() as int)->Some_0.1;
        assert(k == j);
    }
}

/// Selects the nearest lawful target of the unit at `i`, first minimum
/// winning ties; `None` when no opposing unstealthed unit exists.
pub fn select_target(units: &Vec<BattleUnit>, i: usize) -> (t: Option<u64>)
    requires
        i < units@.len(),
        spec_positions_valid(units@),
    ensures
        t == spec_select_target(units@, i as int),
{
    let me: BattleUnit = units[i];
    let ghost me_g = units@[i as int];
    let mut closest: Option<(u64, i32)> = None;
    let mut j: usize = 0;
    while j < units.len()
        invariant
            i < units@.len(),
            j <= units@.len(),
            spec_positions_valid(units@),
            me == units@[i as int],
            match closest {
                Some(c) => spec_scan_target(units@, me, j as int) == Some((c.0, c.1 as int)),
                None => spec_scan_target(units@, me, j as int) is None,
            },
        decreases units@.len() - j,
    {
        let cand: BattleUnit = units[j];
        let stealthed: bool = match cand.stealth {
            Some(s) => s.remaining > 0,
            None => false,
        };
        if cand.id != me.id && cand.team != me.team && !stealthed {
            let d: i32 = me.pos.distance(&cand.pos);
            let better: bool = match closest {
                Some(c) => d < c.1,
                None => true,
            };
            if better {
                closest = Some((cand.id, d));
            }
        }
        j = j + 1;
    }
    match closest {
        Some(c) => Some(c.0),
        None => None,
    }
}

/// Reassigns every unit's target from a snapshot of the unit list: the
/// nearest opposing unit not under stealth, or nothing. Nothing but the
/// `target` field changes.
pub fn targeting_system(units: &mut Vec<BattleUnit>)
    requires
        spec_positions_valid(old(units)@),
    ensures
        final(units)@.len() == old(units)@.len(),
        forall|i: int| 0 <= i < old(units)@.len()
            ==> #[trigger] final(units)@[i] == (BattleUnit {
                target: Target(spec_select_target(old(units)@, i)),
                ..old(units)@[i]
            }),
{
    let n: usize = units.len();
    let mut chosen: Vec<Option<u64>> = Vec::new();
    let mut i: usize = 0;
    while i < n
        invariant
            n == units@.len(),
            i <= n,
            spec_positions_valid(units@),
            chosen@.len() == i,
            forall|k: int| 0 <= k < i
                ==> #[trigger] chosen@[k] == spec_select_target(units@, k),
        decreases n - i,
    {
        let t = select_target(units, i);
        chosen.push(t);
        i = i + 1;
    }
    let ghost snapshot = units@;
    let mut i: usize = 0;
    while i < n
        invariant
            n == snapshot.len(),
            n == units@.len(),
            i <= n,
            chosen@.len() == n,
            forall|k: int| 0 <= k < n ==> #[trigger] chosen@[k] == spec_select_target(snapshot, k),
            forall|k: int| i <= k < n ==> #[trigger] units@[k] == snapshot[k],
            forall|k: int| 0 <= k < i ==> #[trigger] units@[k] == (BattleUnit {
                target: Target(spec_select_target(snapshot, k)),
                ..snapshot[k]
            }),
        decreases n - i,
    {
        let t: Option<u64> = chosen[i];
        let mut u: BattleUnit = units[i];
        u.target = Target(t);
        units.set(i, u);
        i = i + 1;
    }
}


/// The grid and the unit list describe the same board: every unit stands on
/// a board cell registered to its id, every occupied cell belongs to some
/// unit, ids are unique, and the grid holds exactly one cell per unit.
pub open spec fn spec_grid_coherent(grid: BattleGrid, units: Seq<BattleUnit>) -> bool {
    &&& grid.wf()
    &&& spec_positions_valid(units)
    &&& spec_unique_ids(units)
    &&& grid.spec_occupancy() == units.len()
    &&& forall|i: int| 0 <= i < units.len()
        ==> grid.spec_at((#[trigger] units[i]).pos.q as int, units[i].pos.r as int)
            == Some(units[i].id)
    &&& forall|q: int, r: int| #[trigger] grid.spec_at(q, r) is Some
        ==> exists|i: int| 0 <= i < units.len()
            && (#[trigger] units[i].pos).q as int == q && units[i].pos.r as int == r
}

/// In a coherent state, distinct units stand on distinct cells.
pub proof fn lemma_coherent_distinct_pos(grid: BattleGrid, units: Seq<BattleUnit>, i: int, j: int)
    requires
        spec_grid_coherent(grid, units),
        0 <= i < units.len(),
        0 <= j < units.len(),
        i != j,
    ensures
        units[i].pos != units[j].pos,
{
    if units[i].pos == units[j].pos {
        assert(grid.spec_at(units[i].pos.q as int, units[i].pos.r as int) == Some(units[i].id));
        assert(grid.spec_at(units[j].pos.q as int, units[j].pos.r as int) == Some(units[j].id));
    }
}

/// Index of the unit carrying `id`, if it is on the field.
pub fn find_unit_index(units: &Vec<BattleUnit>, id: u64) -> (r: Option<usize>)
    ensures
        match r {
            Some(j) => j < units@.len() && units@[j as int].id == id,
            None => forall|k: int| 0 <= k < units@.len() ==> (#[trigger] units@[k]).id != id,
        },
{
    let mut j: usize = 0;
    while j < units.len()
        invariant
            j <= units@.len(),
            forall|k: int| 0 <= k < j ==> (#[trigger] units@[k]).id != id,
        decreases units@.len() - j,
    {
        if units[j].id == id {
            return Some(j);
        }
        j = j + 1;
    }
    None
}

/// The greedy step after scanning the first `upto` neighbor offsets: the
/// first in-bounds, unoccupied neighbor at minimum distance to `target`.
pub open spec fn spec_scan_move(grid: BattleGrid, from: HexPosition, target: HexPosition, upto: int)
    -> Option<(HexPosition, int)>
    decreases upto,
{
    if upto <= 0 {
        None
    } else {
        let prev = spec_scan_move(grid, from, target, upto - 1);
        let cand = spec_neighbor_at(from, upto - 1);
        let admissible = spec_valid_position(cand.q as int, cand.r as int)
            && grid.spec_at(cand.q as int, cand.r as int) is None;
        let d = spec_hex_distance(cand, target);
        if admissible && (match prev {
            Some(p) => d < p.1,
            None => true,
        }) {
            Some((cand, d))
        } else {
            prev
        }
    }
}

/// The greedy single-step destination toward `target`, if any neighbor of
/// `from` is in bounds and free.
pub open spec fn spec_best_move(grid: BattleGrid, from: HexPosition, target: HexPosition)
    -> Option<HexPosition> {
    match spec_scan_move(grid, from, target, 6) {
        Some(p) => Some(p.0),
        None => None,
    }
}

/// Any scanned best move is an in-bounds, unoccupied neighbor of `from`.
proof fn lemma_scan_move_sound(grid: BattleGrid, from: HexPosition, target: HexPosition, upto: int)
    requires
        spec_valid_position(from.q as int, from.r as int),
        0 <= upto <= 6,
    ensures
        match spec_scan_move(grid, from, target, upto) {
            Some(p) => is_hex_neighbor(from, p.0)
                && spec_valid_position(p.0.q as int, p.0.r as int)
                && grid.spec_at(p.0.q as int, p.0.r as int) is None,
            None => true,
        },
    decreases upto,
{
    if upto > 0 {
        lemma_scan_move_sound(grid, from, target, upto - 1);
    }
}

/// Picks the in-bounds, unoccupied neighbor of `from` minimizing hex
/// distance to `target`, first minimum winning; `None` when all six
/// neighbors are blocked or off the board.
fn find_best_move(grid: &BattleGrid, from: &HexPosition, target: &HexPosition)
    -> (r: Option<HexPosition>)
    requires
        grid.wf(),
        spec_valid_position(from.q as int, from.r as int),
        hex_in_range(*target),
    ensures
        r == spec_best_move(*grid, *from, *target),
{
    let ns = from.neighbors();
    let mut best: Option<(HexPosition, i32)> = None;
    let mut k: usize = 0;
    while k < 6
        invariant
            grid.wf(),
            spec_valid_position(from.q as int, from.r as int),
            hex_in_range(*target),
            k <= 6,
            ns@.len() == 6,
            forall|a: int| 0 <= a < 6 ==> #[trigger] ns@[a] == spec_neighbor_at(*from, a),
            match best {
                Some(b) => spec_scan_move(*grid, *from, *target, k as int)
                    == Some((b.0, b.1 as int)),
                None => spec_scan_move(*grid, *from, *target, k as int) is None,
            },
        decreases 6 - k,
    {
        let cand: HexPosition = ns[k];
        if grid.is_valid_position(&cand) && !grid.is_occupied(&cand) {
            let d: i32 = cand.distance(target);
            let better: bool = match best {
                Some(b) => d < b.1,
                None => true,
            };
            if better {
                best = Some((cand, d));
            }
        }
        k = k + 1;
    }
    match best {
        Some(b) => Some(b.0),
        None => None,
    }
}

/// `i` aims at the unit `j` and stands beyond its attack range, so the
/// movement pass will try to step it closer.
pub open spec fn spec_wants_move(units: Seq<BattleUnit>, i: int, j: int) -> bool {
    &&& 0 <= i < units.len()
    &&& 0 <= j < units.len()
    &&& units[i].target == Target(Some(units[j].id))
    &&& spec_hex_distance(units[i].pos, units[j].pos) > units[i].stats.attack_range
}

/// What the movement pass may do to the unit at `k`: leave it, or step it
/// onto an in-bounds neighbor cell that was free before the pass, and only
/// when it stood beyond attack range of its target. No other field changes.
pub open spec fn spec_move_ok(
    old_units: Seq<BattleUnit>,
    old_grid: BattleGrid,
    k: int,
    u: BattleUnit,
) -> bool {
    &&& u == (BattleUnit { pos: u.pos, ..old_units[k] })
    &&& (u.pos == old_units[k].pos || {
        &&& (exists|j: int| spec_wants_move(old_units, k, j))
        &&& is_hex_neighbor(old_units[k].pos, u.pos)
        &&& spec_valid_position(u.pos.q as int, u.pos.r as int)
        &&& old_grid.spec_at(u.pos.q as int, u.pos.r as int) is None
    })
}

/// Re-establishes coherence after one successful move of the unit at `idx`.
proof fn lemma_coherence_after_move(
    g_old: BattleGrid,
    g_new: BattleGrid,
    units_old: Seq<BattleUnit>,
    units_new: Seq<BattleUnit>,
    idx: int,
    f: HexPosition,
    t: HexPosition,
)
    requires
        spec_grid_coherent(g_old, units_old),
        0 <= idx < units_old.len(),
        f == units_old[idx].pos,
        spec_valid_position(t.q as int, t.r as int),
        t == f || g_old.spec_at(t.q as int, t.r as int) is None,
        g_new.wf(),
        g_new.spec_occupancy() == g_old.spec_occupancy(),
        g_new.spec_at(t.q as int, t.r as int) == g_old.spec_at(f.q as int, f.r as int),
        t != f ==> g_new.spec_at(f.q as int, f.r as int) is None,
        forall|q: int, r: int| !(q == f.q as int && r == f.r as int)
            && !(q == t.q as int && r == t.r as int)
            ==> #[trigger] g_new.spec_at(q, r) == g_old.spec_at(q, r),
        units_new == units_old.update(idx, (BattleUnit { pos: t, ..units_old[idx] })),
    ensures
        spec_grid_coherent(g_new, units_new),
{
    assert(spec_positions_valid(units_new));
    assert(spec_unique_ids(units_new));
    assert forall|i: int| 0 <= i < units_new.len()
        implies g_new.spec_at((#[trigger] units_new[i]).pos.q as int, units_new[i].pos.r as int)
            == Some(units_new[i].id) by {
        if i == idx {
            assert(units_new[i].pos == t);
        } else {
            lemma_coherent_distinct_pos(g_old, units_old, i, idx);
            assert(units_old[i].pos != f);
            if t != f {
                assert(g_old.spec_at(t.q as int, t.r as int) is None);
                assert(units_old[i].pos != t);
            }
        }
    }
    assert forall|q: int, r: int| #[trigger] g_new.spec_at(q, r) is Some
        implies exists|i: int| 0 <= i < units_new.len()
            && (#[trigger] units_new[i].pos).q as int == q && units_new[i].pos.r as int == r by {
        if q == t.q as int && r == t.r as int {
            assert(units_new[idx].pos == t);
            assert((units_new[idx].pos).q as int == q && units_new[idx].pos.r as int == r);
        } else if t != f && q == f.q as int && r == f.r as int {
            assert(g_new.spec_at(q, r) is None);
        } else {
            assert(g_old.spec_at(q, r) is Some);
            let i = choose|i: int| 0 <= i < units_old.len()
                && (#[trigger] units_old[i].pos).q as int == q && units_old[i].pos.r as int == r;
            assert(i != idx);
            assert((units_new[i].pos).q as int == q && units_new[i].pos.r as int == r);
        }
    }
}

/// One movement pass: every unit that has a live target and stands beyond
/// its attack range takes one greedy step toward it, in index order, onto
/// the free in-bounds neighbor closest to the target; a unit whose chosen
/// cell was taken earlier in the same pass stays put, as does everyone
/// else. Occupancy is conserved and the grid stays coherent.
#[verifier::rlimit(80)]
pub fn movement_system(grid: &mut BattleGrid, units: &mut Vec<BattleUnit>)
    requires
        spec_grid_coherent(*old(grid), old(units)@),
    ensures
        spec_grid_coherent(*final(grid), final(units)@),
        final(units)@.len() == old(units)@.len(),
        final(grid).spec_occupancy() == old(grid).spec_occupancy(),
        forall|k: int| 0 <= k < old(units)@.len()
            ==> spec_move_ok(old(units)@, *old(grid), k, #[trigger] final(units)@[k]),
        forall|i: int, j: int| #[trigger] spec_wants_move(old(units)@, i, j)
            && spec_best_move(*old(grid), old(units)@[i].pos, old(units)@[j].pos) is Some
            && (forall|k: int| 0 <= k < i ==> (#[trigger] final(units)@[k]).pos
                != spec_best_move(*old(grid), old(units)@[i].pos, old(units)@[j].pos)->Some_0)
            ==> final(units)@[i].pos
                == spec_best_move(*old(grid), old(units)@[i].pos, old(units)@[j].pos)->Some_0,
{
    let ghost u0 = units@;
    let ghost g0 = *grid;
    let n: usize = units.len();
    let mut movements: Vec<(usize, HexPosition, HexPosition)> = Vec::new();
    let mut i: usize = 0;
    while i < n
        invariant
            spec_grid_coherent(*grid, units@),
            u0 == units@,
            g0 == *grid,
            n == u0.len(),
            i <= n,
            forall|a: int| 0 <= a < movements@.len()
                ==> 0 <= (#[trigger] movements@[a]).0 < i,
            forall|a: int, b: int| 0 <= a < b < movements@.len()
                ==> (#[trigger] movements@[a]).0 < (#[trigger] movements@[b]).0,
            forall|a: int| 0 <= a < movements@.len() ==> {
                let idx = (#[trigger] movements@[a]).0 as int;
                &&& movements@[a].1 == u0[idx].pos
                &&& (exists|j: int| spec_wants_move(u0, idx, j))
                &&& spec_valid_position(movements@[a].2.q as int, movements@[a].2.r as int)
                &&& g0.spec_at(movements@[a].2.q as int, movements@[a].2.r as int) is None
                &&& is_hex_neighbor(u0[idx].pos, movements@[a].2)
            },
            forall|i2: int, j2: int| #[trigger] spec_wants_move(u0, i2, j2) && i2 < i
                && spec_best_move(g0, u0[i2].pos, u0[j2].pos) is Some
                ==> exists|a: int| 0 <= a < movements@.len()
                    && (#[trigger] movements@[a]).0 == i2
                    && Some(movements@[a].2) == spec_best_move(g0, u0[i2].pos, u0[j2].pos),
        decreases n - i,
    {
        let ghost mv0 = movements@;
        let u: BattleUnit = units[i];
        match u.target.0 {
            Some(tid) => {
                match find_unit_index(units, tid) {
                    Some(j) => {
                        let tpos: HexPosition = units[j].pos;
                        let dist: i32 = u.pos.distance(&tpos);
                        if dist > u.stats.attack_range {
                            assert(spec_wants_move(u0, i as int, j as int));
                            proof {
                                assert forall|j2: int| spec_wants_move(u0, i as int, j2)
                                    implies u0[j2].pos == tpos by {
                                    assert(u0[j2].id == tid);
                                }
                            }
                            let best = find_best_move(grid, &u.pos, &tpos);
                            proof {
                                lemma_scan_move_sound(g0, u.pos, tpos, 6);
                            }
                            match best {
                                Some(np) => {
                                    movements.push((i, u.pos, np));
                                    proof {
                                        let a = movements@.len() - 1;
                                        assert(movements@[a].0 == i);
                                        assert(Some(movements@[a].2)
                                            == spec_best_move(g0, u0[i as int].pos, tpos));
                                    }
                                },
                                None => {},
                            }
                        } else {
                            proof {
                                assert forall|j2: int| !spec_wants_move(u0, i as int, j2) by {
                                    if 0 <= j2 < u0.len() && u0[i as int].target
                                        == Target(Some(u0[j2].id)) {
                                        assert(u0[j2].id == tid);
                                        if j2 != j as int {
                                            assert(u0[j as int].id == tid);
                                        }
                                    }
                                }
                            }
                        }
                    },
                    None => {
                        proof {
                            assert forall|j2: int| !spec_wants_move(u0, i as int, j2) by {
                                if 0 <= j2 < u0.len() {
                                    assert(u0[j2].id != tid);
                                }
                            }
                        }
                    },
                }
            },
            None => {},
        }
        proof {
            assert forall|j2: int| spec_wants_move(u0, i as int, j2)
                && spec_best_move(g0, u0[i as int].pos, u0[j2].pos) is Some
                implies exists|a: int| 0 <= a < movements@.len()
                    && (#[trigger] movements@[a]).0 == i as int
                    && Some(movements@[a].2)
                        == spec_best_move(g0, u0[i as int].pos, u0[j2].pos) by {
            }
            assert forall|i2: int, j2: int| #[trigger] spec_wants_move(u0, i2, j2)
                && i2 < i + 1
                && spec_best_move(g0, u0[i2].pos, u0[j2].pos) is Some
                implies exists|a: int| 0 <= a < movements@.len()
                    && (#[trigger] movements@[a]).0 == i2
                    && Some(movements@[a].2)
                        == spec_best_move(g0, u0[i2].pos, u0[j2].pos) by {
                if i2 == i as int {
                    assert(spec_wants_move(u0, i as int, j2));
                } else {
                    let a = choose|a: int| 0 <= a < mv0.len()
                        && (#[trigger] mv0[a]).0 == i2
                        && Some(mv0[a].2) == spec_best_move(g0, u0[i2].pos, u0[j2].pos);
                    assert(0 <= a < movements@.len());
                    assert(movements@[a] == mv0[a]);
                }
            }
        }
        i = i + 1;
    }
    let n_moves: usize = movements.len();
    let mut m: usize = 0;
    while m < n_moves
        invariant
            spec_grid_coherent(*grid, units@),
            n == u0.len(),
            units@.len() == n,
            n_moves == movements@.len(),
            m <= n_moves,
            spec_grid_coherent(g0, u0),
            grid.spec_occupancy() == g0.spec_occupancy(),
            forall|a: int| 0 <= a < movements@.len()
                ==> 0 <= (#[trigger] movements@[a]).0 < n,
            forall|a: int, b: int| 0 <= a < b < movements@.len()
                ==> (#[trigger] movements@[a]).0 < (#[trigger] movements@[b]).0,
            forall|a: int| 0 <= a < movements@.len() ==> {
                let idx = (#[trigger] movements@[a]).0 as int;
                &&& movements@[a].1 == u0[idx].pos
                &&& (exists|j: int| spec_wants_move(u0, idx, j))
                &&& spec_valid_position(movements@[a].2.q as int, movements@[a].2.r as int)
                &&& g0.spec_at(movements@[a].2.q as int, movements@[a].2.r as int) is None
                &&& is_hex_neighbor(u0[idx].pos, movements@[a].2)
            },
            forall|i2: int, j2: int| #[trigger] spec_wants_move(u0, i2, j2)
                && spec_best_move(g0, u0[i2].pos, u0[j2].pos) is Some
                ==> exists|a: int| 0 <= a < movements@.len()
                    && (#[trigger] movements@[a]).0 == i2
                    && Some(movements@[a].2) == spec_best_move(g0, u0[i2].pos, u0[j2].pos),
            forall|a: int| m <= a < movements@.len()
                ==> units@[(#[trigger] movements@[a]).0 as int]
                    == u0[movements@[a].0 as int],
            forall|k: int| 0 <= k < n
                ==> spec_move_ok(u0, g0, k, #[trigger] units@[k]),
            forall|k: int| 0 <= k < n ==> (#[trigger] units@[k]) == u0[k]
                || exists|a: int| 0 <= a < m && (#[trigger] movements@[a]).0 == k,
            forall|a: int| 0 <= a < m ==> {
                let idx = (#[trigger] movements@[a]).0 as int;
                units@[idx].pos == movements@[a].2
                    || (exists|k: int| 0 <= k < idx && (#[trigger] units@[k]).pos
                        == movements@[a].2)
            },
        decreases n_moves - m,
    {
        let (idx, f, t): (usize, HexPosition, HexPosition) = movements[m];
        let ghost pre_grid = *grid;
        let ghost pre_units = units@;
        let moved: bool = grid.move_unit(&f, &t);
        proof {
            assert(pre_grid.spec_at(f.q as int, f.r as int) == Some(u0[idx as int].id));
        }
        if moved {
            let mut uu: BattleUnit = units[idx];
            uu.pos = t;
            units.set(idx, uu);
            proof {
                lemma_coherence_after_move(
                    pre_grid, *grid, pre_units, units@, idx as int, f, t);
            }
        } else {
            proof {
                // the move was refused only because `t` is now occupied,
                // i.e. some earlier-moved unit stands there
                assert(pre_grid.spec_at(t.q as int, t.r as int) is Some);
                let w = choose|w: int| 0 <= w < pre_units.len()
                    && (#[trigger] pre_units[w].pos).q as int == t.q as int
                    && pre_units[w].pos.r as int == t.r as int;
                assert(pre_units[w].pos == t);
                assert(g0.spec_at(t.q as int, t.r as int) is None);
                assert(u0[w].pos != t || !spec_valid_position(t.q as int, t.r as int));
                assert(units@[w].pos == t);
                // w moved, so it was an earlier movement entry; entries are
                // index-ascending, hence w < idx
                assert(units@[w] != u0[w]);
                assert(exists|a: int| 0 <= a < m && (#[trigger] movements@[a]).0 == w);
                let a = choose|a: int| 0 <= a < m && (#[trigger] movements@[a]).0 == w;
                assert(w < idx as int);
            }
        }
        m = m + 1;
    }
    proof {
        assert forall|i2: int, j2: int| #[trigger] spec_wants_move(u0, i2, j2)
            && spec_best_move(g0, u0[i2].pos, u0[j2].pos) is Some
            && (forall|k: int| 0 <= k < i2 ==> (#[trigger] units@[k]).pos
                != spec_best_move(g0, u0[i2].pos, u0[j2].pos)->Some_0)
            implies units@[i2].pos
                == spec_best_move(g0, u0[i2].pos, u0[j2].pos)->Some_0 by {
            let np = spec_best_move(g0, u0[i2].pos, u0[j2].pos)->Some_0;
            let a = choose|a: int| 0 <= a < movements@.len()
                && (#[trigger] movements@[a]).0 == i2
                && Some(movements@[a].2) == spec_best_move(g0, u0[i2].pos, u0[j2].pos);
            assert(units@[i2].pos == np
                || (exists|k: int| 0 <= k < i2 && (#[trigger] units@[k]).pos == np));
        }
    }
}



/// The units still alive in `units`, in order.
pub open spec fn spec_live_units(units: Seq<BattleUnit>) -> Seq<BattleUnit>
    decreases units.len(),
{
    if units.len() == 0 {
        Seq::empty()
    } else {
        let prefix = spec_live_units(units.drop_last());
        if units.last().stats.health > 0 {
            prefix.push(units.last())
        } else {
            prefix
        }
    }
}

/// Every survivor is one of the units that entered the pass, alive.
proof fn lemma_live_units_membership(units: Seq<BattleUnit>)
    ensures
        spec_live_units(units).len() <= units.len(),
        forall|k: int| 0 <= k < spec_live_units(units).len()
            ==> exists|i: int| 0 <= i < units.len()
                && units[i] == #[trigger] spec_live_units(units)[k]
                && units[i].stats.health > 0,
    decreases units.len(),
{
    if units.len() > 0 {
        lemma_live_units_membership(units.drop_last());
        let live = spec_live_units(units);
        let prev = spec_live_units(units.drop_last());
        assert forall|k: int| 0 <= k < live.len()
            implies exists|i: int| 0 <= i < units.len()
                && units[i] == #[trigger] live[k] && units[i].stats.health > 0 by {
            if k < prev.len() {
                let i = choose|i: int| 0 <= i < units.drop_last().len()
                    && units.drop_last()[i] == #[trigger] prev[k]
                    && units.drop_last()[i].stats.health > 0;
                assert(units[i] == live[k]);
            } else {
                assert(live[k] == units.last());
                assert(units[units.len() - 1] == live[k]);
            }
        }
    }
}

/// Every living unit survives into the filtered list.
proof fn lemma_live_units_complete(units: Seq<BattleUnit>)
    ensures
        forall|i: int| 0 <= i < units.len() && (#[trigger] units[i]).stats.health > 0
            ==> exists|k: int| 0 <= k < spec_live_units(units).len()
                && spec_live_units(units)[k] == units[i],
    decreases units.len(),
{
    if units.len() > 0 {
        lemma_live_units_complete(units.drop_last());
        let live = spec_live_units(units);
        let prev = spec_live_units(units.drop_last());
        assert forall|i: int| 0 <= i < units.len() && (#[trigger] units[i]).stats.health > 0
            implies exists|k: int| 0 <= k < live.len() && live[k] == units[i] by {
            if i < units.len() - 1 {
                assert(units.drop_last()[i] == units[i]);
                let k = choose|k: int| 0 <= k < prev.len() && prev[k] == units.drop_last()[i];
                assert(live[k] == units[i]);
            } else {
                assert(live[live.len() - 1] == units[i]);
            }
        }
    }
}

/// Filtering preserves id uniqueness.
proof fn lemma_live_units_unique(units: Seq<BattleUnit>)
    requires
        spec_unique_ids(units),
    ensures
        spec_unique_ids(spec_live_units(units)),
    decreases units.len(),
{
    if units.len() > 0 {
        assert(spec_unique_ids(units.drop_last()));
        lemma_live_units_unique(units.drop_last());
        lemma_live_units_membership(units.drop_last());
        let live = spec_live_units(units);
        let prev = spec_live_units(units.drop_last());
        assert forall|a: int, b: int| 0 <= a < b < live.len()
            implies live[a].id != live[b].id by {
            if b == prev.len() {
                let i = choose|i: int| 0 <= i < units.drop_last().len()
                    && units.drop_last()[i] == #[trigger] prev[a]
                    && units.drop_last()[i].stats.health > 0;
                assert(units[i].id != units[units.len() - 1].id);
            }
        }
    }
}

/// Number of living units.
pub open spec fn spec_live_count(units: Seq<BattleUnit>, upto: int) -> int
    decreases upto,
{
    if upto <= 0 {
        0
    } else {
        spec_live_count(units, upto - 1)
            + if units[upto - 1].stats.health > 0 { 1int } else { 0int }
    }
}

proof fn lemma_live_count_is_len(units: Seq<BattleUnit>, upto: int)
    requires
        0 <= upto <= units.len(),
    ensures
        spec_live_count(units, upto) == spec_live_units(units.subrange(0, upto)).len(),
    decreases upto,
{
    if upto > 0 {
        lemma_live_count_is_len(units, upto - 1);
        assert(units.subrange(0, upto).drop_last() =~= units.subrange(0, upto - 1));
    }
}

/// Clears the grid cell of every dead unit, leaving the cells of the
/// living in place.
#[verifier::spinoff_prover]
#[verifier::rlimit(60)]
fn clear_dead_cells(grid: &mut BattleGrid, units: &Vec<BattleUnit>)
    requires
        spec_grid_coherent(*old(grid), units@),
    ensures
        final(grid).wf(),
        final(grid).spec_occupancy() == spec_live_count(units@, units@.len() as int),
        forall|i: int| 0 <= i < units@.len() && (#[trigger] units@[i]).stats.health > 0
            ==> final(grid).spec_at(units@[i].pos.q as int, units@[i].pos.r as int)
                == Some(units@[i].id),
        forall|q: int, r: int| #[trigger] final(grid).spec_at(q, r) is Some
            ==> exists|i: int| 0 <= i < units@.len()
                && ((#[trigger] units@[i].pos).q as int == q && units@[i].pos.r as int == r
                    && units@[i].stats.health > 0),
{
    let ghost g0 = *grid;
    let n: usize = units.len();
    let mut i: usize = 0;
    while i < n
        invariant
            spec_grid_coherent(g0, units@),
            n == units@.len(),
            i <= n,
            grid.wf(),
            grid.spec_occupancy() == g0.spec_occupancy() - i + spec_live_count(units@, i as int),
            forall|k: int| 0 <= k < n && (#[trigger] units@[k]).stats.health > 0
                ==> grid.spec_at(units@[k].pos.q as int, units@[k].pos.r as int)
                    == Some(units@[k].id),
            forall|k: int| i <= k < n
                ==> grid.spec_at((#[trigger] units@[k]).pos.q as int, units@[k].pos.r as int)
                    == Some(units@[k].id),
            forall|q: int, r: int| #[trigger] grid.spec_at(q, r) is Some
                ==> exists|k: int| 0 <= k < n
                    && ((#[trigger] units@[k].pos).q as int == q && units@[k].pos.r as int == r
                        && (units@[k].stats.health > 0 || i <= k)),
        decreases n - i,
    {
        let u: BattleUnit = units[i];
        if u.stats.health == 0 {
            proof {
                assert forall|k: int| 0 <= k < n && k != i as int
                    implies units@[k].pos != u.pos by {
                    lemma_coherent_distinct_pos(g0, units@, k, i as int);
                }
            }
            let removed = grid.remove_unit(&u.pos);
        }
        i = i + 1;
    }
}

/// Drops every dead unit from the list, keeping the survivors in order.
fn retain_live(units: &mut Vec<BattleUnit>)
    ensures
        final(units)@ == spec_live_units(old(units)@),
{
    let ghost u0 = units@;
    let n: usize = units.len();
    let mut alive: Vec<BattleUnit> = Vec::new();
    let mut i: usize = 0;
    while i < n
        invariant
            n == u0.len(),
            units@ == u0,
            i <= n,
            alive@ == spec_live_units(u0.subrange(0, i as int)),
        decreases n - i,
    {
        proof {
            assert(u0.subrange(0, i as int + 1).drop_last() =~= u0.subrange(0, i as int));
            assert(u0.subrange(0, i as int + 1).last() == u0[i as int]);
        }
        let u: BattleUnit = units[i];
        if u.stats.health > 0 {
            alive.push(u);
        }
        i = i + 1;
    }
    proof {
        assert(u0.subrange(0, n as int) =~= u0);
    }
    *units = alive;
}

/// Removes every dead unit from the field and clears its grid cell in the
/// same tick; survivors keep their order and state.
pub fn death_system(grid: &mut BattleGrid, units: &mut Vec<BattleUnit>)
    requires
        spec_grid_coherent(*old(grid), old(units)@),
    ensures
        spec_grid_coherent(*final(grid), final(units)@),
        final(units)@ == spec_live_units(old(units)@),
{
    let ghost u0 = units@;
    clear_dead_cells(grid, units);
    retain_live(units);
    proof {
        let live = spec_live_units(u0);
        lemma_live_units_membership(u0);
        lemma_live_units_complete(u0);
        lemma_live_units_unique(u0);
        lemma_live_count_is_len(u0, u0.len() as int);
        assert(u0.subrange(0, u0.len() as int) =~= u0);
        assert(grid.spec_occupancy() == live.len());
        assert(spec_positions_valid(live)) by {
            assert forall|k: int| 0 <= k < live.len()
                implies spec_valid_position((#[trigger] live[k]).pos.q as int,
                    live[k].pos.r as int) by {
                let i = choose|i: int| 0 <= i < u0.len() && u0[i] == live[k]
                    && u0[i].stats.health > 0;
            }
        }
        assert forall|k: int| 0 <= k < live.len()
            implies grid.spec_at((#[trigger] live[k]).pos.q as int, live[k].pos.r as int)
                == Some(live[k].id) by {
            let i = choose|i: int| 0 <= i < u0.len() && u0[i] == live[k]
                && u0[i].stats.health > 0;
        }
        assert forall|q: int, r: int| #[trigger] grid.spec_at(q, r) is Some
            implies exists|k: int| 0 <= k < live.len()
                && ((#[trigger] live[k].pos).q as int == q && live[k].pos.r as int == r) by {
            let i = choose|i: int| 0 <= i < u0.len()
                && ((#[trigger] u0[i].pos).q as int == q && u0[i].pos.r as int == r
                    && u0[i].stats.health > 0);
            let k = choose|k: int| 0 <= k < live.len() && live[k] == u0[i];
            assert((live[k].pos).q as int == q && live[k].pos.r as int == r);
        }
    }
}

/// Counts every rage and stealth timer down by the elapsed milliseconds and
/// drops the buffs whose time is up; snipe is not time-based and stays.
pub fn buff_timer_system(units: &mut Vec<BattleUnit>, delta: u32)
    ensures
        final(units)@.len() == old(units)@.len(),
        forall|i: int| 0 <= i < old(units)@.len() ==> #[trigger] final(units)@[i]
            == (BattleUnit {
                rage: match old(units)@[i].rage {
                    Some(b) => if b.remaining > delta {
                        Some(RageBuff { remaining: (b.remaining - delta) as u32 })
                    } else {
                        None
                    },
                    None => None,
                },
                stealth: match old(units)@[i].stealth {
                    Some(b) => if b.remaining > delta {
                        Some(StealthBuff { remaining: (b.remaining - delta) as u32 })
                    } else {
                        None
                    },
                    None => None,
                },
                ..old(units)@[i]
            }),
{
    let ghost u0 = units@;
    let n: usize = units.len();
    let mut i: usize = 0;
    while i < n
        invariant
            n == u0.len(),
            units@.len() == n,
            i <= n,
            forall|k: int| i <= k < n ==> #[trigger] units@[k] == u0[k],
            forall|k: int| 0 <= k < i ==> #[trigger] units@[k]
                == (BattleUnit {
                    rage: match u0[k].rage {
                        Some(b) => if b.remaining > delta {
                            Some(RageBuff { remaining: (b.remaining - delta) as u32 })
                        } else {
                            None
                        },
                        None => None,
                    },
                    stealth: match u0[k].stealth {
                        Some(b) => if b.remaining > delta {
                            Some(StealthBuff { remaining: (b.remaining - delta) as u32 })
                        } else {
                            None
                        },
                        None => None,
                    },
                    ..u0[k]
                }),
        decreases n - i,
    {
        let mut u: BattleUnit = units[i];
        u.rage = match u.rage {
            Some(mut b) => {
                b.tick(delta);
                if b.is_expired() { None } else { Some(b) }
            },
            None => None,
        };
        u.stealth = match u.stealth {
            Some(mut b) => {
                b.tick(delta);
                if b.is_expired() { None } else { Some(b) }
            },
            None => None,
        };
        units.set(i, u);
        i = i + 1;
    }
}


/// Every unit's stats lie within the fixed bounds.
pub open spec fn spec_units_wf(units: Seq<BattleUnit>) -> bool {
    forall|i: int| 0 <= i < units.len() ==> (#[trigger] units[i]).wf()
}

/// Ready to attack this tick: cooldown exhausted and a target assigned.
pub open spec fn spec_attacker_ready(units: Seq<BattleUnit>, i: int) -> bool {
    units[i].cooldown == (AttackCooldown(0)) && units[i].target.0 is Some
}

/// Rolls the wave-gated obstacle side effect of one enemy attack: from wave
/// five a 15% chance of a bomb (three-turn countdown), else from wave three
/// a 10% chance of ice, at a uniformly drawn board cell; nothing earlier.
fn maybe_spawn_obstacle_on_attack(current_wave: u32) -> (ev: Option<ObstacleSpawnEvent>)
    ensures
        current_wave < 3 ==> ev is None,
        match ev {
            Some(e) => {
                &&& e.position.0 < 8 && e.position.1 < 8
                &&& (e.obstacle_type == ObstacleType::Bomb
                    ==> current_wave >= 5 && e.countdown == Some(3u8))
                &&& (e.obstacle_type == ObstacleType::Ice
                    ==> current_wave >= 3 && e.countdown is None)
            },
            None => true,
        },
{
    if current_wave >= 5 && roll_below(10000) < 1500 {
        let x: usize = roll_below(8) as usize;
        let y: usize = roll_below(8) as usize;
        return Some(ObstacleSpawnEvent {
            position: (x, y),
            obstacle_type: ObstacleType::Bomb,
            countdown: Some(3),
        });
    }
    if current_wave >= 3 && roll_below(10000) < 1000 {
        let x: usize = roll_below(8) as usize;
        let y: usize = roll_below(8) as usize;
        return Some(ObstacleSpawnEvent {
            position: (x, y),
            obstacle_type: ObstacleType::Ice,
            countdown: None,
        });
    }
    None
}

/// What one attack pass may do to the unit at `i`, beyond the exact snipe,
/// cooldown and health clauses: nothing else changes.
pub open spec fn spec_attack_frame(old_u: BattleUnit, new_u: BattleUnit) -> bool {
    new_u == (BattleUnit {
        snipe: new_u.snipe,
        cooldown: new_u.cooldown,
        stats: (UnitStats { health: new_u.stats.health, ..old_u.stats }),
        ..old_u
    })
}


/// The (target id, attacker team) of every ready attacker, in unit order:
/// one attack per ready attacker.
pub open spec fn spec_attack_targets(units: Seq<BattleUnit>, upto: int) -> Seq<(u64, Team)>
    decreases upto,
{
    if upto <= 0 {
        Seq::empty()
    } else {
        let prev = spec_attack_targets(units, upto - 1);
        if spec_attacker_ready(units, upto - 1) {
            prev.push((units[upto - 1].target.0->Some_0, units[upto - 1].team))
        } else {
            prev
        }
    }
}

/// How many of the given target ids name a unit on the field.
pub open spec fn spec_present_count(tids: Seq<u64>, units: Seq<BattleUnit>, upto: int) -> int
    decreases upto,
{
    if upto <= 0 {
        0
    } else {
        spec_present_count(tids, units, upto - 1)
            + if exists|k: int| 0 <= k < units.len()
                && (#[trigger] units[k]).id == tids[upto - 1] { 1int } else { 0int }
    }
}

/// How many ready attackers aim at a unit that is on the field: the number
/// of attacks that land this tick.
pub open spec fn spec_landed_ready_count(units: Seq<BattleUnit>, upto: int) -> int
    decreases upto,
{
    if upto <= 0 {
        0
    } else {
        spec_landed_ready_count(units, upto - 1)
            + if spec_attacker_ready(units, upto - 1)
                && (exists|k: int| 0 <= k < units.len()
                    && (#[trigger] units[k]).id == units[upto - 1].target.0->Some_0) {
                1int
            } else {
                0int
            }
    }
}

/// How many of the given attacker teams are the enemy's.
pub open spec fn spec_enemy_pair_count(targets: Seq<(u64, Team)>, upto: int) -> int
    decreases upto,
{
    if upto <= 0 {
        0
    } else {
        spec_enemy_pair_count(targets, upto - 1)
            + if targets[upto - 1].1 == Team::Enemy { 1int } else { 0int }
    }
}

/// How many collected attacks came from the enemy team.
pub open spec fn spec_enemy_attack_count(attacks: Seq<(u64, u32, Team, bool)>, upto: int) -> int
    decreases upto,
{
    if upto <= 0 {
        0
    } else {
        spec_enemy_attack_count(attacks, upto - 1)
            + if attacks[upto - 1].2 == Team::Enemy { 1int } else { 0int }
    }
}

/// Enemy counts agree between an attack list and the attack-target list it
/// was built from.
proof fn lemma_enemy_counts_eq(
    attacks: Seq<(u64, u32, Team, bool)>,
    targets: Seq<(u64, Team)>,
    upto: int,
)
    requires
        0 <= upto <= attacks.len(),
        upto <= targets.len(),
        forall|a: int| 0 <= a < upto
            ==> (#[trigger] attacks[a]).2 == targets[a].1,
    ensures
        spec_enemy_attack_count(attacks, upto) == spec_enemy_pair_count(targets, upto),
    decreases upto,
{
    if upto > 0 {
        lemma_enemy_counts_eq(attacks, targets, upto - 1);
    }
}

/// The popup reports one of the listed attacks, landing on the unit that
/// carries the attack's target id: its position, the attack's crit flag,
/// and the outgoing damage in whole points.
pub open spec fn spec_popup_matches(
    ev: DamagePopupEvent,
    attacks: Seq<(u64, u32, Team, bool)>,
    units: Seq<BattleUnit>,
) -> bool {
    exists|j: int, k: int| 0 <= j < attacks.len() && 0 <= k < units.len()
        && (#[trigger] attacks[j]).0 == (#[trigger] units[k]).id
        && ev.position == units[k].pos
        && ev.is_critical == attacks[j].3
        && ev.damage == attacks[j].1 / 100
}

/// The popup reports a strike by some ready attacker on its target: the
/// victim's position and, for some critical outcome, the attack formula's
/// damage in whole points.
pub open spec fn spec_popup_accounted(ev: DamagePopupEvent, units: Seq<BattleUnit>) -> bool {
    exists|i: int, j: int, c: bool| 0 <= i < units.len() && 0 <= j < units.len()
        && spec_attacker_ready(units, j)
        && units[j].target.0 == Some((#[trigger] units[i]).id)
        && ev.position == units[i].pos
        && ev.is_critical == c
        && ev.damage == #[trigger] spec_attack_damage(
            units[j].stats.attack as int, c,
            units[j].spec_raging(), units[j].spec_sniping()) / 100
}

/// Some listed popup reports a critical hit.
pub open spec fn spec_any_crit(popups: Seq<DamagePopupEvent>) -> bool {
    exists|p: int| 0 <= p < popups.len() && (#[trigger] popups[p]).is_critical
}

/// Every ready attacker contributes its target to the attack list.
proof fn lemma_attack_targets_complete(units: Seq<BattleUnit>, j: int, upto: int)
    requires
        0 <= j < upto <= units.len(),
        spec_attacker_ready(units, j),
    ensures
        exists|a: int| 0 <= a < spec_attack_targets(units, upto).len()
            && #[trigger] spec_attack_targets(units, upto)[a]
                == (units[j].target.0->Some_0, units[j].team),
    decreases upto,
{
    if j == upto - 1 {
        let t = spec_attack_targets(units, upto);
        assert(t[t.len() - 1] == (units[j].target.0->Some_0, units[j].team));
    } else {
        lemma_attack_targets_complete(units, j, upto - 1);
        let prev = spec_attack_targets(units, upto - 1);
        let a = choose|a: int| 0 <= a < prev.len()
            && #[trigger] prev[a] == (units[j].target.0->Some_0, units[j].team);
        assert(spec_attack_targets(units, upto)[a] == prev[a]);
    }
}

/// Counting landed attacks over the attack list equals counting them over
/// the ready attackers, for any field with the same unit ids.
proof fn lemma_landed_count_matches(units: Seq<BattleUnit>, us: Seq<BattleUnit>, upto: int)
    requires
        0 <= upto <= units.len(),
        us.len() == units.len(),
        forall|k: int| 0 <= k < us.len() ==> (#[trigger] us[k]).id == units[k].id,
    ensures
        spec_present_count(
            spec_attack_targets(units, upto).map_values(|t: (u64, Team)| t.0),
            us,
            spec_attack_targets(units, upto).len() as int,
        ) == spec_landed_ready_count(units, upto),
    decreases upto,
{
    if upto > 0 {
        lemma_landed_count_matches(units, us, upto - 1);
        let prev = spec_attack_targets(units, upto - 1);
        let cur = spec_attack_targets(units, upto);
        if spec_attacker_ready(units, upto - 1) {
            let tid = units[upto - 1].target.0->Some_0;
            assert(cur == prev.push((tid, units[upto - 1].team)));
            let tids = cur.map_values(|t: (u64, Team)| t.0);
            let ptids = prev.map_values(|t: (u64, Team)| t.0);
            assert(tids.len() == prev.len() + 1);
            assert(tids[tids.len() - 1] == tid);
            assert forall|a: int| 0 <= a < ptids.len()
                implies #[trigger] tids[a] == ptids[a] by {
                assert(cur[a] == prev[a]);
            }
            lemma_present_count_congruent(tids, ptids, us, prev.len() as int);
            assert((exists|k: int| 0 <= k < us.len() && (#[trigger] us[k]).id == tid)
                == (exists|k: int| 0 <= k < units.len()
                    && (#[trigger] units[k]).id == tid)) by {
                if exists|k: int| 0 <= k < us.len() && (#[trigger] us[k]).id == tid {
                    let k = choose|k: int| 0 <= k < us.len()
                        && (#[trigger] us[k]).id == tid;
                    assert(units[k].id == tid);
                }
                if exists|k: int| 0 <= k < units.len()
                    && (#[trigger] units[k]).id == tid {
                    let k = choose|k: int| 0 <= k < units.len()
                        && (#[trigger] units[k]).id == tid;
                    assert(us[k].id == tid);
                }
            }
        } else {
            assert(cur == prev);
        }
    }
}

/// Present-counts agree on id lists that agree up to `upto`.
proof fn lemma_present_count_congruent(
    tids1: Seq<u64>,
    tids2: Seq<u64>,
    us: Seq<BattleUnit>,
    upto: int,
)
    requires
        0 <= upto <= tids1.len(),
        upto <= tids2.len(),
        forall|a: int| 0 <= a < upto ==> #[trigger] tids1[a] == tids2[a],
    ensures
        spec_present_count(tids1, us, upto) == spec_present_count(tids2, us, upto),
    decreases upto,
{
    if upto > 0 {
        lemma_present_count_congruent(tids1, tids2, us, upto - 1);
    }
}

/// Collects this tick's attacks: for every ready attacker, rolls the
/// critical hit, computes the outgoing damage from attack, crit, rage and
/// snipe, and consumes the snipe buff. Nothing else changes.
fn collect_attacks(units: &mut Vec<BattleUnit>) -> (attacks: Vec<(u64, u32, Team, bool)>)
    requires
        spec_units_wf(old(units)@),
    ensures
        final(units)@.len() == old(units)@.len(),
        forall|k: int| 0 <= k < old(units)@.len() ==> #[trigger] final(units)@[k]
            == (BattleUnit {
                snipe: if spec_attacker_ready(old(units)@, k) && old(units)@[k].spec_sniping() {
                    None
                } else {
                    old(units)@[k].snipe
                },
                ..old(units)@[k]
            }),
        attacks@.len() == spec_attack_targets(old(units)@, old(units)@.len() as int).len(),
        forall|a: int| 0 <= a < attacks@.len()
            ==> ((#[trigger] attacks@[a]).0, attacks@[a].2)
                == spec_attack_targets(old(units)@, old(units)@.len() as int)[a],
        forall|a: int| 0 <= a < attacks@.len()
            ==> exists|j: int| 0 <= j < old(units)@.len()
                && spec_attacker_ready(old(units)@, j)
                && old(units)@[j].target.0 == Some((#[trigger] attacks@[a]).0)
                && old(units)@[j].team == attacks@[a].2
                && attacks@[a].1 == spec_attack_damage(
                    old(units)@[j].stats.attack as int, attacks@[a].3,
                    old(units)@[j].spec_raging(), old(units)@[j].spec_sniping()),
        (attacks@.len() > 0) == exists|j: int| 0 <= j < old(units)@.len()
            && spec_attacker_ready(old(units)@, j),
{
    let ghost u0 = units@;
    let n: usize = units.len();
    let mut attacks: Vec<(u64, u32, Team, bool)> = Vec::new();
    let mut i: usize = 0;
    while i < n
        invariant
            spec_units_wf(u0),
            n == u0.len(),
            units@.len() == n,
            i <= n,
            forall|k: int| i <= k < n ==> #[trigger] units@[k] == u0[k],
            forall|k: int| 0 <= k < i ==> #[trigger] units@[k] == (BattleUnit {
                snipe: if spec_attacker_ready(u0, k) && u0[k].spec_sniping() {
                    None
                } else {
                    u0[k].snipe
                },
                ..u0[k]
            }),
            attacks@.len() == spec_attack_targets(u0, i as int).len(),
            forall|a: int| 0 <= a < attacks@.len()
                ==> ((#[trigger] attacks@[a]).0, attacks@[a].2)
                    == spec_attack_targets(u0, i as int)[a],
            forall|a: int| 0 <= a < attacks@.len()
                ==> exists|j: int| 0 <= j < n && spec_attacker_ready(u0, j)
                    && u0[j].target.0 == Some((#[trigger] attacks@[a]).0)
                    && u0[j].team == attacks@[a].2
                    && attacks@[a].1 == spec_attack_damage(
                        u0[j].stats.attack as int, attacks@[a].3,
                        u0[j].spec_raging(), u0[j].spec_sniping()),
            (attacks@.len() > 0) == exists|j: int| 0 <= j < i
                && spec_attacker_ready(u0, j),
        decreases n - i,
    {
        let u: BattleUnit = units[i];
        if u.cooldown.0 == 0 {
            match u.target.0 {
                Some(tid) => {
                    let is_crit: bool = roll_crit(u.stats.crit_chance);
                    let raging: bool = match u.rage {
                        Some(b) => b.remaining > 0,
                        None => false,
                    };
                    let sniping: bool = match u.snipe {
                        Some(b) => !b.consumed,
                        None => false,
                    };
                    let dmg: u32 = attack_damage(u.stats.attack, is_crit, raging, sniping);
                    if sniping {
                        let mut uu: BattleUnit = units[i];
                        uu.snipe = None;
                        units.set(i, uu);
                    }
                    attacks.push((tid, dmg, u.team, is_crit));
                    proof {
                        assert(spec_attacker_ready(u0, i as int));
                        assert(raging == u0[i as int].spec_raging());
                        assert(sniping == u0[i as int].spec_sniping());
                        assert(spec_attack_targets(u0, i as int + 1)
                            == spec_attack_targets(u0, i as int).push((tid, u.team)));
                        let a = attacks@.len() - 1;
                        assert((attacks@[a].0, attacks@[a].2)
                            == spec_attack_targets(u0, i as int + 1)[a]);
                        assert(0 <= i as int && (i as int) < n && spec_attacker_ready(u0, i as int)
                            && u0[i as int].target.0 == Some(attacks@[a].0)
                            && u0[i as int].team == attacks@[a].2
                            && attacks@[a].1 == spec_attack_damage(
                                u0[i as int].stats.attack as int, attacks@[a].3,
                                u0[i as int].spec_raging(), u0[i as int].spec_sniping()));
                    }
                },
                None => {
                    proof {
                        assert(!spec_attacker_ready(u0, i as int));
                    }
                },
            }
        } else {
            proof {
                assert(!spec_attacker_ready(u0, i as int));
            }
        }
        i = i + 1;
    }
    attacks
}

/// Applies the collected attacks in order: each lands on the unit carrying
/// the stored target id through its percentage defense; a missing target
/// skips the strike. Emits one damage popup per landed attack and rolls the
/// wave-gated obstacle request for each enemy attack. Returns the popups,
/// the requests, and whether any landed attack was critical.
#[verifier::rlimit(60)]
fn apply_attacks(
    units: &mut Vec<BattleUnit>,
    attacks: &Vec<(u64, u32, Team, bool)>,
    current_wave: u32,
) -> (out: (Vec<DamagePopupEvent>, Vec<ObstacleSpawnEvent>, bool))
    requires
        spec_unique_ids(old(units)@),
    ensures
        final(units)@.len() == old(units)@.len(),
        forall|k: int| 0 <= k < old(units)@.len() ==> #[trigger] final(units)@[k]
            == (BattleUnit {
                stats: (UnitStats {
                    health: final(units)@[k].stats.health,
                    ..old(units)@[k].stats
                }),
                ..old(units)@[k]
            }),
        forall|k: int| 0 <= k < old(units)@.len()
            ==> (#[trigger] final(units)@[k]).stats.health <= old(units)@[k].stats.health,
        forall|k: int| 0 <= k < old(units)@.len()
            ==> (#[trigger] final(units)@[k]).stats.health == old(units)@[k].stats.health
                || exists|a: int| 0 <= a < attacks@.len()
                    && (#[trigger] attacks@[a]).0 == old(units)@[k].id,
        forall|k: int| 0 <= k < old(units)@.len() && old(units)@[k].stats.health > 0
            && (exists|a: int| 0 <= a < attacks@.len()
                && (#[trigger] attacks@[a]).0 == old(units)@[k].id)
            ==> (#[trigger] final(units)@[k]).stats.health < old(units)@[k].stats.health,
        out.0@.len() == spec_present_count(
            attacks@.map_values(|t: (u64, u32, Team, bool)| t.0),
            old(units)@,
            attacks@.len() as int,
        ),
        forall|p: int| 0 <= p < out.0@.len()
            ==> spec_popup_matches(#[trigger] out.0@[p], attacks@, old(units)@),
        out.2 == spec_any_crit(out.0@),
        out.1@.len() <= spec_enemy_attack_count(attacks@, attacks@.len() as int),
        forall|e: int| 0 <= e < out.1@.len() ==> {
            let ev = #[trigger] out.1@[e];
            &&& ev.position.0 < 8 && ev.position.1 < 8
            &&& (ev.obstacle_type == ObstacleType::Bomb
                ==> current_wave >= 5 && ev.countdown == Some(3u8))
            &&& (ev.obstacle_type == ObstacleType::Ice
                ==> current_wave >= 3 && ev.countdown is None)
        },
        current_wave < 3 ==> out.1@.len() == 0,
{
    let ghost u1 = units@;
    let n: usize = units.len();
    let mut popups: Vec<DamagePopupEvent> = Vec::new();
    let mut obstacles: Vec<ObstacleSpawnEvent> = Vec::new();
    let mut any_crit: bool = false;
    let n_attacks: usize = attacks.len();
    let mut a: usize = 0;
    while a < n_attacks
        invariant
            n == u1.len(),
            units@.len() == n,
            a <= n_attacks,
            n_attacks == attacks@.len(),
            forall|k: int| 0 <= k < n ==> (#[trigger] units@[k]) == (BattleUnit {
                stats: (UnitStats { health: units@[k].stats.health, ..u1[k].stats }),
                ..u1[k]
            }),
            forall|k: int| 0 <= k < n
                ==> (#[trigger] units@[k]).stats.health <= u1[k].stats.health,
            forall|k: int| 0 <= k < n
                ==> (#[trigger] units@[k]).stats.health == u1[k].stats.health
                    || exists|j: int| 0 <= j < n_attacks
                        && (#[trigger] attacks@[j]).0 == u1[k].id,
            spec_unique_ids(u1),
            forall|k: int| 0 <= k < n && u1[k].stats.health > 0
                && (exists|j: int| 0 <= j < a
                    && (#[trigger] attacks@[j]).0 == u1[k].id)
                ==> (#[trigger] units@[k]).stats.health < u1[k].stats.health,
            popups@.len() == spec_present_count(
                attacks@.map_values(|t: (u64, u32, Team, bool)| t.0),
                u1,
                a as int,
            ),
            forall|p: int| 0 <= p < popups@.len()
                ==> spec_popup_matches(#[trigger] popups@[p], attacks@, u1),
            any_crit == spec_any_crit(popups@),
            obstacles@.len() <= spec_enemy_attack_count(attacks@, a as int),
            forall|e: int| 0 <= e < obstacles@.len() ==> {
                let ev = #[trigger] obstacles@[e];
                &&& ev.position.0 < 8 && ev.position.1 < 8
                &&& (ev.obstacle_type == ObstacleType::Bomb
                    ==> current_wave >= 5 && ev.countdown == Some(3u8))
                &&& (ev.obstacle_type == ObstacleType::Ice
                    ==> current_wave >= 3 && ev.countdown is None)
            },
            current_wave < 3 ==> obstacles@.len() == 0,
        decreases n_attacks - a,
    {
        let ghost pop0 = popups@;
        let ghost crit0 = any_crit;
        let (tid, dmg, team, is_crit): (u64, u32, Team, bool) = attacks[a];
        proof {
            assert(attacks@.map_values(|t: (u64, u32, Team, bool)| t.0)[a as int] == tid);
        }
        match find_unit_index(units, tid) {
            Some(t) => {
                let mut tu: BattleUnit = units[t];
                tu.stats.take_damage(dmg);
                units.set(t, tu);
                popups.push(DamagePopupEvent {
                    position: tu.pos,
                    damage: dmg / 100,
                    is_critical: is_crit,
                });
                if is_crit {
                    any_crit = true;
                }
                proof {
                    assert(u1[t as int].id == tid);
                    assert(exists|k: int| 0 <= k < u1.len()
                        && (#[trigger] u1[k]).id == tid);
                    assert forall|k: int| 0 <= k < n && u1[k].id == tid
                        implies k == t as int by {
                    }
                    assert(tu.pos == u1[t as int].pos);
                    let np = popups@.len() - 1;
                    assert(popups@[np].position == u1[t as int].pos
                        && popups@[np].is_critical == attacks@[a as int].3
                        && popups@[np].damage == attacks@[a as int].1 / 100);
                    assert(0 <= a as int && (a as int) < n_attacks
                        && 0 <= t as int && (t as int) < n
                        && attacks@[a as int].0 == u1[t as int].id
                        && popups@[popups@.len() - 1].position == u1[t as int].pos
                        && popups@[popups@.len() - 1].is_critical == attacks@[a as int].3
                        && popups@[popups@.len() - 1].damage == attacks@[a as int].1 / 100);
                    assert(spec_popup_matches(popups@[popups@.len() - 1], attacks@, u1));
                }
            },
            None => {
                proof {
                    assert forall|k: int| 0 <= k < u1.len()
                        implies (#[trigger] u1[k]).id != tid by {
                        assert(units@[k].id == u1[k].id);
                    }
                }
            },
        }
        if matches!(team, Team::Enemy) {
            match maybe_spawn_obstacle_on_attack(current_wave) {
                Some(ev) => { obstacles.push(ev); },
                None => {},
            }
        }
        proof {
            assert(popups@.len() == pop0.len() || popups@.len() == pop0.len() + 1);
            assert forall|p: int| 0 <= p < pop0.len()
                implies #[trigger] popups@[p] == pop0[p] by {
            }
            assert forall|p: int| 0 <= p < popups@.len()
                implies spec_popup_matches(#[trigger] popups@[p], attacks@, u1) by {
                if p < pop0.len() {
                    assert(popups@[p] == pop0[p]);
                    assert(spec_popup_matches(pop0[p], attacks@, u1));
                }
            }
            assert(any_crit == spec_any_crit(popups@)) by {
                if any_crit {
                    if crit0 {
                        let p = choose|p: int| 0 <= p < pop0.len()
                            && (#[trigger] pop0[p]).is_critical;
                        assert(popups@[p] == pop0[p]);
                        assert(popups@[p].is_critical);
                    } else {
                        assert(popups@[popups@.len() - 1].is_critical);
                    }
                } else {
                    assert forall|p: int| 0 <= p < popups@.len()
                        implies !(#[trigger] popups@[p]).is_critical by {
                        if p < pop0.len() {
                            assert(popups@[p] == pop0[p]);
                            assert(!pop0[p].is_critical);
                        }
                    }
                }
            }
        }
        a = a + 1;
    }
    (popups, obstacles, any_crit)
}

/// Advances every attack cooldown: a unit that attacked this tick (its
/// cooldown was exhausted and it held a target) starts a fresh cooldown of
/// `100000 / attack_speed` milliseconds; everyone else counts down by the
/// elapsed milliseconds, resting at zero until a target appears.
fn update_cooldowns(units: &mut Vec<BattleUnit>, delta: u32)
    requires
        forall|k: int| 0 <= k < old(units)@.len()
            ==> (#[trigger] old(units)@[k]).stats.attack_speed > 0,
    ensures
        final(units)@.len() == old(units)@.len(),
        forall|k: int| 0 <= k < old(units)@.len() ==> #[trigger] final(units)@[k]
            == (BattleUnit {
                cooldown: (AttackCooldown(final(units)@[k].cooldown.0)),
                ..old(units)@[k]
            }),
        forall|k: int| 0 <= k < old(units)@.len()
            ==> (#[trigger] final(units)@[k]).cooldown.0
                == if spec_attacker_ready(old(units)@, k) {
                    100000int / old(units)@[k].stats.attack_speed as int
                } else if old(units)@[k].cooldown.0 > delta {
                    old(units)@[k].cooldown.0 - delta
                } else {
                    0int
                },
{
    let ghost u2 = units@;
    let n: usize = units.len();
    let mut i: usize = 0;
    while i < n
        invariant
            n == u2.len(),
            units@.len() == n,
            i <= n,
            forall|k: int| 0 <= k < n ==> (#[trigger] u2[k]).stats.attack_speed > 0,
            forall|k: int| i <= k < n ==> #[trigger] units@[k] == u2[k],
            forall|k: int| 0 <= k < i ==> #[trigger] units@[k] == (BattleUnit {
                cooldown: (AttackCooldown(units@[k].cooldown.0)),
                ..u2[k]
            }),
            forall|k: int| 0 <= k < i ==> (#[trigger] units@[k]).cooldown.0
                == if spec_attacker_ready(u2, k) {
                    100000int / u2[k].stats.attack_speed as int
                } else if u2[k].cooldown.0 > delta {
                    u2[k].cooldown.0 - delta
                } else {
                    0int
                },
        decreases n - i,
    {
        let mut u: BattleUnit = units[i];
        if u.cooldown.0 == 0 && u.target.0.is_some() {
            u.cooldown = AttackCooldown(100000 / u.stats.attack_speed);
        } else if u.cooldown.0 > delta {
            u.cooldown = AttackCooldown(u.cooldown.0 - delta);
        } else {
            u.cooldown = AttackCooldown(0);
        }
        units.set(i, u);
        i = i + 1;
    }
}

/// One attack pass: every unit whose cooldown is exhausted and which holds a
/// target rolls a critical hit and strikes for its attack scaled by crit,
/// rage and snipe; the strike consumes any snipe buff and lands through the
/// victim's percentage defense. Each attacker's cooldown then resets to
/// `100000 / attack_speed` milliseconds; every other cooldown counts down
/// by the elapsed time, resting at zero. Enemy attacks may request an
/// obstacle on the puzzle board. Returns the damage popups, the obstacle
/// requests, and the shared attack sound.
#[verifier::rlimit(60)]
pub fn attack_system(units: &mut Vec<BattleUnit>, current_wave: u32, delta: u32)
    -> (out: (Vec<DamagePopupEvent>, Vec<ObstacleSpawnEvent>, Option<AttackSoundEvent>))
    requires
        spec_units_wf(old(units)@),
        spec_unique_ids(old(units)@),
    ensures
        final(units)@.len() == old(units)@.len(),
        forall|i: int| 0 <= i < old(units)@.len()
            ==> spec_attack_frame(old(units)@[i], #[trigger] final(units)@[i]),
        forall|i: int| 0 <= i < old(units)@.len()
            ==> (#[trigger] final(units)@[i]).snipe
                == if spec_attacker_ready(old(units)@, i) && old(units)@[i].spec_sniping() {
                    None
                } else {
                    old(units)@[i].snipe
                },
        forall|i: int| 0 <= i < old(units)@.len()
            ==> (#[trigger] final(units)@[i]).cooldown.0
                == if spec_attacker_ready(old(units)@, i) {
                    100000int / old(units)@[i].stats.attack_speed as int
                } else if old(units)@[i].cooldown.0 > delta {
                    old(units)@[i].cooldown.0 - delta
                } else {
                    0int
                },
        forall|i: int| 0 <= i < old(units)@.len()
            ==> (#[trigger] final(units)@[i]).stats.health <= old(units)@[i].stats.health,
        forall|i: int| 0 <= i < old(units)@.len()
            ==> (#[trigger] final(units)@[i]).stats.health == old(units)@[i].stats.health
                || exists|j: int| 0 <= j < old(units)@.len()
                    && spec_attacker_ready(old(units)@, j)
                    && old(units)@[j].target.0 == Some(old(units)@[i].id),
        forall|i: int| 0 <= i < old(units)@.len()
            && old(units)@[i].stats.health > 0
            && (exists|j: int| 0 <= j < old(units)@.len()
                && #[trigger] spec_attacker_ready(old(units)@, j)
                && old(units)@[j].target.0 == Some(old(units)@[i].id))
            ==> (#[trigger] final(units)@[i]).stats.health < old(units)@[i].stats.health,
        out.0@.len() == spec_landed_ready_count(old(units)@, old(units)@.len() as int),
        forall|p: int| 0 <= p < out.0@.len()
            ==> spec_popup_accounted(#[trigger] out.0@[p], old(units)@),
        (out.2 is Some) == exists|j: int| 0 <= j < old(units)@.len()
            && spec_attacker_ready(old(units)@, j),
        match out.2 {
            Some(snd) => snd.is_critical == spec_any_crit(out.0@),
            None => out.0@.len() == 0,
        },
        out.1@.len() <= spec_enemy_pair_count(
            spec_attack_targets(old(units)@, old(units)@.len() as int),
            spec_attack_targets(old(units)@, old(units)@.len() as int).len() as int,
        ),
        forall|e: int| 0 <= e < out.1@.len() ==> {
            let ev = #[trigger] out.1@[e];
            &&& ev.position.0 < 8 && ev.position.1 < 8
            &&& (ev.obstacle_type == ObstacleType::Bomb
                ==> current_wave >= 5 && ev.countdown == Some(3u8))
            &&& (ev.obstacle_type == ObstacleType::Ice
                ==> current_wave >= 3 && ev.countdown is None)
        },
        current_wave < 3 ==> out.1@.len() == 0,
{
    let ghost u0 = units@;
    let ghost targets = spec_attack_targets(u0, u0.len() as int);
    let attacks: Vec<(u64, u32, Team, bool)> = collect_attacks(units);
    let has_attacks: bool = attacks.len() > 0;
    let ghost u1 = units@;
    proof {
        assert(spec_unique_ids(u1)) by {
            assert forall|x: int, y: int| 0 <= x < y < u1.len()
                implies u1[x].id != u1[y].id by {
                assert(u1[x].id == u0[x].id && u1[y].id == u0[y].id);
            }
        }
    }
    let (popups, obstacles, any_crit): (Vec<DamagePopupEvent>, Vec<ObstacleSpawnEvent>, bool)
        = apply_attacks(units, &attacks, current_wave);
    let sound: Option<AttackSoundEvent> = if has_attacks {
        Some(AttackSoundEvent { is_critical: any_crit })
    } else {
        None
    };
    proof {
        assert forall|k: int| 0 <= k < u0.len()
            implies (#[trigger] units@[k]).stats.attack_speed > 0 by {
            assert(u0[k].wf());
        }
    }
    let ghost u2 = units@;
    update_cooldowns(units, delta);
    proof {
        let n = u0.len() as int;
        assert forall|i: int| 0 <= i < n
            implies (#[trigger] units@[i]).stats.health == u0[i].stats.health
                || exists|j: int| 0 <= j < n
                    && spec_attacker_ready(u0, j)
                    && u0[j].target.0 == Some(u0[i].id) by {
            if units@[i].stats.health != u0[i].stats.health {
                let a = choose|a: int| 0 <= a < attacks@.len()
                    && (#[trigger] attacks@[a]).0 == u0[i].id;
                let j = choose|j: int| 0 <= j < n && spec_attacker_ready(u0, j)
                    && u0[j].target.0 == Some((#[trigger] attacks@[a]).0)
                    && u0[j].team == attacks@[a].2
                    && attacks@[a].1 == spec_attack_damage(u0[j].stats.attack as int,
                        attacks@[a].3, u0[j].spec_raging(), u0[j].spec_sniping());
                assert(u0[j].target.0 == Some(u0[i].id));
            }
        }
        // a ready attacker's strike lands on its living target
        assert forall|i: int| 0 <= i < n
            && u0[i].stats.health > 0
            && (exists|j: int| 0 <= j < n
                && #[trigger] spec_attacker_ready(u0, j)
                && u0[j].target.0 == Some(u0[i].id))
            implies (#[trigger] units@[i]).stats.health < u0[i].stats.health by {
            let j = choose|j: int| 0 <= j < n && #[trigger] spec_attacker_ready(u0, j)
                && u0[j].target.0 == Some(u0[i].id);
            lemma_attack_targets_complete(u0, j, n);
            let a = choose|a: int| 0 <= a < targets.len()
                && #[trigger] targets[a] == (u0[j].target.0->Some_0, u0[j].team);
            assert(attacks@[a].0 == u0[i].id);
            assert(u1[i].stats.health == u0[i].stats.health);
            assert(u2[i].stats.health < u1[i].stats.health);
        }
        // one popup per landed attack
        lemma_landed_count_matches(u0, u1, n);
        lemma_present_count_congruent(
            attacks@.map_values(|t: (u64, u32, Team, bool)| t.0),
            targets.map_values(|t: (u64, Team)| t.0),
            u1,
            targets.len() as int,
        );
        assert(popups@.len() == spec_landed_ready_count(u0, n));
        // each popup carries a real attack's damage, crit flag and victim
        assert forall|p: int| 0 <= p < popups@.len()
            implies spec_popup_accounted(#[trigger] popups@[p], u0) by {
            assert(spec_popup_matches(popups@[p], attacks@, u1));
            let ak = choose|a: int, k: int| 0 <= a < attacks@.len() && 0 <= k < u1.len()
                && (#[trigger] attacks@[a]).0 == (#[trigger] u1[k]).id
                && popups@[p].position == u1[k].pos
                && popups@[p].is_critical == attacks@[a].3
                && popups@[p].damage == attacks@[a].1 / 100;
            let a = ak.0;
            let k = ak.1;
            let j = choose|j: int| 0 <= j < n && spec_attacker_ready(u0, j)
                && u0[j].target.0 == Some((#[trigger] attacks@[a]).0)
                && u0[j].team == attacks@[a].2
                && attacks@[a].1 == spec_attack_damage(u0[j].stats.attack as int,
                    attacks@[a].3, u0[j].spec_raging(), u0[j].spec_sniping());
            assert(u1[k].id == u0[k].id && u1[k].pos == u0[k].pos);
            assert(u0[j].target.0 == Some(u0[k].id));
            assert(0 <= k < n && 0 <= j < n
                && spec_attacker_ready(u0, j)
                && u0[j].target.0 == Some(u0[k].id)
                && popups@[p].position == u0[k].pos
                && popups@[p].is_critical == attacks@[a].3
                && popups@[p].damage == spec_attack_damage(
                    u0[j].stats.attack as int, attacks@[a].3,
                    u0[j].spec_raging(), u0[j].spec_sniping()) / 100);
            assert(spec_popup_accounted(popups@[p], u0));
        }
        // obstacle requests come only from enemy attacks, at most one each
        lemma_enemy_counts_eq(attacks@, targets, attacks@.len() as int);
    }
    (popups, obstacles, sound)
}



/// A unit casts exactly when its mana bar is full.
pub open spec fn spec_caster(u: BattleUnit) -> bool {
    u.stats.mana >= u.stats.max_mana
}

/// Number of casting mages on the opposing team, whose meteors will hit.
pub open spec fn spec_enemy_purple_casters(units: Seq<BattleUnit>, team: Team, upto: int) -> int
    decreases upto,
{
    if upto <= 0 {
        0
    } else {
        spec_enemy_purple_casters(units, team, upto - 1)
            + if spec_caster(units[upto - 1])
                && units[upto - 1].unit_type.0 == TileType::Purple
                && units[upto - 1].team != team { 1int } else { 0int }
    }
}

proof fn lemma_epc_nonneg(units: Seq<BattleUnit>, team: Team, upto: int)
    ensures
        spec_enemy_purple_casters(units, team, upto) >= 0,
    decreases upto,
{
    if upto > 0 {
        lemma_epc_nonneg(units, team, upto - 1);
    }
}

/// Health after every opposing mage's meteor has landed through this
/// unit's defense.
pub open spec fn spec_meteor_health(units: Seq<BattleUnit>, i: int) -> int {
    let n = spec_enemy_purple_casters(units, units[i].team, units.len() as int);
    let d = spec_final_damage(1500, units[i].stats.defense as int);
    if units[i].stats.health > n * d {
        units[i].stats.health - n * d
    } else {
        0
    }
}

/// The unit at `i` after one ability pass: meteors land on everyone, then
/// each caster fires its archetype ability (rage, heal, snipe or stealth)
/// and empties its mana bar.
pub open spec fn spec_after_ability(units: Seq<BattleUnit>, i: int) -> BattleUnit {
    let u = units[i];
    let hm = spec_meteor_health(units, i);
    let caster = spec_caster(u);
    let t = u.unit_type.0;
    BattleUnit {
        stats: (UnitStats {
            health: (if caster && t == TileType::Blue {
                if hm + u.stats.max_health / 5 <= u.stats.max_health {
                    hm + u.stats.max_health / 5
                } else {
                    u.stats.max_health as int
                }
            } else {
                hm
            }) as u32,
            mana: if caster { 0u32 } else { u.stats.mana },
            ..u.stats
        }),
        rage: if caster && t == TileType::Red {
            Some(RageBuff { remaining: 5000 })
        } else {
            u.rage
        },
        snipe: if caster && t == TileType::Green {
            Some(SnipeBuff { consumed: false })
        } else {
            u.snipe
        },
        stealth: if caster && t == TileType::Yellow {
            Some(StealthBuff { remaining: 3000 })
        } else {
            u.stealth
        },
        ..u
    }
}

/// One ability pass: every unit whose mana bar is full casts its archetype
/// ability exactly once. Warriors gain rage, rangers snipe, assassins
/// stealth; tanks heal a fifth of their maximum health; mages deal the
/// meteor amount to every opposing unit through its defense, all meteors
/// landing before any heal. Every caster's mana then resets to zero.
#[verifier::rlimit(60)]
pub fn ability_system(units: &mut Vec<BattleUnit>)
    requires
        spec_units_wf(old(units)@),
        old(units)@.len() <= 1000000,
    ensures
        final(units)@.len() == old(units)@.len(),
        forall|i: int| 0 <= i < old(units)@.len()
            ==> #[trigger] final(units)@[i] == spec_after_ability(old(units)@, i),
{
    let ghost u0 = units@;
    let n: usize = units.len();
    let mut j: usize = 0;
    while j < n
        invariant
            spec_units_wf(u0),
            n == u0.len(),
            n <= 1000000,
            units@.len() == n,
            j <= n,
            forall|k: int| 0 <= k < n ==> #[trigger] units@[k] == (BattleUnit {
                stats: (UnitStats { health: units@[k].stats.health, ..u0[k].stats }),
                ..u0[k]
            }),
            forall|k: int| j <= k < n
                ==> (#[trigger] units@[k]).stats.health == u0[k].stats.health,
            forall|k: int| 0 <= k < j
                ==> (#[trigger] units@[k]).stats.health == spec_meteor_health(u0, k),
        decreases n - j,
    {
        let me: BattleUnit = units[j];
        let mut count: usize = 0;
        let mut c: usize = 0;
        while c < n
            invariant
                n == u0.len(),
                units@.len() == n,
                c <= n,
                count <= c,
                forall|k: int| 0 <= k < n ==> (#[trigger] units@[k]).stats.mana
                    == u0[k].stats.mana && units@[k].stats.max_mana == u0[k].stats.max_mana
                    && units@[k].unit_type == u0[k].unit_type
                    && units@[k].team == u0[k].team,
                me.team == u0[j as int].team,
                j < n,
                count == spec_enemy_purple_casters(u0, u0[j as int].team, c as int),
            decreases n - c,
        {
            let cand: BattleUnit = units[c];
            let is_purple: bool = matches!(cand.unit_type.0, TileType::Purple);
            let is_enemy: bool = !(matches!(cand.team, Team::Player)
                == matches!(me.team, Team::Player));
            if cand.stats.mana >= cand.stats.max_mana && is_purple && is_enemy {
                proof {
                    assert(spec_caster(u0[c as int])
                        && u0[c as int].unit_type.0 == TileType::Purple
                        && u0[c as int].team != u0[j as int].team);
                }
                count = count + 1;
            } else {
                proof {
                    assert(!(spec_caster(u0[c as int])
                        && u0[c as int].unit_type.0 == TileType::Purple
                        && u0[c as int].team != u0[j as int].team));
                }
            }
            c = c + 1;
        }
        let capped: u32 = if me.stats.defense < 8000 { me.stats.defense } else { 8000 };
        let reduced: u32 = crate::fixed::apply_fraction_bp(1500, 10000 - capped);
        let d: u32 = if reduced > 100 { reduced } else { 100 };
        proof {
            assert(count as int * d as int <= 1000000 * 1500) by (nonlinear_arith)
                requires
                    count <= 1000000 && d <= 1500,
            {
            }
        }
        let wide: u64 = (count as u64) * (d as u64);
        let mut u: BattleUnit = units[j];
        u.stats.health = if (u.stats.health as u64) > wide {
            u.stats.health - wide as u32
        } else {
            0
        };
        units.set(j, u);
        j = j + 1;
    }
    let ghost u1 = units@;
    let mut j: usize = 0;
    while j < n
        invariant
            spec_units_wf(u0),
            n == u0.len(),
            n == u1.len(),
            units@.len() == n,
            j <= n,
            forall|k: int| 0 <= k < n ==> #[trigger] u1[k] == (BattleUnit {
                stats: (UnitStats { health: (spec_meteor_health(u0, k)) as u32, ..u0[k].stats }),
                ..u0[k]
            }),
            forall|k: int| j <= k < n ==> #[trigger] units@[k] == u1[k],
            forall|k: int| 0 <= k < j
                ==> #[trigger] units@[k] == spec_after_ability(u0, k),
        decreases n - j,
    {
        let mut u: BattleUnit = units[j];
        if u.stats.mana >= u.stats.max_mana {
            proof {
                assert(spec_caster(u0[j as int]));
                assert(u0[j as int].wf());
            }
            proof {
                lemma_epc_nonneg(u0, u0[j as int].team, n as int);
                assert(0 <= spec_meteor_health(u0, j as int)
                    <= u0[j as int].stats.health);
            }
            match u.unit_type.0 {
                TileType::Red => {
                    u.rage = Some(RageBuff::new());
                },
                TileType::Green => {
                    u.snipe = Some(SnipeBuff::new());
                },
                TileType::Yellow => {
                    u.stealth = Some(StealthBuff::new());
                },
                TileType::Blue => {
                    let amount: u32 = u.stats.max_health / 5;
                    u.stats.heal(amount);
                },
                TileType::Purple => {},
            }
            u.stats.mana = 0;
            units.set(j, u);
            proof {
                assert(units@[j as int] == spec_after_ability(u0, j as int));
            }
        } else {
            proof {
                assert(!spec_caster(u0[j as int]));
                assert(units@[j as int] == spec_after_ability(u0, j as int));
            }
        }
        j = j + 1;
    }
}

} // verus!
