//! Team synergies: counting live player units per archetype, mapping counts
//! to tiers, and reapplying the tier bonuses to live stats from the base
//! stats each tick, so bonuses never compound across ticks.

use vstd::prelude::*;
use crate::fixed::mul_div;
use crate::puzzle::tile::TileType;
use crate::puzzle::tile::spec_tile_index;
use crate::battle::unit::BattleUnit;
use crate::battle::unit::Team;
use crate::battle::unit::UnitStats;
use crate::battle::unit::UnitType;
use crate::battle::unit::STAT_LIMIT;
use crate::battle::combat::spec_units_wf;

verus! {

#[derive(Clone, Copy, PartialEq, Eq, Structural, Debug)]
pub enum SynergyLevel {
    Inactive,
    Bronze,
    Silver,
    Gold,
}

/// The tier a per-archetype unit count unlocks.
pub open spec fn spec_level_for_count(count: int) -> SynergyLevel {
    if count <= 1 {
        SynergyLevel::Inactive
    } else if count <= 3 {
        SynergyLevel::Bronze
    } else if count <= 5 {
        SynergyLevel::Silver
    } else {
        SynergyLevel::Gold
    }
}

/// Tier multiplier expressed in thirds of the 15% step: 1.15 is three
/// thirds over one, 1.30 six, 1.50 ten. Multiplying percentages by
/// `(300 + rate * step3) / 300` keeps every tier bonus exact.
pub open spec fn spec_step3(level: SynergyLevel) -> int {
    match level {
        SynergyLevel::Inactive => 0,
        SynergyLevel::Bronze => 3,
        SynergyLevel::Silver => 6,
        SynergyLevel::Gold => 10,
    }
}

impl SynergyLevel {
    pub fn from_count(count: usize) -> (l: SynergyLevel)
        ensures
            l == spec_level_for_count(count as int),
    {
        if count <= 1 {
            SynergyLevel::Inactive
        } else if count <= 3 {
            SynergyLevel::Bronze
        } else if count <= 5 {
            SynergyLevel::Silver
        } else {
            SynergyLevel::Gold
        }
    }

    /// The tier multiplier in percent: 100, 115, 130, 150.
    pub fn bonus_multiplier(&self) -> (m: u32)
        ensures
            m == 100 + 5 * spec_step3(*self),
    {
        match self {
            SynergyLevel::Inactive => 100,
            SynergyLevel::Bronze => 115,
            SynergyLevel::Silver => 130,
            SynergyLevel::Gold => 150,
        }
    }
}

/// Number of live player units of archetype `t`.
pub open spec fn spec_player_type_count(units: Seq<BattleUnit>, t: TileType, upto: int) -> int
    decreases upto,
{
    if upto <= 0 {
        0
    } else {
        spec_player_type_count(units, t, upto - 1)
            + if units[upto - 1].team == Team::Player
                && units[upto - 1].unit_type == (UnitType(t)) { 1int } else { 0int }
    }
}

/// The tier the current player roster earns for archetype `t`.
pub open spec fn spec_synergy_level(units: Seq<BattleUnit>, t: TileType) -> SynergyLevel {
    spec_level_for_count(spec_player_type_count(units, t, units.len() as int))
}

/// The active tier of each archetype, indexed by tile order.
#[derive(Clone, Debug)]
pub struct ActiveSynergies {
    pub bonuses: Vec<SynergyLevel>,
}

impl ActiveSynergies {
    pub open spec fn wf(self) -> bool {
        self.bonuses@.len() == 5
    }

    pub open spec fn spec_level(self, t: TileType) -> SynergyLevel {
        self.bonuses@[spec_tile_index(t)]
    }

    pub fn get_level(&self, tile_type: TileType) -> (l: SynergyLevel)
        requires
            self.wf(),
        ensures
            l == self.spec_level(tile_type),
    {
        self.bonuses[tile_type.index()]
    }
}

/// Recomputes the synergy tier of every archetype from the live player
/// roster; a pure function of the per-archetype counts.
pub fn update_synergies(units: &Vec<BattleUnit>) -> (s: ActiveSynergies)
    ensures
        s.wf(),
        forall|t: TileType| #[trigger] s.spec_level(t) == spec_synergy_level(units@, t),
{
    let mut bonuses: Vec<SynergyLevel> = Vec::new();
    let mut idx: usize = 0;
    while idx < 5
        invariant
            idx <= 5,
            bonuses@.len() == idx,
            forall|t: TileType| spec_tile_index(t) < idx
                ==> #[trigger] bonuses@[spec_tile_index(t)] == spec_synergy_level(units@, t),
        decreases 5 - idx,
    {
        let t: TileType = TileType::from_index(idx as u32);
        let mut count: usize = 0;
        let mut i: usize = 0;
        while i < units.len()
            invariant
                i <= units@.len(),
                count <= i,
                count == spec_player_type_count(units@, t, i as int),
            decreases units@.len() - i,
        {
            let u = &units[i];
            if matches!(u.team, Team::Player) && u.unit_type.0.index() == t.index() {
                proof {
                    assert(units@[i as int].unit_type == (UnitType(t)));
                }
                count = count + 1;
            } else {
                proof {
                    assert(!(units@[i as int].team == Team::Player
                        && units@[i as int].unit_type == (UnitType(t))));
                }
            }
            i = i + 1;
        }
        bonuses.push(SynergyLevel::from_count(count));
        proof {
            assert(bonuses@[idx as int] == spec_synergy_level(units@, t));
            assert(spec_tile_index(t) == idx as int);
        }
        idx = idx + 1;
    }
    ActiveSynergies { bonuses }
}

/// The synergy tiers are a pure function of the per-archetype player
/// counts: rosters with equal counts earn equal tiers, so recomputing with
/// no unit change yields the same assignment.
pub proof fn lemma_synergies_pure(a: Seq<BattleUnit>, b: Seq<BattleUnit>)
    requires
        forall|t: TileType| spec_player_type_count(a, t, a.len() as int)
            == spec_player_type_count(b, t, b.len() as int),
    ensures
        forall|t: TileType| #[trigger] spec_synergy_level(a, t) == spec_synergy_level(b, t),
{
}

/// Mana-regeneration multiplier of a tier, in percent.
pub open spec fn spec_regen_percent(level: SynergyLevel) -> int {
    match level {
        SynergyLevel::Inactive => 100,
        SynergyLevel::Bronze => 120,
        SynergyLevel::Silver => 140,
        SynergyLevel::Gold => 160,
    }
}

/// A derived stat capped at the stat bound.
pub open spec fn spec_capped(x: int) -> int {
    if x > STAT_LIMIT { STAT_LIMIT as int } else { x }
}

/// The live stats a player unit carries under a synergy tier, derived
/// afresh from its base stats: each archetype scales its own stats by the
/// tier step, health and mana carry over (health clamped to the new
/// maximum), and everything else reverts to base.
pub open spec fn spec_synergized(base: UnitStats, live: UnitStats, t: TileType, level: SynergyLevel)
    -> UnitStats {
    let st3 = spec_step3(level);
    let derived = match t {
        TileType::Red => UnitStats {
            attack: spec_capped(base.attack * (300 + 20 * st3) / 300) as u32,
            max_health: spec_capped(base.max_health * (300 + 10 * st3) / 300) as u32,
            ..base
        },
        TileType::Blue => UnitStats {
            max_health: spec_capped(base.max_health * (300 + 30 * st3) / 300) as u32,
            defense: spec_capped(base.defense + 50 * st3) as u32,
            ..base
        },
        TileType::Green => UnitStats {
            attack_range: (if base.attack_range + st3 / 3 > 1000 {
                1000
            } else {
                base.attack_range + st3 / 3
            }) as i32,
            attack_speed: spec_capped(base.attack_speed * (300 + 15 * st3) / 300) as u32,
            ..base
        },
        TileType::Yellow => UnitStats {
            attack: spec_capped(base.attack * (300 + 30 * st3) / 300) as u32,
            crit_chance: (if base.crit_chance + 1000 * (st3 / 3) > 10000 {
                10000
            } else {
                base.crit_chance + 1000 * (st3 / 3)
            }) as u32,
            ..base
        },
        TileType::Purple => UnitStats {
            ability_power: spec_capped(base.ability_power * (300 + 25 * st3) / 300) as u32,
            mana_regen: spec_capped(base.mana_regen * spec_regen_percent(level) / 100) as u32,
            ..base
        },
    };
    UnitStats {
        health: if live.health > derived.max_health { derived.max_health } else { live.health },
        mana: if live.mana > derived.max_mana { derived.max_mana } else { live.mana },
        ..derived
    }
}

/// Derives one scaled stat: `base * (den + rate * step3) / den`, capped.
fn scaled_bonus(base: u32, rate: u32, st3: u32, den: u32) -> (r: u32)
    requires
        base <= STAT_LIMIT,
        st3 <= 10,
        rate <= 30,
        den == 300 || den == 100,
        rate * st3 <= den,
    ensures
        r == spec_capped(base as int * (den + rate * st3) / den as int),
{
    let num: u32 = den + rate * st3;
    proof {
        assert(base as int * num as int <= u32::MAX as int * den as int) by (nonlinear_arith)
            requires
                base <= STAT_LIMIT && num <= 2 * den && den >= 100,
        {
        }
    }
    let v: u32 = mul_div(base, num, den);
    if v > STAT_LIMIT { STAT_LIMIT } else { v }
}

/// Reapplies every player unit's synergy bonuses from its base stats for
/// the tiers in `synergies`; enemies are untouched. Health and mana carry
/// over, clamped to the (possibly raised) maxima.
pub fn apply_synergy_bonuses(synergies: &ActiveSynergies, units: &mut Vec<BattleUnit>)
    requires
        synergies.wf(),
        spec_units_wf(old(units)@),
    ensures
        final(units)@.len() == old(units)@.len(),
        forall|i: int| 0 <= i < old(units)@.len() ==> #[trigger] final(units)@[i]
            == if old(units)@[i].team == Team::Player {
                (BattleUnit {
                    stats: spec_synergized(
                        old(units)@[i].base,
                        old(units)@[i].stats,
                        old(units)@[i].unit_type.0,
                        synergies.spec_level(old(units)@[i].unit_type.0),
                    ),
                    ..old(units)@[i]
                })
            } else {
                old(units)@[i]
            },
{
    let ghost u0 = units@;
    let n: usize = units.len();
    let mut i: usize = 0;
    while i < n
        invariant
            synergies.wf(),
            spec_units_wf(u0),
            n == u0.len(),
            units@.len() == n,
            i <= n,
            forall|k: int| i <= k < n ==> #[trigger] units@[k] == u0[k],
            forall|k: int| 0 <= k < i ==> #[trigger] units@[k]
                == if u0[k].team == Team::Player {
                    (BattleUnit {
                        stats: spec_synergized(
                            u0[k].base,
                            u0[k].stats,
                            u0[k].unit_type.0,
                            synergies.spec_level(u0[k].unit_type.0),
                        ),
                        ..u0[k]
                    })
                } else {
                    u0[k]
                },
        decreases n - i,
    {
        let mut u: BattleUnit = units[i];
        if matches!(u.team, Team::Player) {
            proof {
                assert(u0[i as int].wf());
            }
            let level: SynergyLevel = synergies.get_level(u.unit_type.0);
            let st3: u32 = match level {
                SynergyLevel::Inactive => 0,
                SynergyLevel::Bronze => 3,
                SynergyLevel::Silver => 6,
                SynergyLevel::Gold => 10,
            };
            let base: UnitStats = u.base;
            let mut derived: UnitStats = base;
            match u.unit_type.0 {
                TileType::Red => {
                    derived.attack = scaled_bonus(base.attack, 20, st3, 300);
                    derived.max_health = scaled_bonus(base.max_health, 10, st3, 300);
                },
                TileType::Blue => {
                    derived.max_health = scaled_bonus(base.max_health, 30, st3, 300);
                    let d: u32 = base.defense + 50 * st3;
                    derived.defense = if d > STAT_LIMIT { STAT_LIMIT } else { d };
                },
                TileType::Green => {
                    let range: i32 = base.attack_range + (st3 / 3) as i32;
                    derived.attack_range = if range > 1000 { 1000 } else { range };
                    derived.attack_speed = scaled_bonus(base.attack_speed, 15, st3, 300);
                },
                TileType::Yellow => {
                    derived.attack = scaled_bonus(base.attack, 30, st3, 300);
                    let c: u32 = base.crit_chance + 1000 * (st3 / 3);
                    derived.crit_chance = if c > 10000 { 10000 } else { c };
                },
                TileType::Purple => {
                    derived.ability_power = scaled_bonus(base.ability_power, 25, st3, 300);
                    let rp: u32 = match level {
                        SynergyLevel::Inactive => 100,
                        SynergyLevel::Bronze => 120,
                        SynergyLevel::Silver => 140,
                        SynergyLevel::Gold => 160,
                    };
                    let mr: u32 = mul_div(base.mana_regen, rp, 100);
                    derived.mana_regen = if mr > STAT_LIMIT { STAT_LIMIT } else { mr };
                },
            }
            derived.health = if u.stats.health > derived.max_health {
                derived.max_health
            } else {
                u.stats.health
            };
            derived.mana = if u.stats.mana > derived.max_mana {
                derived.max_mana
            } else {
                u.stats.mana
            };
            u.stats = derived;
            units.set(i, u);
        }
        i = i + 1;
    }
}

} // verus!
