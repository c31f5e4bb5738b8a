//! Per-unit combat state: the stat record with its archetype templates and
//! star-rank scaling, mana and damage mutation primitives, team and targeting
//! tags, and the three ability buffs (rage, snipe, stealth).
//!
//! Stat values are in hundredths of a point, durations in milliseconds and
//! probabilities in basis points (hundredths of a percent).

use vstd::prelude::*;
use crate::fixed::apply_fraction_bp;
use crate::fixed::mul_div;
use crate::puzzle::tile::TileType;
use crate::battle::hex_grid::HexPosition;

verus! {

/// Upper bound kept on every stat value; far above anything the stat
/// formulas can produce, low enough that scaled products fit a `u32`.
pub const STAT_LIMIT: u32 = 10000000;

/// Marker for a combat participant.
pub struct Unit;

/// The live stat record of one unit.
#[derive(Clone, Copy, PartialEq, Eq, Structural, Debug)]
pub struct UnitStats {
    pub health: u32,
    pub max_health: u32,
    pub attack: u32,
    pub attack_speed: u32,
    pub attack_range: i32,
    pub mana: u32,
    pub max_mana: u32,
    pub move_speed: u32,
    pub defense: u32,
    pub crit_chance: u32,
    pub ability_power: u32,
    pub mana_regen: u32,
}

/// Damage left after percentage defense: reduction is
/// `min(defense, 8000)` basis points, i.e. `min(defense/100, 0.8)` of the
/// raw amount, truncating.
pub open spec fn spec_damage_after_defense(amount: int, defense: int) -> int {
    amount * (10000 - if defense < 8000 { defense } else { 8000 }) / 10000
}

/// Damage actually applied: defense-reduced, floored at one full point
/// (100 hundredths).
pub open spec fn spec_final_damage(amount: int, defense: int) -> int {
    if spec_damage_after_defense(amount, defense) > 100 {
        spec_damage_after_defense(amount, defense)
    } else {
        100
    }
}

impl UnitStats {
    /// Every stat within the fixed bounds; health and mana never exceed
    /// their maxima.
    pub open spec fn wf(self) -> bool {
        &&& self.health <= self.max_health
        &&& self.max_health <= STAT_LIMIT
        &&& self.attack <= STAT_LIMIT
        &&& 0 < self.attack_speed <= STAT_LIMIT
        &&& 0 <= self.attack_range <= 1000
        &&& self.mana <= self.max_mana
        &&& self.max_mana <= STAT_LIMIT
        &&& self.move_speed <= STAT_LIMIT
        &&& self.defense <= STAT_LIMIT
        &&& self.crit_chance <= 10000
        &&& self.ability_power <= STAT_LIMIT
        &&& self.mana_regen <= STAT_LIMIT
    }

    /// Archetype stats scaled by star rank: rank 1 keeps the base, rank 2
    /// scales health and attack by 1.8, rank 3 by 3.0.
    pub fn for_type(tile_type: TileType, star_rank: u8) -> (s: UnitStats)
        ensures
            s.wf(),
            s.max_health == spec_base_health(tile_type) * spec_star_multiplier(star_rank) / 10,
            s.health == s.max_health,
            s.attack == spec_base_attack(tile_type) * spec_star_multiplier(star_rank) / 10,
            s.attack_speed == spec_base_attack_speed(tile_type),
            s.attack_range == spec_base_attack_range(tile_type),
            s.max_mana == spec_base_max_mana(tile_type),
            s.mana == 0,
            s.move_speed == 100,
            s.defense == 0,
            s.crit_chance == 0,
            s.ability_power == 0,
            s.mana_regen == 100,
    {
        let multiplier: u32 = match star_rank {
            1 => 10,
            2 => 18,
            3 => 30,
            _ => 10,
        };
        let (base_health, base_attack, base_speed, base_range, base_max_mana):
            (u32, u32, u32, i32, u32) = match tile_type {
            TileType::Red => (8000, 1500, 120, 1, 10000),
            TileType::Blue => (12000, 800, 80, 1, 10000),
            TileType::Green => (9000, 1200, 100, 3, 10000),
            TileType::Yellow => (7000, 1800, 150, 1, 10000),
            TileType::Purple => (10000, 1000, 100, 2, 8000),
        };
        proof {
            assert(base_health as int * multiplier as int <= u32::MAX as int * 10)
                by (nonlinear_arith)
                requires
                    base_health <= 12000 && multiplier <= 30,
            {
            }
            assert(base_attack as int * multiplier as int <= u32::MAX as int * 10)
                by (nonlinear_arith)
                requires
                    base_attack <= 1800 && multiplier <= 30,
            {
            }
        }
        let health: u32 = mul_div(base_health, multiplier, 10);
        let attack: u32 = mul_div(base_attack, multiplier, 10);
        UnitStats {
            health,
            max_health: health,
            attack,
            attack_speed: base_speed,
            attack_range: base_range,
            mana: 0,
            max_mana: base_max_mana,
            move_speed: 100,
            defense: 0,
            crit_chance: 0,
            ability_power: 0,
            mana_regen: 100,
        }
    }

    /// A unit is dead once its health is exhausted.
    pub fn is_dead(&self) -> (b: bool)
        ensures
            b == (self.health == 0),
    {
        self.health == 0
    }

    /// Applies `amount` of damage through percentage defense with the
    /// one-point floor; health never goes below zero.
    pub fn take_damage(&mut self, amount: u32)
        ensures
            final(self).health == if old(self).health as int
                    > spec_final_damage(amount as int, old(self).defense as int) {
                old(self).health - spec_final_damage(amount as int, old(self).defense as int)
            } else {
                0
            },
            *final(self) == (UnitStats { health: final(self).health, ..*old(self) }),
    {
        let capped: u32 = if self.defense < 8000 { self.defense } else { 8000 };
        let reduced: u32 = apply_fraction_bp(amount, 10000 - capped);
        let final_damage: u32 = if reduced > 100 { reduced } else { 100 };
        self.health = if self.health > final_damage { self.health - final_damage } else { 0 };
    }

    /// Same reduction rule under the name the resolver's callers use for
    /// percentage-based damage.
    pub fn take_calculated_damage(&mut self, amount: u32)
        ensures
            final(self).health == if old(self).health as int
                    > spec_final_damage(amount as int, old(self).defense as int) {
                old(self).health - spec_final_damage(amount as int, old(self).defense as int)
            } else {
                0
            },
            *final(self) == (UnitStats { health: final(self).health, ..*old(self) }),
    {
        self.take_damage(amount)
    }

    /// Gains mana, clamped to the maximum.
    pub fn gain_mana(&mut self, amount: u32)
        ensures
            final(self).mana == if old(self).mana as int + amount <= old(self).max_mana as int {
                old(self).mana + amount
            } else {
                old(self).max_mana as int
            },
            *final(self) == (UnitStats { mana: final(self).mana, ..*old(self) }),
    {
        let wide: u64 = self.mana as u64 + amount as u64;
        self.mana = if wide <= self.max_mana as u64 { wide as u32 } else { self.max_mana };
    }

    /// A unit casts exactly when its mana bar is full.
    pub fn can_cast(&self) -> (b: bool)
        ensures
            b == (self.mana >= self.max_mana),
    {
        self.mana >= self.max_mana
    }

    /// Heals by `amount`, clamped to the maximum.
    pub fn heal(&mut self, amount: u32)
        ensures
            final(self).health == if old(self).health as int + amount <= old(self).max_health as int {
                old(self).health + amount
            } else {
                old(self).max_health as int
            },
            *final(self) == (UnitStats { health: final(self).health, ..*old(self) }),
    {
        let wide: u64 = self.health as u64 + amount as u64;
        self.health = if wide <= self.max_health as u64 { wide as u32 } else { self.max_health };
    }
}

impl Default for UnitStats {
    /// The neutral template every archetype starts from.
    fn default() -> (s: UnitStats)
        ensures
            s.wf(),
            s.health == 10000 && s.max_health == 10000,
            s.attack == 1000,
            s.attack_speed == 100,
            s.attack_range == 1,
            s.mana == 0 && s.max_mana == 10000,
            s.move_speed == 100,
            s.defense == 0,
            s.crit_chance == 0,
            s.ability_power == 0,
            s.mana_regen == 100,
    {
        UnitStats {
            health: 10000,
            max_health: 10000,
            attack: 1000,
            attack_speed: 100,
            attack_range: 1,
            mana: 0,
            max_mana: 10000,
            move_speed: 100,
            defense: 0,
            crit_chance: 0,
            ability_power: 0,
            mana_regen: 100,
        }
    }
}

/// Base health of an archetype, in hundredths.
pub open spec fn spec_base_health(t: TileType) -> int {
    match t {
        TileType::Red => 8000,
        TileType::Blue => 12000,
        TileType::Green => 9000,
        TileType::Yellow => 7000,
        TileType::Purple => 10000,
    }
}

/// Base attack of an archetype, in hundredths.
pub open spec fn spec_base_attack(t: TileType) -> int {
    match t {
        TileType::Red => 1500,
        TileType::Blue => 800,
        TileType::Green => 1200,
        TileType::Yellow => 1800,
        TileType::Purple => 1000,
    }
}

/// Base attack speed of an archetype, in hundredths of attacks per second.
pub open spec fn spec_base_attack_speed(t: TileType) -> int {
    match t {
        TileType::Red => 120,
        TileType::Blue => 80,
        TileType::Green => 100,
        TileType::Yellow => 150,
        TileType::Purple => 100,
    }
}

/// Base attack range of an archetype, in hex cells.
pub open spec fn spec_base_attack_range(t: TileType) -> int {
    match t {
        TileType::Red => 1,
        TileType::Blue => 1,
        TileType::Green => 3,
        TileType::Yellow => 1,
        TileType::Purple => 2,
    }
}

/// Base mana bar of an archetype, in hundredths.
pub open spec fn spec_base_max_mana(t: TileType) -> int {
    match t {
        TileType::Purple => 8000,
        _ => 10000,
    }
}

/// Star-rank multiplier in tenths: 1.0, 1.8 and 3.0 for ranks one to
/// three; unknown ranks fall back to 1.0.
pub open spec fn spec_star_multiplier(rank: u8) -> int {
    if rank == 2 { 18 } else if rank == 3 { 30 } else { 10 }
}

/// Power tier of a unit, raised by merging.
#[derive(Clone, Copy, PartialEq, Eq, Structural, Debug)]
pub struct StarRank(pub u8);

/// The archetype tag of a unit, shared with the tile colors.
#[derive(Clone, Copy, PartialEq, Eq, Structural, Debug)]
pub struct UnitType(pub TileType);

#[derive(Clone, Copy, PartialEq, Eq, Structural, Debug)]
pub enum Team {
    Player,
    Enemy,
}

/// The unit currently aimed at, by id.
#[derive(Clone, Copy, PartialEq, Eq, Structural, Debug)]
pub struct Target(pub Option<u64>);

/// Milliseconds until the next attack is allowed.
#[derive(Clone, Copy, PartialEq, Eq, Structural, Debug)]
pub struct AttackCooldown(pub u32);

/// Rage (warrior ability): attack scaled by 1.2 while the timer runs.
#[derive(Clone, Copy, PartialEq, Eq, Structural, Debug)]
pub struct RageBuff {
    /// Remaining duration in milliseconds.
    pub remaining: u32,
}

impl RageBuff {
    /// Rage duration in milliseconds.
    pub const DURATION: u32 = 5000;

    /// Attack multiplier while raging, in percent.
    pub const ATTACK_MULTIPLIER: u32 = 120;

    pub fn new() -> (b: RageBuff)
        ensures
            b.remaining == 5000,
    {
        RageBuff { remaining: RageBuff::DURATION }
    }

    pub fn duration(&self) -> (d: u32)
        ensures
            d == 5000,
    {
        RageBuff::DURATION
    }

    pub fn remaining_time(&self) -> (t: u32)
        ensures
            t == self.remaining,
    {
        self.remaining
    }

    /// Counts the timer down by the elapsed milliseconds, stopping at zero.
    pub fn tick(&mut self, delta: u32)
        ensures
            final(self).remaining == if old(self).remaining > delta {
                old(self).remaining - delta
            } else {
                0
            },
    {
        self.remaining = if self.remaining > delta { self.remaining - delta } else { 0 };
    }

    pub fn is_expired(&self) -> (b: bool)
        ensures
            b == (self.remaining == 0),
    {
        self.remaining == 0
    }

    /// Attack scaled by the rage multiplier (1.2, truncating).
    pub fn apply_attack_modifier(&self, base_attack: u32) -> (r: u32)
        requires
            base_attack <= 30000000,
        ensures
            r == base_attack as int * 120 / 100,
    {
        mul_div(base_attack, RageBuff::ATTACK_MULTIPLIER, 100)
    }
}

impl Default for RageBuff {
    /// A freshly granted rage buff with its full duration.
    fn default() -> (b: RageBuff)
        ensures
            b.remaining == 5000,
    {
        RageBuff::new()
    }
}

/// Snipe (ranger ability): the next outgoing attack deals double damage and
/// consumes the buff; not time-based.
#[derive(Clone, Copy, PartialEq, Eq, Structural, Debug)]
pub struct SnipeBuff {
    pub consumed: bool,
}

impl SnipeBuff {
    /// Damage multiplier of the sniped attack, in percent.
    pub const DAMAGE_MULTIPLIER: u32 = 200;

    pub fn new() -> (b: SnipeBuff)
        ensures
            !b.consumed,
    {
        SnipeBuff { consumed: false }
    }

    pub fn is_consumed(&self) -> (b: bool)
        ensures
            b == self.consumed,
    {
        self.consumed
    }

    pub fn consume(&mut self)
        ensures
            final(self).consumed,
    {
        self.consumed = true;
    }

    /// Damage doubled by the snipe.
    pub fn apply_damage_modifier(&self, base_damage: u32) -> (r: u32)
        requires
            base_damage <= 30000000,
        ensures
            r == base_damage * 2,
    {
        base_damage * 2
    }
}

impl Default for SnipeBuff {
    /// A freshly granted, unconsumed snipe buff.
    fn default() -> (b: SnipeBuff)
        ensures
            !b.consumed,
    {
        SnipeBuff::new()
    }
}

/// Stealth (assassin ability): the unit cannot be targeted while the timer
/// runs.
#[derive(Clone, Copy, PartialEq, Eq, Structural, Debug)]
pub struct StealthBuff {
    /// Remaining duration in milliseconds.
    pub remaining: u32,
}

impl StealthBuff {
    /// Stealth duration in milliseconds.
    pub const DURATION: u32 = 3000;

    pub fn new() -> (b: StealthBuff)
        ensures
            b.remaining == 3000,
    {
        StealthBuff { remaining: StealthBuff::DURATION }
    }

    pub fn duration(&self) -> (d: u32)
        ensures
            d == 3000,
    {
        StealthBuff::DURATION
    }

    pub fn remaining_time(&self) -> (t: u32)
        ensures
            t == self.remaining,
    {
        self.remaining
    }

    /// Counts the timer down by the elapsed milliseconds, stopping at zero.
    pub fn tick(&mut self, delta: u32)
        ensures
            final(self).remaining == if old(self).remaining > delta {
                old(self).remaining - delta
            } else {
                0
            },
    {
        self.remaining = if self.remaining > delta { self.remaining - delta } else { 0 };
    }

    pub fn is_expired(&self) -> (b: bool)
        ensures
            b == (self.remaining == 0),
    {
        self.remaining == 0
    }

    pub fn is_active(&self) -> (b: bool)
        ensures
            b == (self.remaining > 0),
    {
        self.remaining > 0
    }

    /// A unit under active stealth cannot be chosen as a target.
    pub fn makes_untargetable(&self) -> (b: bool)
        ensures
            b == (self.remaining > 0),
    {
        self.is_active()
    }
}

impl Default for StealthBuff {
    /// A freshly granted stealth buff with its full duration.
    fn default() -> (b: StealthBuff)
        ensures
            b.remaining == 3000,
    {
        StealthBuff::new()
    }
}

/// Meteor (mage ability): a fixed amount dealt to every live enemy at once.
pub struct MeteorAbility;

impl MeteorAbility {
    /// Meteor damage per enemy, in hundredths.
    pub const DAMAGE: u32 = 1500;

    pub fn damage() -> (d: u32)
        ensures
            d == 1500,
    {
        MeteorAbility::DAMAGE
    }

    /// One damage entry per live enemy, all equal to the meteor amount.
    pub fn calculate_damages(enemy_count: usize) -> (ds: Vec<u32>)
        ensures
            ds@.len() == enemy_count,
            forall|i: int| 0 <= i < ds@.len() ==> ds@[i] == 1500,
    {
        let mut ds: Vec<u32> = Vec::new();
        let mut i: usize = 0;
        while i < enemy_count
            invariant
                i <= enemy_count,
                ds@.len() == i,
                forall|j: int| 0 <= j < i ==> ds@[j] == 1500,
            decreases enemy_count - i,
        {
            ds.push(MeteorAbility::DAMAGE);
            i = i + 1;
        }
        ds
    }
}

/// Marker for a unit's health bar display.
pub struct HealthBar;

/// Marker for the backdrop of a unit's health bar display.
pub struct HealthBarBackground;

/// One combat participant: identity, archetype, team, board position, its
/// base stats (per archetype and rank, before synergy bonuses), the live
/// stats the resolver reads, and any active buffs.
#[derive(Clone, Copy, PartialEq, Eq, Structural, Debug)]
pub struct BattleUnit {
    pub id: u64,
    pub unit_type: UnitType,
    pub star_rank: StarRank,
    pub team: Team,
    pub pos: HexPosition,
    pub base: UnitStats,
    pub stats: UnitStats,
    pub target: Target,
    pub cooldown: AttackCooldown,
    pub rage: Option<RageBuff>,
    pub snipe: Option<SnipeBuff>,
    pub stealth: Option<StealthBuff>,
}

impl BattleUnit {
    pub open spec fn wf(self) -> bool {
        self.base.wf() && self.stats.wf()
    }

    pub open spec fn spec_dead(self) -> bool {
        self.stats.health == 0
    }

    /// Under an active stealth buff, hence untargetable.
    pub open spec fn spec_stealthed(self) -> bool {
        match self.stealth {
            Some(s) => s.remaining > 0,
            None => false,
        }
    }

    /// Carrying an active rage buff.
    pub open spec fn spec_raging(self) -> bool {
        match self.rage {
            Some(r) => r.remaining > 0,
            None => false,
        }
    }

    /// Carrying an unconsumed snipe buff.
    pub open spec fn spec_sniping(self) -> bool {
        match self.snipe {
            Some(s) => !s.consumed,
            None => false,
        }
    }

    /// A fresh unit of the given archetype and rank on `pos`, with no
    /// target, no buffs, and its attack ready.
    pub fn spawn(id: u64, unit_type: TileType, star_rank: u8, team: Team, pos: HexPosition)
        -> (u: BattleUnit)
        ensures
            u.wf(),
            u.id == id,
            u.unit_type == (UnitType(unit_type)),
            u.star_rank == (StarRank(star_rank)),
            u.team == team,
            u.pos == pos,
            u.base == u.stats,
            u.stats.max_health == spec_base_health(unit_type) * spec_star_multiplier(star_rank) / 10,
            u.stats.health == u.stats.max_health,
            u.stats.attack == spec_base_attack(unit_type) * spec_star_multiplier(star_rank) / 10,
            u.stats.attack_speed == spec_base_attack_speed(unit_type),
            u.stats.attack_range == spec_base_attack_range(unit_type),
            u.stats.max_mana == spec_base_max_mana(unit_type),
            u.stats.mana == 0,
            u.stats.defense == 0,
            u.stats.crit_chance == 0,
            u.target == (Target(None)),
            u.cooldown == (AttackCooldown(0)),
            u.rage is None && u.snipe is None && u.stealth is None,
            !u.spec_dead(),
    {
        let stats = UnitStats::for_type(unit_type, star_rank);
        BattleUnit {
            id,
            unit_type: UnitType(unit_type),
            star_rank: StarRank(star_rank),
            team,
            pos,
            base: stats,
            stats,
            target: Target(None),
            cooldown: AttackCooldown(0),
            rage: None,
            snipe: None,
            stealth: None,
        }
    }
}

} // verus!
