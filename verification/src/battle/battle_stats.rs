//! End-of-match reporting: damage and kill aggregates per archetype, the
//! most dangerous enemy, the MVP ally, match and combo counters.

use vstd::prelude::*;
use crate::puzzle::tile::TileType;
use crate::puzzle::tile::spec_tile_index;

verus! {

/// The enemy archetype that has dealt the most damage so far.
#[derive(Clone, Copy, PartialEq, Eq, Structural, Debug, Default)]
pub struct EnemyDamageRecord {
    pub unit_type: Option<TileType>,
    /// Total damage dealt, in hundredths.
    pub total_damage: u64,
}

/// The best-scoring ally archetype so far.
#[derive(Clone, Copy, PartialEq, Eq, Structural, Debug, Default)]
pub struct AllyPerformanceRecord {
    pub unit_type: Option<TileType>,
    pub kills: u32,
    /// Total damage dealt, in hundredths.
    pub damage_dealt: u64,
}

/// MVP score of an ally record: each kill is worth one hundred full points
/// on top of the damage dealt (both in hundredths here).
pub open spec fn spec_mvp_score(kills: int, damage: int) -> int {
    kills * 10000 + damage
}

/// The largest MVP score among the first `upto` archetypes.
pub open spec fn spec_max_score(perf: Seq<(u32, u64)>, upto: int) -> int
    decreases upto,
{
    if upto <= 0 {
        0
    } else {
        let prev = spec_max_score(perf, upto - 1);
        let here = spec_mvp_score(perf[upto - 1].0 as int, perf[upto - 1].1 as int);
        if here > prev { here } else { prev }
    }
}

/// Running battle statistics, aggregated per archetype.
#[derive(Clone, Debug)]
pub struct BattleStats {
    pub most_dangerous_enemy: EnemyDamageRecord,
    pub mvp_ally: AllyPerformanceRecord,
    pub total_matches: u32,
    pub max_combo: u32,
    pub current_combo: u32,
    pub enemy_damage: Vec<u64>,
    pub ally_performance: Vec<(u32, u64)>,
}

impl BattleStats {
    /// One damage bucket and one performance bucket per archetype.
    pub open spec fn wf(self) -> bool {
        self.enemy_damage@.len() == 5 && self.ally_performance@.len() == 5
    }

    /// Damage dealt so far by enemies of archetype `t`, in hundredths.
    pub open spec fn spec_enemy_damage(self, t: TileType) -> int {
        self.enemy_damage@[spec_tile_index(t)] as int
    }

    /// Kills and damage recorded so far for allies of archetype `t`.
    pub open spec fn spec_ally_performance(self, t: TileType) -> (int, int) {
        (
            self.ally_performance@[spec_tile_index(t)].0 as int,
            self.ally_performance@[spec_tile_index(t)].1 as int,
        )
    }

    /// The largest ally score on record.
    pub open spec fn spec_best_score(self) -> int {
        spec_max_score(self.ally_performance@, 5)
    }

    pub fn new() -> (s: BattleStats)
        ensures
            s.wf(),
            forall|t: TileType| #[trigger] s.spec_enemy_damage(t) == 0,
            forall|t: TileType| #[trigger] s.spec_ally_performance(t) == (0int, 0int),
            s.most_dangerous_enemy == (EnemyDamageRecord { unit_type: None, total_damage: 0 }),
            s.mvp_ally == (AllyPerformanceRecord { unit_type: None, kills: 0, damage_dealt: 0 }),
            s.total_matches == 0,
            s.max_combo == 0,
    {
        let mut enemy_damage: Vec<u64> = Vec::new();
        let mut ally_performance: Vec<(u32, u64)> = Vec::new();
        let mut i: usize = 0;
        while i < 5
            invariant
                i <= 5,
                enemy_damage@.len() == i,
                ally_performance@.len() == i,
                forall|k: int| 0 <= k < i ==> #[trigger] enemy_damage@[k] == 0,
                forall|k: int| 0 <= k < i ==> #[trigger] ally_performance@[k] == (0u32, 0u64),
            decreases 5 - i,
        {
            enemy_damage.push(0);
            ally_performance.push((0, 0));
            i = i + 1;
        }
        BattleStats {
            most_dangerous_enemy: EnemyDamageRecord { unit_type: None, total_damage: 0 },
            mvp_ally: AllyPerformanceRecord { unit_type: None, kills: 0, damage_dealt: 0 },
            total_matches: 0,
            max_combo: 0,
            current_combo: 0,
            enemy_damage,
            ally_performance,
        }
    }

    /// Books damage dealt by an enemy archetype; the most-dangerous record
    /// follows whichever archetype leads in total damage.
    pub fn record_enemy_damage(&mut self, unit_type: TileType, damage: u32)
        requires
            old(self).wf(),
            old(self).spec_enemy_damage(unit_type) + damage <= u64::MAX,
        ensures
            final(self).wf(),
            final(self).spec_enemy_damage(unit_type)
                == old(self).spec_enemy_damage(unit_type) + damage,
            forall|t: TileType| t != unit_type ==> #[trigger] final(self).spec_enemy_damage(t)
                == old(self).spec_enemy_damage(t),
            final(self).most_dangerous_enemy == if old(self).spec_enemy_damage(unit_type) + damage
                    > old(self).most_dangerous_enemy.total_damage {
                EnemyDamageRecord {
                    unit_type: Some(unit_type),
                    total_damage: (old(self).spec_enemy_damage(unit_type) + damage) as u64,
                }
            } else {
                old(self).most_dangerous_enemy
            },
            final(self).mvp_ally == old(self).mvp_ally,
            final(self).total_matches == old(self).total_matches,
            final(self).max_combo == old(self).max_combo,
    {
        let idx: usize = unit_type.index();
        let total: u64 = self.enemy_damage[idx] + damage as u64;
        self.enemy_damage.set(idx, total);
        proof {
            assert forall|t: TileType| t != unit_type
                implies #[trigger] self.spec_enemy_damage(t)
                    == old(self).spec_enemy_damage(t) by {
                assert(spec_tile_index(t) != spec_tile_index(unit_type));
            }
        }
        if total > self.most_dangerous_enemy.total_damage {
            self.most_dangerous_enemy = EnemyDamageRecord {
                unit_type: Some(unit_type),
                total_damage: total,
            };
        }
    }

    /// Recomputes the MVP from the per-archetype records: the first
    /// archetype reaching the highest positive score.
    fn update_mvp(&mut self)
        requires
            old(self).wf(),
        ensures
            final(self).wf(),
            *final(self) == (BattleStats { mvp_ally: final(self).mvp_ally, ..*old(self) }),
            old(self).spec_best_score() > 0 ==> {
                &&& final(self).mvp_ally.unit_type is Some
                &&& spec_mvp_score(final(self).mvp_ally.kills as int,
                    final(self).mvp_ally.damage_dealt as int) == old(self).spec_best_score()
                &&& exists|t: TileType| final(self).mvp_ally.unit_type == Some(t)
                    && (final(self).mvp_ally.kills as int,
                        final(self).mvp_ally.damage_dealt as int)
                        == #[trigger] old(self).spec_ally_performance(t)
            },
            old(self).spec_best_score() == 0 ==> final(self).mvp_ally == old(self).mvp_ally,
    {
        let mut best_score: u128 = 0;
        let mut best: Option<(TileType, u32, u64)> = None;
        let mut i: usize = 0;
        while i < 5
            invariant
                self.wf(),
                *self == *old(self),
                i <= 5,
                best_score == if spec_max_score(self.ally_performance@, i as int) > 0 {
                    spec_max_score(self.ally_performance@, i as int)
                } else {
                    0int
                },
                match best {
                    Some(b) => best_score > 0
                        && spec_mvp_score(b.1 as int, b.2 as int) == best_score
                        && spec_tile_index(b.0) < 5
                        && (b.1 as int, b.2 as int) == self.spec_ally_performance(b.0),
                    None => best_score == 0,
                },
            decreases 5 - i,
        {
            let (kills, damage): (u32, u64) = self.ally_performance[i];
            let score: u128 = kills as u128 * 10000 + damage as u128;
            if score > best_score {
                best_score = score;
                let t: TileType = TileType::from_index(i as u32);
                proof {
                    assert(spec_tile_index(t) == i as int);
                }
                best = Some((t, kills, damage));
            }
            i = i + 1;
        }
        match best {
            Some((t, kills, damage)) => {
                self.mvp_ally = AllyPerformanceRecord {
                    unit_type: Some(t),
                    kills,
                    damage_dealt: damage,
                };
            },
            None => {},
        }
    }

    /// Books a kill (with the damage of the killing blow) for an ally
    /// archetype and refreshes the MVP.
    pub fn record_ally_kill(&mut self, unit_type: TileType, damage: u32)
        requires
            old(self).wf(),
            old(self).spec_ally_performance(unit_type).0 + 1 <= u32::MAX,
            old(self).spec_ally_performance(unit_type).1 + damage <= u64::MAX,
        ensures
            final(self).wf(),
            final(self).spec_ally_performance(unit_type)
                == (old(self).spec_ally_performance(unit_type).0 + 1,
                    old(self).spec_ally_performance(unit_type).1 + damage),
            forall|t: TileType| t != unit_type ==> #[trigger] final(self).spec_ally_performance(t)
                == old(self).spec_ally_performance(t),
            final(self).spec_best_score() > 0 ==> final(self).mvp_ally.unit_type is Some
                && spec_mvp_score(final(self).mvp_ally.kills as int,
                    final(self).mvp_ally.damage_dealt as int) == final(self).spec_best_score()
                && (exists|t: TileType| final(self).mvp_ally.unit_type == Some(t)
                    && (final(self).mvp_ally.kills as int,
                        final(self).mvp_ally.damage_dealt as int)
                        == #[trigger] final(self).spec_ally_performance(t)),
            final(self).most_dangerous_enemy == old(self).most_dangerous_enemy,
            final(self).total_matches == old(self).total_matches,
            final(self).max_combo == old(self).max_combo,
    {
        let idx: usize = unit_type.index();
        let (kills, dmg): (u32, u64) = self.ally_performance[idx];
        self.ally_performance.set(idx, (kills + 1, dmg + damage as u64));
        proof {
            assert forall|t: TileType| t != unit_type
                implies #[trigger] self.spec_ally_performance(t)
                    == old(self).spec_ally_performance(t) by {
                assert(spec_tile_index(t) != spec_tile_index(unit_type));
            }
        }
        let ghost mid = *self;
        self.update_mvp();
        proof {
            if mid.spec_best_score() > 0 {
                let t = choose|t: TileType| self.mvp_ally.unit_type == Some(t)
                    && (self.mvp_ally.kills as int, self.mvp_ally.damage_dealt as int)
                        == #[trigger] mid.spec_ally_performance(t);
                assert(self.spec_ally_performance(t) == mid.spec_ally_performance(t));
            }
        }
    }

    /// Books damage (no kill) for an ally archetype and refreshes the MVP.
    pub fn record_ally_damage(&mut self, unit_type: TileType, damage: u32)
        requires
            old(self).wf(),
            old(self).spec_ally_performance(unit_type).1 + damage <= u64::MAX,
        ensures
            final(self).wf(),
            final(self).spec_ally_performance(unit_type)
                == (old(self).spec_ally_performance(unit_type).0,
                    old(self).spec_ally_performance(unit_type).1 + damage),
            forall|t: TileType| t != unit_type ==> #[trigger] final(self).spec_ally_performance(t)
                == old(self).spec_ally_performance(t),
            final(self).spec_best_score() > 0 ==> final(self).mvp_ally.unit_type is Some
                && spec_mvp_score(final(self).mvp_ally.kills as int,
                    final(self).mvp_ally.damage_dealt as int) == final(self).spec_best_score()
                && (exists|t: TileType| final(self).mvp_ally.unit_type == Some(t)
                    && (final(self).mvp_ally.kills as int,
                        final(self).mvp_ally.damage_dealt as int)
                        == #[trigger] final(self).spec_ally_performance(t)),
            final(self).most_dangerous_enemy == old(self).most_dangerous_enemy,
            final(self).total_matches == old(self).total_matches,
            final(self).max_combo == old(self).max_combo,
    {
        let idx: usize = unit_type.index();
        let (kills, dmg): (u32, u64) = self.ally_performance[idx];
        self.ally_performance.set(idx, (kills, dmg + damage as u64));
        proof {
            assert forall|t: TileType| t != unit_type
                implies #[trigger] self.spec_ally_performance(t)
                    == old(self).spec_ally_performance(t) by {
                assert(spec_tile_index(t) != spec_tile_index(unit_type));
            }
        }
        let ghost mid = *self;
        self.update_mvp();
        proof {
            if mid.spec_best_score() > 0 {
                let t = choose|t: TileType| self.mvp_ally.unit_type == Some(t)
                    && (self.mvp_ally.kills as int, self.mvp_ally.damage_dealt as int)
                        == #[trigger] mid.spec_ally_performance(t);
                assert(self.spec_ally_performance(t) == mid.spec_ally_performance(t));
            }
        }
    }

    /// Books one puzzle match.
    pub fn record_match(&mut self)
        requires
            old(self).wf(),
            old(self).total_matches < u32::MAX,
        ensures
            final(self).wf(),
            final(self).total_matches == old(self).total_matches + 1,
            *final(self) == (BattleStats { total_matches: final(self).total_matches, ..*old(self) }),
    {
        self.total_matches = self.total_matches + 1;
    }

    /// Tracks the running combo and its maximum.
    pub fn update_combo(&mut self, combo: u32)
        requires
            old(self).wf(),
        ensures
            final(self).wf(),
            final(self).max_combo == if combo > old(self).max_combo {
                combo
            } else {
                old(self).max_combo
            },
    {
        self.current_combo = combo;
        if combo > self.max_combo {
            self.max_combo = combo;
        }
    }

    /// Starts a fresh match's statistics.
    pub fn reset(&mut self)
        ensures
            final(self).wf(),
            forall|t: TileType| #[trigger] final(self).spec_enemy_damage(t) == 0,
            forall|t: TileType| #[trigger] final(self).spec_ally_performance(t) == (0int, 0int),
            final(self).total_matches == 0,
            final(self).max_combo == 0,
    {
        *self = BattleStats::new();
    }


    /// The bucket credited when an enemy falls with no single killer: the
    /// first archetype, in tile order, with the highest damage total among
    /// those with anything on record; `None` when nothing is recorded.
    pub open spec fn spec_top_ally(perf: Seq<(u32, u64)>, upto: int) -> Option<int>
        decreases upto,
    {
        if upto <= 0 {
            None
        } else {
            let prev = Self::spec_top_ally(perf, upto - 1);
            let i = upto - 1;
            if perf[i] == (0u32, 0u64) {
                prev
            } else {
                match prev {
                    Some(p) => if perf[i].1 > perf[p].1 { Some(i) } else { Some(p) },
                    None => Some(i),
                }
            }
        }
    }

    /// Credits the kill of a fallen enemy to the archetype that has dealt
    /// the most ally damage so far (first in tile order on ties); with
    /// nothing on record the kill goes uncredited.
    pub fn record_kill_for_top_ally(&mut self)
        requires
            old(self).wf(),
            forall|t: TileType| (#[trigger] old(self).spec_ally_performance(t)).0
                < u32::MAX,
        ensures
            final(self).wf(),
            match BattleStats::spec_top_ally(old(self).ally_performance@, 5) {
                Some(idx) => {
                    &&& final(self).ally_performance@ == old(self).ally_performance@
                        .update(idx, (
                            (old(self).ally_performance@[idx].0 + 1) as u32,
                            old(self).ally_performance@[idx].1,
                        ))
                    &&& (final(self).spec_best_score() > 0
                        ==> final(self).mvp_ally.unit_type is Some
                            && spec_mvp_score(final(self).mvp_ally.kills as int,
                                final(self).mvp_ally.damage_dealt as int)
                                == final(self).spec_best_score())
                },
                None => *final(self) == *old(self),
            },
            final(self).most_dangerous_enemy == old(self).most_dangerous_enemy,
            final(self).total_matches == old(self).total_matches,
            final(self).max_combo == old(self).max_combo,
    {
        let ghost perf0 = self.ally_performance@;
        let mut top: Option<usize> = None;
        let mut i: usize = 0;
        while i < 5
            invariant
                self.wf(),
                *self == *old(self),
                perf0 == self.ally_performance@,
                i <= 5,
                match top {
                    Some(p) => (p as int) < i
                        && BattleStats::spec_top_ally(perf0, i as int) == Some(p as int),
                    None => BattleStats::spec_top_ally(perf0, i as int) is None,
                },
            decreases 5 - i,
        {
            let (kills, damage): (u32, u64) = self.ally_performance[i];
            if !(kills == 0 && damage == 0) {
                match top {
                    Some(p) => {
                        let (_pk, pd): (u32, u64) = self.ally_performance[p];
                        if damage > pd {
                            top = Some(i);
                        }
                    },
                    None => {
                        top = Some(i);
                    },
                }
            }
            i = i + 1;
        }
        match top {
            Some(idx) => {
                let (kills, damage): (u32, u64) = self.ally_performance[idx];
                proof {
                    assert(old(self).spec_ally_performance(
                        crate::puzzle::tile::TileType::Red).0 < u32::MAX);
                    assert(old(self).spec_ally_performance(
                        crate::puzzle::tile::TileType::Blue).0 < u32::MAX);
                    assert(old(self).spec_ally_performance(
                        crate::puzzle::tile::TileType::Green).0 < u32::MAX);
                    assert(old(self).spec_ally_performance(
                        crate::puzzle::tile::TileType::Yellow).0 < u32::MAX);
                    assert(old(self).spec_ally_performance(
                        crate::puzzle::tile::TileType::Purple).0 < u32::MAX);
                }
                self.ally_performance.set(idx, (kills + 1, damage));
                self.update_mvp();
            },
            None => {},
        }
    }

    /// Display name of an archetype.
    pub fn unit_type_name(unit_type: Option<TileType>) -> (name: &'static str)
        ensures
            unit_type == Some(TileType::Red) ==> name@ == "Warrior"@,
            unit_type == Some(TileType::Blue) ==> name@ == "Tank"@,
            unit_type == Some(TileType::Green) ==> name@ == "Ranger"@,
            unit_type == Some(TileType::Yellow) ==> name@ == "Assassin"@,
            unit_type == Some(TileType::Purple) ==> name@ == "Mage"@,
            unit_type is None ==> name@ == "None"@,
    {
        match unit_type {
            Some(TileType::Red) => "Warrior",
            Some(TileType::Blue) => "Tank",
            Some(TileType::Green) => "Ranger",
            Some(TileType::Yellow) => "Assassin",
            Some(TileType::Purple) => "Mage",
            None => "None",
        }
    }
}

impl Default for BattleStats {
    /// Fresh statistics, everything at zero.
    fn default() -> (s: BattleStats)
        ensures
            s.wf(),
            forall|t: TileType| #[trigger] s.spec_enemy_damage(t) == 0,
            forall|t: TileType| #[trigger] s.spec_ally_performance(t) == (0int, 0int),
            s.total_matches == 0,
            s.max_combo == 0,
    {
        BattleStats::new()
    }
}

} // verus!
