//! The event vocabulary between the puzzle board and the battle, and the
//! handlers that turn matches into summons, merges, orbs and mana.

use vstd::prelude::*;
use crate::puzzle::tile::TileType;
use crate::puzzle::tile::ObstacleType;
use crate::fixed::mul_div;
use crate::battle::unit::BattleUnit;
use crate::battle::unit::Team;
use crate::battle::unit::UnitStats;
use crate::battle::unit::STAT_LIMIT;
use crate::battle::unit::spec_final_damage;
use crate::battle::unit::UnitType;
use crate::battle::hex_grid::BattleGrid;
use crate::battle::combat::spec_grid_coherent;
use crate::battle::hex_grid::HexPosition;
use crate::battle::hex_grid::spec_player_half;
use crate::battle::hex_grid::spec_player_scan_rank;
use crate::battle::synergy::spec_capped;

verus! {

/// A cleared match: its tile color, size and board cells.
#[derive(Clone, Debug)]
pub struct MatchEvent {
    pub tile_type: TileType,
    pub count: usize,
    pub positions: Vec<(usize, usize)>,
}

/// Request to summon one player unit of the given archetype and rank.
#[derive(Clone, Copy, PartialEq, Eq, Structural, Debug)]
pub struct UnitSummonEvent {
    pub unit_type: TileType,
    pub star_rank: u8,
}

/// Mana granted to every player unit, in hundredths.
#[derive(Clone, Copy, PartialEq, Eq, Structural, Debug)]
pub struct ManaSupplyEvent {
    pub amount: u32,
}

/// A match adjacent to the board core, which powers a core ability.
#[derive(Clone, Debug)]
pub struct CoreAbilityEvent {
    pub tile_type: TileType,
    pub count: usize,
    pub positions: Vec<(usize, usize)>,
}

#[derive(Clone, Copy, PartialEq, Eq, Structural, Debug)]
pub enum SkillOrbType {
    Buff,
    Meteor,
    Heal,
}

/// A skill orb earned by a large match.
#[derive(Clone, Copy, PartialEq, Eq, Structural, Debug)]
pub struct SkillOrbEvent {
    pub orb_type: SkillOrbType,
}

/// Request toward the puzzle board to place an obstacle.
#[derive(Clone, Copy, Debug)]
pub struct ObstacleSpawnEvent {
    pub position: (usize, usize),
    pub obstacle_type: ObstacleType,
    pub countdown: Option<u8>,
}


/// The summon a match earns: rank two for matches of five or more tiles,
/// else rank one, of the match's own color.
pub fn match_to_summon(event: &MatchEvent) -> (out: (UnitSummonEvent, Option<SkillOrbEvent>))
    ensures
        out.0.unit_type == event.tile_type,
        out.0.star_rank == if event.count >= 5 { 2int } else { 1int },
        out.1 == if event.count >= 4 {
            Some(SkillOrbEvent { orb_type: spec_orb_for(event.tile_type) })
        } else {
            None
        },
{
    let star_rank: u8 = if event.count >= 5 { 2 } else { 1 };
    let summon = UnitSummonEvent { unit_type: event.tile_type, star_rank };
    let orb: Option<SkillOrbEvent> = if event.count >= 4 {
        let orb_type: SkillOrbType = match event.tile_type {
            TileType::Red => SkillOrbType::Meteor,
            TileType::Blue => SkillOrbType::Buff,
            TileType::Green => SkillOrbType::Heal,
            TileType::Yellow => SkillOrbType::Buff,
            TileType::Purple => SkillOrbType::Meteor,
        };
        Some(SkillOrbEvent { orb_type })
    } else {
        None
    };
    (summon, orb)
}

/// The orb color a large match of each tile type grants.
pub open spec fn spec_orb_for(t: TileType) -> SkillOrbType {
    match t {
        TileType::Red => SkillOrbType::Meteor,
        TileType::Blue => SkillOrbType::Buff,
        TileType::Green => SkillOrbType::Heal,
        TileType::Yellow => SkillOrbType::Buff,
        TileType::Purple => SkillOrbType::Meteor,
    }
}

/// Applies a skill orb to the field: Buff scales every player unit's live
/// attack by 1.2 (capped at the stat bound); Heal restores 30% of each
/// player unit's maximum health; Meteor deals 50 points to every enemy
/// through its defense.
pub fn handle_skill_orb(units: &mut Vec<BattleUnit>, orb_type: SkillOrbType)
    requires
        crate::battle::combat::spec_units_wf(old(units)@),
    ensures
        final(units)@.len() == old(units)@.len(),
        forall|i: int| 0 <= i < old(units)@.len() ==> #[trigger] final(units)@[i]
            == (BattleUnit { stats: final(units)@[i].stats, ..old(units)@[i] }),
        forall|i: int| 0 <= i < old(units)@.len() ==> (#[trigger] final(units)@[i]).stats
            == match orb_type {
                SkillOrbType::Buff => if old(units)@[i].team == Team::Player {
                    (UnitStats {
                        attack: spec_capped(old(units)@[i].stats.attack * 120 / 100) as u32,
                        ..old(units)@[i].stats
                    })
                } else {
                    old(units)@[i].stats
                },
                SkillOrbType::Heal => if old(units)@[i].team == Team::Player {
                    (UnitStats {
                        health: (if old(units)@[i].stats.health
                                + old(units)@[i].stats.max_health * 3 / 10
                                <= old(units)@[i].stats.max_health {
                            old(units)@[i].stats.health
                                + old(units)@[i].stats.max_health * 3 / 10
                        } else {
                            old(units)@[i].stats.max_health as int
                        }) as u32,
                        ..old(units)@[i].stats
                    })
                } else {
                    old(units)@[i].stats
                },
                SkillOrbType::Meteor => if old(units)@[i].team == Team::Enemy {
                    (UnitStats {
                        health: (if old(units)@[i].stats.health
                                > spec_final_damage(5000, old(units)@[i].stats.defense as int) {
                            old(units)@[i].stats.health
                                - spec_final_damage(5000, old(units)@[i].stats.defense as int)
                        } else {
                            0int
                        }) as u32,
                        ..old(units)@[i].stats
                    })
                } else {
                    old(units)@[i].stats
                },
            },
{
    let ghost u0 = units@;
    let n: usize = units.len();
    let mut i: usize = 0;
    while i < n
        invariant
            crate::battle::combat::spec_units_wf(u0),
            n == u0.len(),
            units@.len() == n,
            i <= n,
            forall|k: int| i <= k < n ==> #[trigger] units@[k] == u0[k],
            forall|k: int| 0 <= k < i ==> #[trigger] units@[k]
                == (BattleUnit { stats: units@[k].stats, ..u0[k] }),
            forall|k: int| 0 <= k < i ==> (#[trigger] units@[k]).stats
                == match orb_type {
                    SkillOrbType::Buff => if u0[k].team == Team::Player {
                        (UnitStats {
                            attack: spec_capped(u0[k].stats.attack * 120 / 100) as u32,
                            ..u0[k].stats
                        })
                    } else {
                        u0[k].stats
                    },
                    SkillOrbType::Heal => if u0[k].team == Team::Player {
                        (UnitStats {
                            health: (if u0[k].stats.health + u0[k].stats.max_health * 3 / 10
                                    <= u0[k].stats.max_health {
                                u0[k].stats.health + u0[k].stats.max_health * 3 / 10
                            } else {
                                u0[k].stats.max_health as int
                            }) as u32,
                            ..u0[k].stats
                        })
                    } else {
                        u0[k].stats
                    },
                    SkillOrbType::Meteor => if u0[k].team == Team::Enemy {
                        (UnitStats {
                            health: (if u0[k].stats.health
                                    > spec_final_damage(5000, u0[k].stats.defense as int) {
                                u0[k].stats.health
                                    - spec_final_damage(5000, u0[k].stats.defense as int)
                            } else {
                                0int
                            }) as u32,
                            ..u0[k].stats
                        })
                    } else {
                        u0[k].stats
                    },
                },
        decreases n - i,
    {
        let mut u: BattleUnit = units[i];
        proof {
            assert(u0[i as int].wf());
        }
        match orb_type {
            SkillOrbType::Buff => {
                if matches!(u.team, Team::Player) {
                    let a: u32 = mul_div(u.stats.attack, 120, 100);
                    u.stats.attack = if a > STAT_LIMIT { STAT_LIMIT } else { a };
                    units.set(i, u);
                }
            },
            SkillOrbType::Heal => {
                if matches!(u.team, Team::Player) {
                    let heal: u32 = mul_div(u.stats.max_health, 3, 10);
                    u.stats.heal(heal);
                    units.set(i, u);
                }
            },
            SkillOrbType::Meteor => {
                if matches!(u.team, Team::Enemy) {
                    u.stats.take_damage(5000);
                    units.set(i, u);
                }
            },
        }
        i = i + 1;
    }
}

/// Grants mana to every player unit, clamped to each unit's bar.
pub fn handle_mana_supply(units: &mut Vec<BattleUnit>, amount: u32)
    ensures
        final(units)@.len() == old(units)@.len(),
        forall|i: int| 0 <= i < old(units)@.len() ==> #[trigger] final(units)@[i]
            == if old(units)@[i].team == Team::Player {
                (BattleUnit {
                    stats: (UnitStats {
                        mana: (if old(units)@[i].stats.mana + amount
                                <= old(units)@[i].stats.max_mana {
                            old(units)@[i].stats.mana + amount
                        } else {
                            old(units)@[i].stats.max_mana as int
                        }) as u32,
                        ..old(units)@[i].stats
                    }),
                    ..old(units)@[i]
                })
            } else {
                old(units)@[i]
            },
{
    let ghost u0 = units@;
    let n: usize = units.len();
    let mut i: usize = 0;
    while i < n
        invariant
            n == u0.len(),
            units@.len() == n,
            i <= n,
            forall|k: int| i <= k < n ==> #[trigger] units@[k] == u0[k],
            forall|k: int| 0 <= k < i ==> #[trigger] units@[k]
                == if u0[k].team == Team::Player {
                    (BattleUnit {
                        stats: (UnitStats {
                            mana: (if u0[k].stats.mana + amount <= u0[k].stats.max_mana {
                                u0[k].stats.mana + amount
                            } else {
                                u0[k].stats.max_mana as int
                            }) as u32,
                            ..u0[k].stats
                        }),
                        ..u0[k]
                    })
                } else {
                    u0[k]
                },
        decreases n - i,
    {
        let mut u: BattleUnit = units[i];
        if matches!(u.team, Team::Player) {
            u.stats.gain_mana(amount);
            units.set(i, u);
        }
        i = i + 1;
    }
}

/// A board bomb went off: every player unit loses the flat damage (in whole
/// points), with no defense applied; health floors at zero.
pub fn handle_bomb_damage(units: &mut Vec<BattleUnit>, damage: u32)
    requires
        damage <= 10000000,
    ensures
        final(units)@.len() == old(units)@.len(),
        forall|i: int| 0 <= i < old(units)@.len() ==> #[trigger] final(units)@[i]
            == if old(units)@[i].team == Team::Player {
                (BattleUnit {
                    stats: (UnitStats {
                        health: (if old(units)@[i].stats.health > damage * 100 {
                            old(units)@[i].stats.health - damage * 100
                        } else {
                            0int
                        }) as u32,
                        ..old(units)@[i].stats
                    }),
                    ..old(units)@[i]
                })
            } else {
                old(units)@[i]
            },
{
    let ghost u0 = units@;
    let n: usize = units.len();
    let mut i: usize = 0;
    while i < n
        invariant
            damage <= 10000000,
            n == u0.len(),
            units@.len() == n,
            i <= n,
            forall|k: int| i <= k < n ==> #[trigger] units@[k] == u0[k],
            forall|k: int| 0 <= k < i ==> #[trigger] units@[k]
                == if u0[k].team == Team::Player {
                    (BattleUnit {
                        stats: (UnitStats {
                            health: (if u0[k].stats.health > damage * 100 {
                                u0[k].stats.health - damage * 100
                            } else {
                                0int
                            }) as u32,
                            ..u0[k].stats
                        }),
                        ..u0[k]
                    })
                } else {
                    u0[k]
                },
        decreases n - i,
    {
        let mut u: BattleUnit = units[i];
        if matches!(u.team, Team::Player) {
            let amount: u32 = damage * 100;
            u.stats.health = if u.stats.health > amount { u.stats.health - amount } else { 0 };
            units.set(i, u);
        }
        i = i + 1;
    }
}


/// Removes the unit at index `idx` from the field and clears its cell.
fn remove_unit_at(grid: &mut BattleGrid, units: &mut Vec<BattleUnit>, idx: usize)
    requires
        spec_grid_coherent(*old(grid), old(units)@),
        idx < old(units)@.len(),
    ensures
        spec_grid_coherent(*final(grid), final(units)@),
        final(units)@ == old(units)@.remove(idx as int),
        final(grid).spec_at(old(units)@[idx as int].pos.q as int,
            old(units)@[idx as int].pos.r as int) is None,
        forall|q: int, r: int| !(q == old(units)@[idx as int].pos.q as int
            && r == old(units)@[idx as int].pos.r as int)
            ==> final(grid).spec_at(q, r) == old(grid).spec_at(q, r),
{
    let ghost u0 = units@;
    let ghost g0 = *grid;
    let victim: BattleUnit = units[idx];
    proof {
        assert forall|k: int| 0 <= k < u0.len() && k != idx as int
            implies u0[k].pos != victim.pos by {
            crate::battle::combat::lemma_coherent_distinct_pos(g0, u0, k, idx as int);
        }
    }
    let removed = grid.remove_unit(&victim.pos);
    units.remove(idx);
    proof {
        assert(removed == Some(victim.id));
        assert(units@ == u0.remove(idx as int));
        assert forall|i: int| 0 <= i < units@.len()
            implies grid.spec_at((#[trigger] units@[i]).pos.q as int, units@[i].pos.r as int)
                == Some(units@[i].id) by {
            if i < idx as int {
                assert(units@[i] == u0[i]);
            } else {
                assert(units@[i] == u0[i + 1]);
            }
        }
        assert forall|q: int, r: int| #[trigger] grid.spec_at(q, r) is Some
            implies exists|i: int| 0 <= i < units@.len()
                && (#[trigger] units@[i].pos).q as int == q && units@[i].pos.r as int == r by {
            assert(g0.spec_at(q, r) is Some);
            let i = choose|i: int| 0 <= i < u0.len()
                && (#[trigger] u0[i].pos).q as int == q && u0[i].pos.r as int == r;
            assert(i != idx as int);
            if i < idx as int {
                assert(units@[i] == u0[i]);
                assert((units@[i].pos).q as int == q && units@[i].pos.r as int == r);
            } else {
                assert(units@[i - 1] == u0[i]);
                assert((units@[i - 1].pos).q as int == q && units@[i - 1].pos.r as int == r);
            }
        }
        assert(crate::battle::combat::spec_unique_ids(units@)) by {
            assert forall|a: int, b: int| 0 <= a < b < units@.len()
                implies units@[a].id != units@[b].id by {
                let oa: int = if a < idx as int { a } else { a + 1 };
                let ob: int = if b < idx as int { b } else { b + 1 };
                assert(units@[a] == u0[oa] && units@[b] == u0[ob]);
            }
        }
        assert(crate::battle::combat::spec_positions_valid(units@)) by {
            assert forall|i: int| 0 <= i < units@.len()
                implies crate::battle::hex_grid::spec_valid_position(
                    (#[trigger] units@[i]).pos.q as int, units@[i].pos.r as int) by {
                let oi: int = if i < idx as int { i } else { i + 1 };
                assert(units@[i] == u0[oi]);
            }
        }
    }
}

/// The two units a summon of archetype `t` would merge, scanned as a
/// stable sort by star rank orders them: the earliest unit of the lowest
/// rank first, then the earliest unit of the lowest remaining rank.
pub open spec fn spec_merge_pick(units: Seq<BattleUnit>, t: TileType, upto: int)
    -> (Option<int>, Option<int>)
    decreases upto,
{
    if upto <= 0 {
        (None, None)
    } else {
        let prev = spec_merge_pick(units, t, upto - 1);
        let i = upto - 1;
        if units[i].team == Team::Player && units[i].unit_type == (UnitType(t)) {
            match prev {
                (Option::<int>::None, _) => (Some(i), None),
                (Option::<int>::Some(a), Option::<int>::None) => {
                    if units[i].star_rank.0 < units[a].star_rank.0 {
                        (Some(i), Some(a))
                    } else {
                        (Some(a), Some(i))
                    }
                },
                (Option::<int>::Some(a), Option::<int>::Some(b)) => {
                    if units[i].star_rank.0 < units[a].star_rank.0 {
                        (Some(i), Some(a))
                    } else if units[i].star_rank.0 < units[b].star_rank.0 {
                        (Some(a), Some(i))
                    } else {
                        (Some(a), Some(b))
                    }
                },
            }
        } else {
            prev
        }
    }
}

/// A summon of archetype `t` merges exactly when the two lowest-rank player
/// units of that archetype share a star rank below three.
pub open spec fn spec_should_merge(units: Seq<BattleUnit>, t: TileType) -> bool {
    let pick = spec_merge_pick(units, t, units.len() as int);
    &&& pick.0 is Some
    &&& pick.1 is Some
    &&& units[pick.0->Some_0].star_rank == units[pick.1->Some_0].star_rank
    &&& units[pick.0->Some_0].star_rank.0 < 3
}

/// Whether cell `(q, r)` is free once the cells `p1` and `p2` are vacated.
pub open spec fn spec_free_after(
    grid: BattleGrid,
    p1: HexPosition,
    p2: HexPosition,
    q: int,
    r: int,
) -> bool {
    ||| grid.spec_at(q, r) is None
    ||| (q == p1.q as int && r == p1.r as int)
    ||| (q == p2.q as int && r == p2.r as int)
}

/// What a summon does, stated against the field before it: a merge removes
/// exactly the two picked units and places one unit of the next rank at the
/// first row-major free cell of the player half (counting the vacated
/// cells as free); otherwise a new unit of the event's rank lands at the
/// first free player cell; a full player half drops the placement.
pub open spec fn spec_summon_outcome(
    g0: BattleGrid,
    u0: Seq<BattleUnit>,
    u1: Seq<BattleUnit>,
    id0: u64,
    id1: u64,
    event: UnitSummonEvent,
) -> bool {
    let t = event.unit_type;
    let pick = spec_merge_pick(u0, t, u0.len() as int);
    if spec_should_merge(u0, t) {
        let a = pick.0->Some_0;
        let b = pick.1->Some_0;
        let lo = if a < b { a } else { b };
        let hi = if a < b { b } else { a };
        let remaining = u0.remove(hi).remove(lo);
        let pa = u0[a].pos;
        let pb = u0[b].pos;
        if exists|q: int, r: int| #[trigger] spec_player_half(q, r)
            && spec_free_after(g0, pa, pb, q, r) {
            &&& u1.len() == remaining.len() + 1
            &&& (forall|i: int| 0 <= i < remaining.len() ==> #[trigger] u1[i] == remaining[i])
            &&& u1.last().id == id0
            &&& u1.last().team == Team::Player
            &&& u1.last().unit_type == (UnitType(t))
            &&& u1.last().star_rank.0 == u0[a].star_rank.0 + 1
            &&& u1.last().wf()
            &&& !u1.last().spec_dead()
            &&& spec_player_half(u1.last().pos.q as int, u1.last().pos.r as int)
            &&& spec_free_after(g0, pa, pb, u1.last().pos.q as int, u1.last().pos.r as int)
            &&& (forall|q: int, r: int| spec_player_half(q, r)
                && spec_player_scan_rank(q, r) < spec_player_scan_rank(
                    u1.last().pos.q as int, u1.last().pos.r as int)
                ==> !(#[trigger] spec_free_after(g0, pa, pb, q, r)))
            &&& id1 == id0 + 1
        } else {
            u1 == remaining && id1 == id0
        }
    } else {
        if exists|q: int, r: int| #[trigger] spec_player_half(q, r)
            && g0.spec_at(q, r) is None {
            &&& u1.len() == u0.len() + 1
            &&& (forall|i: int| 0 <= i < u0.len() ==> #[trigger] u1[i] == u0[i])
            &&& u1.last().id == id0
            &&& u1.last().team == Team::Player
            &&& u1.last().unit_type == (UnitType(t))
            &&& u1.last().star_rank.0 == event.star_rank
            &&& u1.last().wf()
            &&& !u1.last().spec_dead()
            &&& spec_player_half(u1.last().pos.q as int, u1.last().pos.r as int)
            &&& g0.spec_at(u1.last().pos.q as int, u1.last().pos.r as int) is None
            &&& (forall|q: int, r: int| spec_player_half(q, r)
                && spec_player_scan_rank(q, r) < spec_player_scan_rank(
                    u1.last().pos.q as int, u1.last().pos.r as int)
                ==> #[trigger] g0.spec_at(q, r) is Some)
            &&& id1 == id0 + 1
        } else {
            u1 == u0 && id1 == id0
        }
    }
}

/// How a spec-level pick pair reads back from the scan's running state.
pub open spec fn spec_opt_index(o: Option<usize>) -> Option<int> {
    match o {
        Some(x) => Some(x as int),
        None => None,
    }
}

/// Places a new player unit of the event's archetype and rank at the first
/// free player cell; a full player half drops the summon.
#[verifier::rlimit(60)]
fn summon_spawn(
    grid: &mut BattleGrid,
    units: &mut Vec<BattleUnit>,
    next_id: &mut u64,
    event: &UnitSummonEvent,
)
    requires
        spec_grid_coherent(*old(grid), old(units)@),
        forall|i: int| 0 <= i < old(units)@.len()
            ==> (#[trigger] old(units)@[i]).id < *old(next_id),
        *old(next_id) < u64::MAX,
    ensures
        spec_grid_coherent(*final(grid), final(units)@),
        forall|i: int| 0 <= i < final(units)@.len()
            ==> (#[trigger] final(units)@[i]).id < *final(next_id),
        if exists|q: int, r: int| #[trigger] spec_player_half(q, r)
            && old(grid).spec_at(q, r) is None {
            &&& final(units)@.len() == old(units)@.len() + 1
            &&& (forall|i: int| 0 <= i < old(units)@.len()
                ==> #[trigger] final(units)@[i] == old(units)@[i])
            &&& final(units)@.last().id == *old(next_id)
            &&& final(units)@.last().team == Team::Player
            &&& final(units)@.last().unit_type == (UnitType(event.unit_type))
            &&& final(units)@.last().star_rank.0 == event.star_rank
            &&& final(units)@.last().wf()
            &&& !final(units)@.last().spec_dead()
            &&& spec_player_half(final(units)@.last().pos.q as int,
                final(units)@.last().pos.r as int)
            &&& old(grid).spec_at(final(units)@.last().pos.q as int,
                final(units)@.last().pos.r as int) is None
            &&& (forall|q: int, r: int| spec_player_half(q, r)
                && spec_player_scan_rank(q, r) < spec_player_scan_rank(
                    final(units)@.last().pos.q as int, final(units)@.last().pos.r as int)
                ==> #[trigger] old(grid).spec_at(q, r) is Some)
            &&& *final(next_id) == *old(next_id) + 1
        } else {
            final(units)@ == old(units)@ && *final(next_id) == *old(next_id)
                && *final(grid) == *old(grid)
        },
{
    match grid.find_empty_position() {
        Some(pos) => {
            crate::battle::wave::spawn_unit_at(
                grid, units, next_id, event.unit_type, event.star_rank, pos, Team::Player);
        },
        None => {},
    }
}

/// Merges the two picked units into one of the next rank at the first
/// player cell free once their own cells are vacated; a full player half
/// drops the merged unit.
#[verifier::rlimit(90)]
fn summon_merge(
    grid: &mut BattleGrid,
    units: &mut Vec<BattleUnit>,
    next_id: &mut u64,
    event: &UnitSummonEvent,
    a: usize,
    b: usize,
)
    requires
        spec_grid_coherent(*old(grid), old(units)@),
        forall|i: int| 0 <= i < old(units)@.len()
            ==> (#[trigger] old(units)@[i]).id < *old(next_id),
        *old(next_id) < u64::MAX,
        a < old(units)@.len(),
        b < old(units)@.len(),
        a != b,
        old(units)@[a as int].star_rank == old(units)@[b as int].star_rank,
        old(units)@[a as int].star_rank.0 < 3,
    ensures
        spec_grid_coherent(*final(grid), final(units)@),
        forall|i: int| 0 <= i < final(units)@.len()
            ==> (#[trigger] final(units)@[i]).id < *final(next_id),
        ({
            let lo: int = if a < b { a as int } else { b as int };
            let hi: int = if a < b { b as int } else { a as int };
            let remaining = old(units)@.remove(hi).remove(lo);
            let pa = old(units)@[a as int].pos;
            let pb = old(units)@[b as int].pos;
            if exists|q: int, r: int| #[trigger] spec_player_half(q, r)
                && spec_free_after(*old(grid), pa, pb, q, r) {
                &&& final(units)@.len() == remaining.len() + 1
                &&& (forall|i: int| 0 <= i < remaining.len()
                    ==> #[trigger] final(units)@[i] == remaining[i])
                &&& final(units)@.last().id == *old(next_id)
                &&& final(units)@.last().team == Team::Player
                &&& final(units)@.last().unit_type == (UnitType(event.unit_type))
                &&& final(units)@.last().star_rank.0
                    == old(units)@[a as int].star_rank.0 + 1
                &&& final(units)@.last().wf()
                &&& !final(units)@.last().spec_dead()
                &&& spec_player_half(final(units)@.last().pos.q as int,
                    final(units)@.last().pos.r as int)
                &&& spec_free_after(*old(grid), pa, pb,
                    final(units)@.last().pos.q as int, final(units)@.last().pos.r as int)
                &&& (forall|q: int, r: int| spec_player_half(q, r)
                    && spec_player_scan_rank(q, r) < spec_player_scan_rank(
                        final(units)@.last().pos.q as int, final(units)@.last().pos.r as int)
                    ==> !(#[trigger] spec_free_after(*old(grid), pa, pb, q, r)))
                &&& *final(next_id) == *old(next_id) + 1
            } else {
                final(units)@ == remaining && *final(next_id) == *old(next_id)
            }
        }),
{
    let ghost g0 = *grid;
    let ghost u0 = units@;
    let rank: u8 = units[a].star_rank.0;
    let hi: usize = if a > b { a } else { b };
    let lo: usize = if a > b { b } else { a };
    let ghost pa = u0[a as int].pos;
    let ghost pb = u0[b as int].pos;
    remove_unit_at(grid, units, hi);
    let ghost g1 = *grid;
    remove_unit_at(grid, units, lo);
    proof {
        assert(units@ == u0.remove(hi as int).remove(lo as int));
        assert(u0.remove(hi as int)[lo as int] == u0[lo as int]);
        assert forall|q: int, r: int| #[trigger] grid.spec_at(q, r) is None
            implies spec_free_after(g0, pa, pb, q, r) by {
            if !(q == pa.q as int && r == pa.r as int)
                && !(q == pb.q as int && r == pb.r as int) {
                assert(grid.spec_at(q, r) == g0.spec_at(q, r));
            }
        }
        assert forall|q: int, r: int| spec_free_after(g0, pa, pb, q, r)
            implies #[trigger] grid.spec_at(q, r) is None by {
            if q == pa.q as int && r == pa.r as int {
                if a == lo {
                    assert(grid.spec_at(q, r) is None);
                } else {
                    assert(g1.spec_at(q, r) is None);
                    assert(grid.spec_at(q, r) is None);
                }
            } else if q == pb.q as int && r == pb.r as int {
                if b == lo {
                    assert(grid.spec_at(q, r) is None);
                } else {
                    assert(g1.spec_at(q, r) is None);
                    assert(grid.spec_at(q, r) is None);
                }
            } else {
                assert(grid.spec_at(q, r) == g0.spec_at(q, r));
            }
        }
    }
    match grid.find_empty_position() {
        Some(pos) => {
            crate::battle::wave::spawn_unit_at(
                grid, units, next_id, event.unit_type, rank + 1, pos, Team::Player);
        },
        None => {
            proof {
                assert forall|q: int, r: int| spec_player_half(q, r)
                    implies !(#[trigger] spec_free_after(g0, pa, pb, q, r)) by {
                    assert(grid.spec_at(q, r) is Some);
                }
            }
        },
    }
}

/// Handles a summon: if two player units of the summoned archetype share
/// its lowest fielded rank below three, exactly those two (the first two in
/// lowest-rank order) merge into one unit of the next rank at the first
/// free player cell, counting the vacated cells; otherwise a new unit of
/// the event's rank appears at the first free player cell. A full player
/// half drops the placement silently.
#[verifier::rlimit(80)]
pub fn summon_unit(
    grid: &mut BattleGrid,
    units: &mut Vec<BattleUnit>,
    next_id: &mut u64,
    event: &UnitSummonEvent,
)
    requires
        spec_grid_coherent(*old(grid), old(units)@),
        forall|i: int| 0 <= i < old(units)@.len()
            ==> (#[trigger] old(units)@[i]).id < *old(next_id),
        *old(next_id) < u64::MAX,
    ensures
        spec_grid_coherent(*final(grid), final(units)@),
        forall|i: int| 0 <= i < final(units)@.len()
            ==> (#[trigger] final(units)@[i]).id < *final(next_id),
        spec_summon_outcome(
            *old(grid), old(units)@, final(units)@, *old(next_id), *final(next_id), *event),
{
    let ghost u0 = units@;
    let ghost t = event.unit_type;
    let mut first: Option<usize> = None;
    let mut second: Option<usize> = None;
    let mut i: usize = 0;
    while i < units.len()
        invariant
            u0 == units@,
            t == event.unit_type,
            i <= u0.len(),
            (spec_opt_index(first), spec_opt_index(second))
                == spec_merge_pick(u0, t, i as int),
            match first {
                Some(a) => a < i,
                None => true,
            },
            match second {
                Some(b) => b < i && first is Some && first->Some_0 != b,
                None => true,
            },
        decreases u0.len() - i,
    {
        let u = &units[i];
        let same_type: bool = matches!(u.team, Team::Player)
            && u.unit_type.0 == event.unit_type;
        if same_type {
            proof {
                assert(u0[i as int].team == Team::Player
                    && u0[i as int].unit_type == (UnitType(t)));
            }
            let rank: u8 = u.star_rank.0;
            match first {
                None => {
                    first = Some(i);
                },
                Some(a) => {
                    let first_rank: u8 = units[a].star_rank.0;
                    if rank < first_rank {
                        first = Some(i);
                        second = Some(a);
                    } else {
                        match second {
                            None => {
                                second = Some(i);
                            },
                            Some(b) => {
                                let second_rank: u8 = units[b].star_rank.0;
                                if rank < second_rank {
                                    second = Some(i);
                                }
                            },
                        }
                    }
                },
            }
        } else {
            proof {
                assert(!(u0[i as int].team == Team::Player
                    && u0[i as int].unit_type == (UnitType(t))));
            }
        }
        proof {
            assert((spec_opt_index(first), spec_opt_index(second))
                == spec_merge_pick(u0, t, i as int + 1));
        }
        i = i + 1;
    }
    match (first, second) {
        (Some(a), Some(b)) => {
            let rank_a: u8 = units[a].star_rank.0;
            let rank_b: u8 = units[b].star_rank.0;
            if rank_a == rank_b && rank_a < 3 {
                proof {
                    assert(spec_should_merge(u0, t));
                }
                summon_merge(grid, units, next_id, event, a, b);
                return;
            }
            proof {
                assert(!spec_should_merge(u0, t));
            }
            summon_spawn(grid, units, next_id, event);
        },
        _ => {
            proof {
                assert(!spec_should_merge(u0, t));
            }
            summon_spawn(grid, units, next_id, event);
        },
    }
}

} // verus!
