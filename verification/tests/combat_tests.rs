//! Damage-formula and combat-unit tests. Stat values are in hundredths of a
//! point, durations in milliseconds, chances in basis points.

use puzzle_tactics::battle::DamageCalculator;
use puzzle_tactics::battle::UnitStats;
use puzzle_tactics::battle::RageBuff;
use puzzle_tactics::battle::SnipeBuff;
use puzzle_tactics::battle::StealthBuff;
use puzzle_tactics::battle::MeteorAbility;
use puzzle_tactics::puzzle::TileType;

#[test]
fn test_critical_hit_multiplier() {
    let crit_multiplier = DamageCalculator::crit_multiplier();
    assert_eq!(crit_multiplier, 150);
}

#[test]
fn test_critical_hit_damage() {
    let base_damage = 10000;
    let damage_with_crit = DamageCalculator::apply_crit(base_damage, true);
    let damage_without_crit = DamageCalculator::apply_crit(base_damage, false);
    assert_eq!(damage_with_crit, 15000);
    assert_eq!(damage_without_crit, 10000);
}

#[test]
fn test_defense_percentage_reduction() {
    let base_damage = 10000;
    let damage_10_def = DamageCalculator::apply_defense(base_damage, 1000);
    assert_eq!(damage_10_def, 9000);
    let damage_50_def = DamageCalculator::apply_defense(base_damage, 5000);
    assert_eq!(damage_50_def, 5000);
}

#[test]
fn test_defense_cap_at_80_percent() {
    let base_damage = 10000;
    let damage_100_def = DamageCalculator::apply_defense(base_damage, 10000);
    assert_eq!(damage_100_def, 2000);
    let damage_200_def = DamageCalculator::apply_defense(base_damage, 20000);
    assert_eq!(damage_200_def, 2000);
}

#[test]
fn test_zero_defense_no_reduction() {
    let base_damage = 10000;
    let damage_zero_def = DamageCalculator::apply_defense(base_damage, 0);
    assert_eq!(damage_zero_def, 10000);
}

#[test]
fn test_full_damage_calculation() {
    let result = DamageCalculator::calculate(10000, true, 2000);
    assert_eq!(result, 12000);
}

#[test]
fn test_damage_calculation_no_crit() {
    let result = DamageCalculator::calculate(10000, false, 2000);
    assert_eq!(result, 8000);
}

#[test]
fn test_minimum_damage_is_one() {
    let result = DamageCalculator::calculate(100, false, 10000);
    assert!(result >= 100);
}

#[test]
fn test_unit_stats_take_damage_with_defense() {
    let mut defender = UnitStats::for_type(TileType::Blue, 1);
    defender.defense = 5000;
    let initial_health = defender.health;
    defender.take_calculated_damage(10000);
    let expected_health = initial_health - 5000;
    assert_eq!(defender.health, expected_health);
}

#[test]
fn test_rage_buff_increases_attack() {
    let base_attack = 1500;
    let rage_buff = RageBuff::new();
    let buffed_attack = rage_buff.apply_attack_modifier(base_attack);
    assert_eq!(buffed_attack, 1800);
}

#[test]
fn test_rage_buff_duration() {
    let buff = RageBuff::new();
    assert_eq!(buff.duration(), 5000);
}

#[test]
fn test_rage_buff_timer_decreases() {
    let mut buff = RageBuff::new();
    let initial_remaining = buff.remaining_time();
    buff.tick(1000);
    assert_eq!(buff.remaining_time(), initial_remaining - 1000);
}

#[test]
fn test_rage_buff_expires_after_duration() {
    let mut buff = RageBuff::new();
    buff.tick(5000);
    assert!(buff.is_expired());
}

#[test]
fn test_heal_restores_health() {
    let mut stats = UnitStats::for_type(TileType::Blue, 1);
    let max_hp = stats.max_health;
    stats.health = max_hp / 2;
    let damaged_hp = stats.health;
    let heal_amount = max_hp / 5;
    stats.heal(heal_amount);
    assert_eq!(stats.health, damaged_hp + heal_amount);
}

#[test]
fn test_snipe_buff_doubles_next_attack() {
    let base_attack = 1200;
    let snipe_buff = SnipeBuff::new();
    let buffed_damage = snipe_buff.apply_damage_modifier(base_attack);
    assert_eq!(buffed_damage, 2400);
}

#[test]
fn test_snipe_buff_consumed_after_attack() {
    let mut snipe_buff = SnipeBuff::new();
    assert!(!snipe_buff.is_consumed());
    snipe_buff.consume();
    assert!(snipe_buff.is_consumed());
}

#[test]
fn test_stealth_buff_makes_untargetable() {
    let stealth_buff = StealthBuff::new();
    assert!(stealth_buff.is_active());
    assert!(stealth_buff.makes_untargetable());
}

#[test]
fn test_stealth_buff_duration() {
    let buff = StealthBuff::new();
    assert_eq!(buff.duration(), 3000);
}

#[test]
fn test_stealth_buff_expires() {
    let mut buff = StealthBuff::new();
    buff.tick(3000);
    assert!(buff.is_expired());
    assert!(!buff.makes_untargetable());
}

#[test]
fn test_meteor_damage_amount() {
    let meteor_damage = MeteorAbility::damage();
    assert_eq!(meteor_damage, 1500);
}

#[test]
fn test_meteor_hits_all_enemies() {
    let enemy_count = 5;
    let damages = MeteorAbility::calculate_damages(enemy_count);
    assert_eq!(damages.len(), enemy_count);
    for damage in damages {
        assert_eq!(damage, 1500);
    }
}

#[test]
fn test_mana_consumed_on_cast() {
    let mut stats = UnitStats::for_type(TileType::Red, 1);
    stats.mana = stats.max_mana;
    assert!(stats.can_cast());
    stats.mana = 0;
    assert!(!stats.can_cast());
}

#[test]
fn test_for_type_star_rank_scaling() {
    let rank1 = UnitStats::for_type(TileType::Red, 1);
    let rank2 = UnitStats::for_type(TileType::Red, 2);
    let rank3 = UnitStats::for_type(TileType::Red, 3);
    assert_eq!(rank1.max_health, 8000);
    assert_eq!(rank2.max_health, 14400);
    assert_eq!(rank3.max_health, 24000);
    assert_eq!(rank1.attack, 1500);
    assert_eq!(rank2.attack, 2700);
    assert_eq!(rank3.attack, 4500);
    assert_eq!(rank2.attack_speed, rank1.attack_speed);
}

#[test]
fn test_take_damage_floor_is_one_point() {
    let mut stats = UnitStats::for_type(TileType::Blue, 1);
    stats.defense = 10000;
    let before = stats.health;
    stats.take_damage(100);
    assert_eq!(stats.health, before - 100);
}
