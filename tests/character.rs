use hero_battle::character::{health_level, Character, HealthLevel};
use hero_battle::modifiers::{Ability, Aura};

fn dave(health: i32, dt: i32, dr: i32) -> Character {
    let tags: Vec<String> = vec!["null".to_string()];
    let auras: Vec<Aura> = vec![Aura::new("null", "null", 0)];
    let abilities: Vec<Ability> = vec![Ability::new("null", "null", 0, "null")];
    Character::new("Dave", "Warrior", 1, health, 5, 0, "single", dt, dr, tags, auras, abilities)
}

#[test]
fn test_new() {
    const EXPECTED_NAME: &str = "Dave";
    const EXPECTED_CLASS: &str = "Warrior";
    const EXPECTED_SPEED: i32 = 1;
    const EXPECTED_HEALTH: i32 = 10;
    const EXPECTED_POWER: i32 = 5;
    const EXPECTED_CRIT: i32 = 2500;
    let expected_attack_type: String = "single".to_string();
    const EXPECTED_DT: i32 = 0;
    const EXPECTED_DR: i32 = 0;
    let input_tags: Vec<String> = vec!["null".to_string()];
    let input_auras: Vec<Aura> = vec![Aura::new("null", "null", 0)];
    let input_abilities: Vec<Ability> = vec![Ability::new("null", "null", 0, "null")];
    let expected_tags: Vec<String> = vec!["null".to_string()];
    let expected_auras: Vec<Aura> = vec![Aura::new("null", "null", 0)];
    let expected_abilities: Vec<Ability> = vec![Ability::new("null", "null", 0, "null")];

    let test_character = Character::new(EXPECTED_NAME, EXPECTED_CLASS, EXPECTED_SPEED,
        EXPECTED_HEALTH, EXPECTED_POWER, EXPECTED_CRIT, &expected_attack_type, EXPECTED_DT,
        EXPECTED_DR, input_tags, input_auras, input_abilities);

    assert_eq!(test_character.name, EXPECTED_NAME);
    assert_eq!(test_character.class, EXPECTED_CLASS);
    assert_eq!(test_character.speed, EXPECTED_SPEED);
    assert_eq!(test_character.health, EXPECTED_HEALTH);
    assert_eq!(test_character.power, EXPECTED_POWER);
    assert_eq!(test_character.critical_chance, EXPECTED_CRIT);
    assert_eq!(test_character.attack_type, expected_attack_type);
    assert_eq!(test_character.tags, expected_tags);
    assert_eq!(test_character.auras, expected_auras);
    assert_eq!(test_character.abilities, expected_abilities);
}

#[test]
fn test_take_damage_no_armor() {
    let mut test_character = dave(20, 0, 0);
    test_character.take_damage(10, false);
    assert_eq!(test_character.health, 10);
}

#[test]
fn test_take_damage_dt_only() {
    let mut test_character = dave(20, 1, 0);
    test_character.take_damage(15, false);
    assert_eq!(test_character.health, 6);
}

#[test]
fn test_take_damage_dr_only() {
    let mut test_character = dave(100, 0, 2000);
    test_character.take_damage(50, false);
    assert_eq!(test_character.health, 60);
}

#[test]
fn test_take_damage_dt_and_dr() {
    let mut test_character = dave(100, 1, 2000);
    test_character.take_damage(50, false);
    assert_eq!(test_character.health, 61);
}

#[test]
fn test_is_dead() {
    let mut test_character = dave(10, 0, 0);
    test_character.take_damage(40, false);
    let death_result = test_character.is_dead();
    assert_eq!(death_result, true);
}

#[test]
fn worked_example_deals_thirty_nine() {
    let mut c = dave(100, 1, 2000);
    let dealt = c.take_damage(50, false);
    assert_eq!(dealt, 39);
    assert_eq!(c.health, 61);
}

#[test]
fn huge_threshold_still_deals_minimum_damage() {
    let mut c = dave(100, 1000, 0);
    let dealt = c.take_damage(50, false);
    assert_eq!(dealt, 10);
    assert_eq!(c.health, 90);
}

#[test]
fn reduction_past_cap_changes_nothing() {
    let mut capped = dave(1000, 0, 8500);
    let mut beyond = dave(1000, 0, 9900);
    let a = capped.take_damage(200, false);
    let b = beyond.take_damage(200, false);
    assert_eq!(a, 30);
    assert_eq!(a, b);
    assert_eq!(capped.health, beyond.health);
}

#[test]
fn reduction_rounds_half_away_from_zero() {
    // 0.75 of 50 is 37.5, which rounds to 38
    let mut c = dave(100, 0, 2500);
    assert_eq!(c.take_damage(50, true), 38);
    assert_eq!(c.health, 62);
}

#[test]
fn death_is_exactly_non_positive_health() {
    let mut c = dave(10, 0, 0);
    assert!(!c.is_dead());
    c.health = 1;
    assert!(!c.is_dead());
    c.health = 0;
    assert!(c.is_dead());
    c.health = -5;
    assert!(c.is_dead());
}

#[test]
fn validation_clamps_health_to_maximum() {
    let mut c = dave(10, 0, 0);
    c.health = 15;
    assert!(c.validate_actor_data());
    assert_eq!(c.health, 10);
    assert!(!c.validate_actor_data());
    assert_eq!(c.health, 10);
}

#[test]
fn experience_gains_a_level_above_ten() {
    let mut c = dave(10, 0, 0);
    c.add_xp(5);
    assert_eq!((c.xp, c.level), (5, 1));
    c.add_xp(6);
    assert_eq!((c.xp, c.level), (11, 2));
}

#[test]
fn health_percent_and_level() {
    let mut c = dave(200, 0, 0);
    c.health = 134;
    assert_eq!(c.health_percent(), 67);
    assert_eq!(health_level(c.health_percent()), HealthLevel::Green);
    c.health = 65;
    assert_eq!(c.health_percent(), 33);
    assert_eq!(health_level(c.health_percent()), HealthLevel::Yellow);
    c.health = -20;
    assert_eq!(c.health_percent(), 0);
    assert_eq!(health_level(c.health_percent()), HealthLevel::Red);
}
