use hero_battle::modifiers::{Ability, Apply, Aura, Scope, Statistic};

#[test]
fn test_aura_convert_and_add_i32() {
    const INPUT_BASE: i32 = 1;
    const VALUE: i32 = 20000;
    let test_aura = Aura::new("speed", "self", VALUE);
    const EXPECTED_VALUE: i32 = 3;

    let new_value = test_aura.convert_and_add(INPUT_BASE);

    assert_eq!(new_value, EXPECTED_VALUE);
}

#[test]
fn test_aura_convert_and_multiply_i32() {
    const INPUT_BASE: i32 = 100;
    const VALUE: i32 = 4000;
    let test_aura = Aura::new("health", "self", VALUE);
    const EXPECTED_VALUE: i32 = 140;

    let new_value = test_aura.convert_and_multiply(INPUT_BASE);

    assert_eq!(new_value, EXPECTED_VALUE);
}

#[test]
fn test_aura_convert_and_multiply_f64() {
    const INPUT_BASE: i32 = 100;
    const VALUE: i32 = 4000;
    let test_aura = Aura::new("health", "self", VALUE);
    const EXPECTED_VALUE: i32 = 140;

    let new_value = test_aura.convert_and_multiply(INPUT_BASE);

    assert_eq!(new_value, EXPECTED_VALUE);
}

#[test]
fn test_aura_change_health() {
    const INPUT_BASE: i32 = 100;
    const VALUE: i32 = 4000;
    let test_aura = Aura::new("health", "self", VALUE);
    const EXPECTED_VALUE: i32 = 140;

    let new_value = test_aura.change_health(INPUT_BASE, i32::MAX);

    assert_eq!(new_value, EXPECTED_VALUE);
}

#[test]
fn test_aura_change_power() {
    const INPUT_BASE: i32 = 100;
    const VALUE: i32 = 4000;
    let test_aura = Aura::new("health", "self", VALUE);
    const EXPECTED_VALUE: i32 = 140;

    let new_value = test_aura.change_power(INPUT_BASE);

    assert_eq!(new_value, EXPECTED_VALUE);
}

#[test]
fn test_aura_change_crit_chance() {
    const INPUT_BASE: i32 = 2500;
    const VALUE: i32 = 2000;
    let test_aura = Aura::new("critical chance", "self", VALUE);
    const EXPECTED_VALUE: i32 = 3000;

    let new_value = test_aura.change_crit_chance(INPUT_BASE);

    assert_eq!(new_value, EXPECTED_VALUE);
}

#[test]
fn test_aura_change_speed() {
    const INPUT_BASE: i32 = 0;
    const VALUE: i32 = 20000;
    let test_aura = Aura::new("speed", "self", VALUE);
    const EXPECTED_VALUE: i32 = 2;

    let new_value = test_aura.change_speed(INPUT_BASE);

    assert_eq!(new_value, EXPECTED_VALUE);
}

#[test]
fn modifier_names_are_parsed() {
    let a = Aura::new("critical chance", "allies", 1);
    assert_eq!(a.statistic, Statistic::CriticalChance);
    assert_eq!(a.target, Scope::Allies);
    let b = Aura::new("Health", "everyone", 1);
    assert_eq!(b.statistic, Statistic::Unknown);
    assert_eq!(b.target, Scope::Unknown);
    let c = Ability::new("speed", "enemies", 1, "attack");
    assert_eq!(c.statistic, Statistic::Speed);
    assert_eq!(c.target, Scope::Enemies);
}

#[test]
fn crit_chance_is_capped() {
    let aura = Aura::new("critical chance", "self", 10000);
    assert_eq!(aura.change_crit_chance(6000), 9900);
    let ability = Ability::new("critical chance", "self", 10000, "attack");
    assert_eq!(ability.change_crit_chance(6000), 9900);
}

#[test]
fn ability_health_is_capped_at_maximum() {
    let ability = Ability::new("health", "self", 5000, "attack");
    assert_eq!(ability.change_health(80, 100), 100);
    assert_eq!(ability.change_health(50, 100), 75);
    let aura = Aura::new("health", "self", 5000);
    assert_eq!(aura.change_health(80, 100), 120);
}

#[test]
fn ability_power_has_a_floor() {
    let ability = Ability::new("power", "self", -10000, "attack");
    assert_eq!(ability.change_power(50), 1);
    let aura = Aura::new("power", "self", -10000);
    assert_eq!(aura.change_power(50), 0);
}

#[test]
fn speed_may_go_negative() {
    let aura = Aura::new("speed", "self", -35000);
    assert_eq!(aura.change_speed(1), -3);
}

#[test]
fn ability_trigger_is_exact() {
    let ability = Ability::new("power", "allies", 1000, "attack");
    assert!(ability.check_ability_trigger("attack"));
    assert!(!ability.check_ability_trigger("Attack"));
    assert!(!ability.check_ability_trigger("attacked"));
    assert!(!ability.check_ability_trigger("att"));
}
