use hero_battle::abilities::handle_abilities;
use hero_battle::character::Character;
use hero_battle::combat::{attack, run_combat, run_combat_round, take_turn, Event, Outcome};
use hero_battle::configs::SCALE;
use hero_battle::dice::draw_rolls;
use hero_battle::initiative::{calculate_initiative, InitiativeEntry, Side};
use hero_battle::modifiers::{Ability, Aura};
use rand::rngs::StdRng;
use rand::SeedableRng;

fn fighter(name: &str, speed: i32, health: i32, power: i32, abilities: Vec<Ability>) -> Character {
    Character::new(name, "Warrior", speed, health, power, 0, "single", 0, 0, vec![], vec![], abilities)
}

#[test]
fn test_calculate_initiave() {
    let tags_b: Vec<String> = vec!["null".to_string()];
    let tags_l: Vec<String> = vec!["null".to_string()];
    let auras_b: Vec<Aura> = vec![Aura::new("null", "null", 0)];
    let abilities_b: Vec<Ability> = vec![Ability::new("null", "null", 0, "null")];
    let auras_l: Vec<Aura> = vec![Aura::new("null", "null", 0)];
    let abilities_l: Vec<Ability> = vec![Ability::new("null", "null", 0, "null")];
    let expected_init: Vec<InitiativeEntry> = vec![
        InitiativeEntry { speed: 0, side: Side::Villain, index: 0 },
        InitiativeEntry { speed: 1, side: Side::Hero, index: 0 },
    ];

    let bill = Character::new("William", "Warrior", 1, 10, 5, 0, "single", 1, 0, tags_b, auras_b, abilities_b);
    let logan = Character::new("Logan", "Warrior", 0, 10, 5, 0, "single", 1, 0, tags_l, auras_l, abilities_l);
    let heroes: Vec<Character> = vec![bill];
    let villains: Vec<Character> = vec![logan];
    let init = calculate_initiative(&heroes, &villains);

    assert_eq!(init, expected_init);
}

#[test]
fn initiative_sorts_living_by_speed_with_stable_ties() {
    let mut dead_one = fighter("d", 9, 10, 1, vec![]);
    dead_one.health = 0;
    let heroes = vec![fighter("a", 3, 10, 1, vec![]), dead_one, fighter("b", 1, 10, 1, vec![])];
    let villains = vec![fighter("c", 3, 10, 1, vec![]), fighter("e", 5, 10, 1, vec![])];
    let init = calculate_initiative(&heroes, &villains);
    let expected = vec![
        InitiativeEntry { speed: 1, side: Side::Hero, index: 2 },
        InitiativeEntry { speed: 3, side: Side::Hero, index: 0 },
        InitiativeEntry { speed: 3, side: Side::Villain, index: 0 },
        InitiativeEntry { speed: 5, side: Side::Villain, index: 1 },
    ];
    assert_eq!(init, expected);
    assert_eq!(init.last().unwrap().speed, 5);
}

#[test]
fn allied_power_ability_fires_on_every_attack() {
    let boost = Ability::new("power", "allies", 1000, "attack");
    let mut heroes = vec![fighter("a", 1, 10, 100, vec![boost]), fighter("b", 1, 10, 50, vec![])];
    let mut villains = vec![fighter("c", 1, 10, 20, vec![])];
    handle_abilities("attack", 0, &mut heroes, &mut villains);
    assert_eq!((heroes[0].power, heroes[1].power), (110, 55));
    assert_eq!(heroes[0].abilities.len(), 1);
    handle_abilities("attack", 0, &mut heroes, &mut villains);
    assert_eq!((heroes[0].power, heroes[1].power), (121, 61));
    assert_eq!(villains[0].power, 20);
    handle_abilities("attacked", 0, &mut heroes, &mut villains);
    assert_eq!((heroes[0].power, heroes[1].power), (121, 61));
}

#[test]
fn ability_scopes_reach_owner_or_enemies() {
    let slow = Ability::new("speed", "enemies", -10000, "attack");
    let heal = Ability::new("health", "self", 10000, "attack");
    let mut heroes = vec![fighter("a", 1, 10, 1, vec![slow, heal]), fighter("b", 1, 10, 1, vec![])];
    heroes[0].health = 4;
    heroes[1].health = 4;
    let mut villains = vec![fighter("c", 3, 10, 1, vec![])];
    handle_abilities("attack", 0, &mut heroes, &mut villains);
    assert_eq!(villains[0].speed, 2);
    assert_eq!((heroes[0].health, heroes[0].health_max), (8, 10));
    assert_eq!((heroes[1].health, heroes[1].health_max), (4, 10));
}

#[test]
fn attack_reports_hits_and_deaths() {
    let attacker = Character::new("a", "Mage", 1, 10, 30, 5000, "all", 0, 0, vec![], vec![], vec![]);
    let mut enemies = vec![fighter("b", 1, 100, 1, vec![]), fighter("c", 1, 40, 1, vec![])];
    let mut events: Vec<Event> = Vec::new();
    attack(&attacker, Side::Hero, 0, &mut enemies, &vec![9999, 0], &mut events);
    assert_eq!(enemies[0].health, 70);
    assert_eq!(enemies[1].health, -20);
    assert_eq!(
        events,
        vec![
            Event::Attack { side: Side::Hero, attacker: 0, target: 0 },
            Event::Damage { side: Side::Villain, target: 0, amount: 30, critical: false, health_percent: 70 },
            Event::Attack { side: Side::Hero, attacker: 0, target: 1 },
            Event::Damage { side: Side::Villain, target: 1, amount: 60, critical: true, health_percent: 0 },
            Event::Death { side: Side::Villain, index: 1 },
        ]
    );
}

#[test]
fn dead_combatant_loses_its_turn() {
    let mut heroes = vec![fighter("a", 1, 10, 10, vec![])];
    heroes[0].health = 0;
    let mut villains = vec![fighter("b", 1, 10, 10, vec![])];
    let mut events: Vec<Event> = Vec::new();
    let entry = InitiativeEntry { speed: 1, side: Side::Hero, index: 0 };
    take_turn(entry, &mut heroes, &mut villains, &vec![], &mut events);
    assert_eq!(villains[0].health, 10);
    assert!(events.is_empty());
}

#[test]
fn two_fighters_need_three_rounds() {
    let mut heroes = vec![fighter("hero", 2, 25, 10, vec![])];
    let mut villains = vec![fighter("villain", 1, 25, 10, vec![])];
    let mut events: Vec<Event> = Vec::new();
    for round in 1..=3 {
        let init = calculate_initiative(&heroes, &villains);
        let rolls = vec![vec![SCALE - 1]; init.len()];
        let go = run_combat_round(init, &mut heroes, &mut villains, &rolls, &mut events);
        assert_eq!(go, round < 3);
    }
    assert_eq!(villains[0].health, -5);
    assert_eq!(heroes[0].health, 5);
}

#[test]
fn faster_side_wins_the_even_fight() {
    let mut heroes = vec![fighter("hero", 1, 25, 10, vec![])];
    let mut villains = vec![fighter("villain", 2, 25, 10, vec![])];
    let mut rng = StdRng::seed_from_u64(7);
    let mut events: Vec<Event> = Vec::new();
    let outcome = run_combat(&mut heroes, &mut villains, &mut rng, &mut events);
    assert_eq!(outcome, Outcome::VillainsWin);
    let rounds = events.iter().filter(|e| matches!(e, Event::Round { .. })).count();
    assert_eq!(rounds, 3);
    assert_eq!(heroes[0].health, -5);
    assert_eq!(villains[0].health, 5);
    assert_eq!(events.last(), Some(&Event::Death { side: Side::Hero, index: 0 }));
}

#[test]
fn heroes_win_when_striking_first() {
    let mut heroes = vec![fighter("hero", 2, 25, 10, vec![])];
    let mut villains = vec![fighter("villain", 1, 25, 10, vec![])];
    let mut rng = StdRng::seed_from_u64(11);
    let mut events: Vec<Event> = Vec::new();
    let outcome = run_combat(&mut heroes, &mut villains, &mut rng, &mut events);
    assert_eq!(outcome, Outcome::HeroesWin);
    assert_eq!(events[0], Event::Round { number: 1 });
    assert!(events.contains(&Event::Round { number: 3 }));
    assert!(!events.contains(&Event::Round { number: 4 }));
}

#[test]
fn self_destructive_ability_can_draw() {
    let doom = Ability::new("health", "allies", -10000, "attack");
    let mut heroes = vec![fighter("hero", 2, 25, 100, vec![doom])];
    let mut villains = vec![fighter("villain", 1, 25, 10, vec![])];
    let mut rng = StdRng::seed_from_u64(3);
    let mut events: Vec<Event> = Vec::new();
    let outcome = run_combat(&mut heroes, &mut villains, &mut rng, &mut events);
    assert_eq!(outcome, Outcome::Draw);
    assert_eq!(heroes[0].health, 0);
}

#[test]
fn rolls_come_from_the_range() {
    let mut rng = StdRng::seed_from_u64(1);
    let ones = draw_rolls(&mut rng, 2, 3, 1);
    assert_eq!(ones, vec![vec![0, 0, 0], vec![0, 0, 0]]);
    let rolls = draw_rolls(&mut rng, 4, 5, SCALE);
    assert_eq!(rolls.len(), 4);
    for row in rolls {
        assert_eq!(row.len(), 5);
        assert!(row.iter().all(|r| (0..SCALE).contains(r)));
    }
}

#[test]
fn health_ability_keeps_the_maximum() {
    let mend = Ability::new("health", "enemies", 1000, "attack");
    let mut heroes = vec![fighter("a", 1, 10, 1, vec![mend])];
    let mut villains = vec![fighter("b", 1, 100, 1, vec![])];
    villains[0].health = 50;
    handle_abilities("attack", 0, &mut heroes, &mut villains);
    assert_eq!((villains[0].health, villains[0].health_max), (55, 100));
    handle_abilities("attack", 0, &mut heroes, &mut villains);
    assert_eq!((villains[0].health, villains[0].health_max), (61, 100));
}
