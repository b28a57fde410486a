use hero_battle::character::Character;
use hero_battle::modifiers::Aura;
use hero_battle::squad::{apply_auras, SquadConstructor};

fn member(name: &str, health: i32, power: i32, auras: Vec<Aura>) -> Character {
    Character::new(name, "Warrior", 1, health, power, 1000, "single", 0, 0, vec![], auras, vec![])
}

#[test]
fn health_aura_on_self_raises_both_healths() {
    let squad = vec![member("a", 100, 10, vec![Aura::new("health", "self", 4000)])];
    let squad = apply_auras(squad);
    assert_eq!((squad[0].health, squad[0].health_max), (140, 140));
}

#[test]
fn allied_auras_apply_to_every_member_after_own_auras() {
    let squad = vec![
        member("a", 100, 10, vec![Aura::new("power", "allies", 5000), Aura::new("speed", "self", 20000)]),
        member("b", 50, 20, vec![Aura::new("power", "self", 10000), Aura::new("critical chance", "allies", 10000)]),
        member("c", 80, 30, vec![Aura::new("power", "nobody", 10000)]),
    ];
    let squad = apply_auras(squad);
    assert_eq!(squad[0].power, 15);
    assert_eq!(squad[0].speed, 3);
    assert_eq!(squad[1].power, 60);
    assert_eq!(squad[2].power, 45);
    assert_eq!(squad[2].critical_chance, 2000);
    assert_eq!(squad[1].speed, 1);
}

#[test]
fn squad_constructor_keeps_member_order() {
    let names = vec!["front".to_string(), "back".to_string()];
    let squad = SquadConstructor::new(names.clone());
    assert_eq!(squad.members, names);
}
