use sulis::actor_state::{total_hp_of, ActorState, ClassLevel, Damage, Equippable, Rules, StatList};

fn levels() -> Vec<ClassLevel> {
    vec![ClassLevel { hp_per_level: 10, level: 2 }, ClassLevel { hp_per_level: 5, level: 3 }]
}

const RULES: Rules = Rules { base_ap: 6, base_initiative: 3 };

#[test]
fn actor_state_new_starts_empty() {
    let a = ActorState::new(levels());
    assert_eq!(a.hp(), 0);
    assert_eq!(a.ap(), 0);
    assert_eq!(a.stats, StatList::default());
    assert_eq!(a.levels, levels());
}

#[test]
fn compute_stats_sums_class_levels() {
    let mut a = ActorState::new(levels());
    a.compute_stats(None, &RULES);
    assert_eq!(a.stats.max_hp, 35);
    assert_eq!(a.stats.initiative, 3);
    assert_eq!(a.stats.damage, Damage { min: 0, max: 0 });
}

#[test]
fn compute_stats_without_levels() {
    let mut a = ActorState::new(Vec::new());
    a.compute_stats(None, &RULES);
    assert_eq!(a.stats.max_hp, 0);
}

#[test]
fn compute_stats_takes_damage_of_held_weapon() {
    let mut a = ActorState::new(levels());
    let sword = Equippable { damage: Some(Damage { min: 2, max: 8 }) };
    a.compute_stats(Some(&sword), &RULES);
    assert_eq!(a.stats.damage, Damage { min: 2, max: 8 });
    let ring = Equippable { damage: None };
    a.compute_stats(Some(&ring), &RULES);
    assert_eq!(a.stats.damage, Damage { min: 2, max: 8 });
}

#[test]
fn init_restores_hp_and_ap() {
    let mut a = ActorState::new(levels());
    a.compute_stats(None, &RULES);
    a.init(&RULES);
    assert_eq!(a.hp(), 35);
    assert_eq!(a.ap(), 6);
}

#[test]
fn init_turn_resets_ap_only() {
    let mut a = ActorState::new(levels());
    a.compute_stats(None, &RULES);
    a.init(&RULES);
    a.remove_hp(5);
    a.init_turn(&Rules { base_ap: 4, base_initiative: 0 });
    assert_eq!(a.ap(), 4);
    assert_eq!(a.hp(), 30);
}

#[test]
fn remove_hp_stops_at_zero() {
    let mut a = ActorState::new(levels());
    a.compute_stats(None, &RULES);
    a.init(&RULES);
    a.remove_hp(10);
    assert_eq!(a.hp(), 25);
    a.remove_hp(25);
    assert_eq!(a.hp(), 0);
    a.remove_hp(100);
    assert_eq!(a.hp(), 0);
}

#[test]
fn remove_hp_twice_equals_once_combined() {
    let mut a = ActorState::new(levels());
    a.compute_stats(None, &RULES);
    a.init(&RULES);
    let mut b = ActorState::new(levels());
    b.compute_stats(None, &RULES);
    b.init(&RULES);
    a.remove_hp(20);
    a.remove_hp(20);
    b.remove_hp(40);
    assert_eq!(a.hp(), b.hp());
    assert_eq!(a.hp(), 0);
}

#[test]
fn total_hp_of_sums_or_reports_overflow() {
    assert_eq!(total_hp_of(&levels()), Some(35));
    assert_eq!(total_hp_of(&Vec::new()), Some(0));
    let big = vec![ClassLevel { hp_per_level: u32::MAX, level: 2 }];
    assert_eq!(total_hp_of(&big), None);
    let two = vec![
        ClassLevel { hp_per_level: u32::MAX, level: 1 },
        ClassLevel { hp_per_level: 1, level: 1 },
    ];
    assert_eq!(total_hp_of(&two), None);
    let fits = vec![
        ClassLevel { hp_per_level: u32::MAX - 1, level: 1 },
        ClassLevel { hp_per_level: 1, level: 1 },
    ];
    assert_eq!(total_hp_of(&fits), Some(u32::MAX));
}

#[test]
fn max_hp_fits_checks_level_total() {
    assert!(ActorState::new(levels()).max_hp_fits());
    let big = ActorState::new(vec![ClassLevel { hp_per_level: u32::MAX, level: 2 }]);
    assert!(!big.max_hp_fits());
}

#[test]
fn equip_recomputes_stats_and_returns_outcome() {
    let mut a = ActorState::new(levels());
    let axe = Equippable { damage: Some(Damage { min: 3, max: 9 }) };
    assert!(a.equip(true, Some(&axe), &RULES));
    assert_eq!(a.stats.damage, Damage { min: 3, max: 9 });
    assert_eq!(a.stats.max_hp, 35);
    assert!(!a.equip(false, Some(&axe), &RULES));
}

#[test]
fn unequip_recomputes_stats_and_returns_outcome() {
    let mut a = ActorState::new(levels());
    let axe = Equippable { damage: Some(Damage { min: 3, max: 9 }) };
    a.equip(true, Some(&axe), &RULES);
    assert!(a.unequip(true, None, &RULES));
    assert_eq!(a.stats.damage, Damage { min: 3, max: 9 });
    assert_eq!(a.stats.initiative, 3);
    assert!(!a.unequip(false, None, &RULES));
}
