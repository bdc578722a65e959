use sulis::melee_attack::{attack_vector, EntityBounds};

#[test]
fn attack_vector_between_centres() {
    let attacker = EntityBounds { x: 2, y: 3, width: 2, height: 2 };
    let defender = EntityBounds { x: 5, y: 3, width: 3, height: 1 };
    // defender centre (5 + 1, 3 + 0), attacker centre (2 + 1, 3 + 1)
    assert_eq!(attack_vector(&attacker, &defender), (3, -1));
}

#[test]
fn attack_vector_halves_toward_zero() {
    let attacker = EntityBounds { x: 0, y: 0, width: -3, height: 1 };
    let defender = EntityBounds { x: 0, y: 0, width: 1, height: -1 };
    assert_eq!(attack_vector(&attacker, &defender), (1, 0));
}

#[test]
fn attack_vector_is_reversed_between_the_two() {
    let a = EntityBounds { x: 7, y: -2, width: 4, height: 2 };
    let d = EntityBounds { x: -1, y: 5, width: 2, height: 6 };
    let (x, y) = attack_vector(&a, &d);
    assert_eq!(attack_vector(&d, &a), (-x, -y));
}
