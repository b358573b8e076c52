use mons_box::monster::{MessageKind, Monster};

fn awake(hunger: u8, happiness: u8, energy: u8, health: u8) -> Monster {
    Monster {
        name: "Rex".to_string(),
        hunger,
        happiness,
        energy,
        health,
        age: 0,
        is_sleeping: false,
        is_alive: true,
        last_updated: 0,
    }
}

#[test]
fn ten_hours_awake_decay() {
    // hours = 10 -> decay = 20: hunger +20, happiness -10, energy -20,
    // health untouched because no alert threshold is crossed.
    let mut m = awake(50, 80, 80, 100);
    m.apply_time_passage(10 * 3600);
    assert_eq!(m.hunger, 70);
    assert_eq!(m.happiness, 70);
    assert_eq!(m.energy, 60);
    assert_eq!(m.health, 100);
    assert_eq!(m.age, 10);
    assert!(m.is_alive);
    assert_eq!(m.last_updated, 36000);
}

#[test]
fn under_an_hour_only_refreshes_the_clock() {
    let mut m = awake(50, 80, 80, 100);
    m.last_updated = 1000;
    m.apply_time_passage(1000 + 3599);
    assert_eq!(m.hunger, 50);
    assert_eq!(m.happiness, 80);
    assert_eq!(m.energy, 80);
    assert_eq!(m.health, 100);
    assert_eq!(m.age, 0);
    assert_eq!(m.last_updated, 1000 + 3599);
}

#[test]
fn clock_moving_backwards_changes_nothing() {
    let mut m = awake(50, 80, 80, 100);
    m.last_updated = 5000;
    m.apply_time_passage(100);
    assert_eq!(m.last_updated, 5000);
    assert_eq!(m.hunger, 50);
    assert_eq!(m.age, 0);
}

#[test]
fn long_absence_is_clamped_and_can_kill() {
    // 2000 hours clamp to 1000; decay caps at 100: hunger pegs at 100,
    // energy at 0, the alert threshold holds and health collapses.
    let mut m = awake(50, 80, 80, 100);
    m.apply_time_passage(2000 * 3600);
    assert_eq!(m.hunger, 100);
    assert_eq!(m.energy, 0);
    assert_eq!(m.health, 0);
    assert!(!m.is_alive);
    assert_eq!(m.age, 1000);
}

#[test]
fn sleeping_recovers_energy() {
    let mut m = awake(50, 80, 20, 100);
    m.is_sleeping = true;
    m.apply_time_passage(4 * 3600);
    // recovery = 4 * 10 / 2 = 20; hunger gains decay / 2 = 4.
    assert_eq!(m.energy, 40);
    assert_eq!(m.hunger, 54);
    assert_eq!(m.happiness, 80);
}

#[test]
fn feed_when_too_full_refuses_and_costs_happiness() {
    let mut m = awake(15, 75, 80, 100);
    let r = m.feed();
    assert_eq!(r, MessageKind::TooFull);
    assert_eq!(m.hunger, 15);
    assert_eq!(m.happiness, 70);
    assert_eq!(m.health, 100);
}

#[test]
fn feed_reduces_hunger_and_heals() {
    let mut m = awake(50, 95, 80, 97);
    let r = m.feed_picked(7);
    assert_eq!(r, MessageKind::Fed { flavor: 2 });
    assert_eq!(m.hunger, 25);
    assert_eq!(m.happiness, 100);
    assert_eq!(m.health, 100);
}

#[test]
fn feed_flavor_stays_in_range() {
    let mut m = awake(90, 50, 80, 100);
    match m.feed() {
        MessageKind::Fed { flavor } => assert!(flavor < 5),
        other => panic!("expected a fed message, got {:?}", other),
    }
}

#[test]
fn feed_guards_sleep_and_death() {
    let mut m = awake(50, 50, 50, 100);
    m.is_sleeping = true;
    assert_eq!(m.feed(), MessageKind::SleepingRefusal);
    assert_eq!(m.hunger, 50);
    let mut d = awake(50, 50, 50, 100);
    d.is_alive = false;
    assert_eq!(d.feed(), MessageKind::Deceased);
    assert_eq!(d.hunger, 50);
}

#[test]
fn play_when_tired_refuses_without_touching_stats() {
    let mut m = awake(50, 60, 10, 100);
    let r = m.play();
    assert_eq!(r, MessageKind::TooTired);
    assert_eq!(m.hunger, 50);
    assert_eq!(m.happiness, 60);
    assert_eq!(m.energy, 10);
    assert_eq!(m.health, 100);
}

#[test]
fn play_when_starving_refuses() {
    let mut m = awake(85, 60, 50, 100);
    assert_eq!(m.play(), MessageKind::TooHungry);
    assert_eq!(m.hunger, 85);
}

#[test]
fn play_raises_happiness_and_spends_energy() {
    let mut m = awake(50, 90, 40, 100);
    let r = m.play_picked(9);
    assert_eq!(r, MessageKind::Played { activity: 4 });
    assert_eq!(m.happiness, 100);
    assert_eq!(m.energy, 25);
    assert_eq!(m.hunger, 55);
}

#[test]
fn toggle_sleep_flips_and_reports() {
    let mut m = awake(50, 50, 50, 100);
    assert_eq!(m.toggle_sleep(), MessageKind::FellAsleep);
    assert!(m.is_sleeping);
    assert_eq!(m.toggle_sleep(), MessageKind::WokeUp);
    assert!(!m.is_sleeping);
    m.is_alive = false;
    assert_eq!(m.toggle_sleep(), MessageKind::Deceased);
    assert!(!m.is_sleeping);
}

#[test]
fn death_is_a_latch() {
    let mut m = awake(100, 1, 0, 1);
    m.apply_time_passage(3600);
    assert!(!m.is_alive);
    // no action revives it
    m.feed();
    m.play();
    m.toggle_sleep();
    m.apply_time_passage(10 * 3600);
    assert!(!m.is_alive);
}

#[test]
fn new_creature_has_default_stats() {
    let m = Monster::new_at("Nibbles".to_string(), 42);
    assert_eq!(m.name, "Nibbles");
    assert_eq!(m.hunger, 50);
    assert_eq!(m.happiness, 70);
    assert_eq!(m.energy, 80);
    assert_eq!(m.health, 100);
    assert_eq!(m.age, 0);
    assert!(!m.is_sleeping);
    assert!(m.is_alive);
    assert_eq!(m.last_updated, 42);
}

#[test]
fn hatch_defaults_a_blank_name() {
    let m = Monster::hatch(String::new(), 7);
    assert_eq!(m.name, "Fluffy");
    let n = Monster::hatch("Zig".to_string(), 7);
    assert_eq!(n.name, "Zig");
}

#[test]
fn update_from_time_passage_moves_forward() {
    let mut m = awake(50, 80, 80, 100);
    m.last_updated = 0;
    let before_age = m.age;
    m.update_from_time_passage();
    assert!(m.age >= before_age);
    assert!(m.last_updated >= 1);
    assert!(m.hunger <= 100 && m.happiness <= 100 && m.energy <= 100 && m.health <= 100);
}
