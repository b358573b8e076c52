use mons_box::event::{
    handle_key_event, GameEvent, InputEvent, InteractiveMode, Key, LoopAction, Modifier,
    MESSAGE_LIFETIME_SECS,
};
use mons_box::monster::{MessageKind, Monster};

fn pet(hunger: u8, happiness: u8, energy: u8, health: u8, alive: bool) -> Monster {
    Monster {
        name: "Rex".to_string(),
        hunger,
        happiness,
        energy,
        health,
        age: 0,
        is_sleeping: false,
        is_alive: alive,
        last_updated: 1000,
    }
}

#[test]
fn keys_map_to_their_events() {
    assert_eq!(handle_key_event(Key::Char('q'), Modifier::Plain), Some(InputEvent::Quit));
    assert_eq!(handle_key_event(Key::Char('c'), Modifier::Control), Some(InputEvent::Quit));
    assert_eq!(handle_key_event(Key::Esc, Modifier::Plain), Some(InputEvent::Quit));
    assert_eq!(handle_key_event(Key::Char('f'), Modifier::Plain), Some(InputEvent::Feed));
    assert_eq!(handle_key_event(Key::Char('p'), Modifier::Plain), Some(InputEvent::Play));
    assert_eq!(handle_key_event(Key::Char('s'), Modifier::Plain), Some(InputEvent::Sleep));
    assert_eq!(handle_key_event(Key::Char('i'), Modifier::Plain), Some(InputEvent::Status));
    assert_eq!(handle_key_event(Key::Tab, Modifier::Plain), Some(InputEvent::Status));
    assert_eq!(handle_key_event(Key::Char('r'), Modifier::Plain), Some(InputEvent::Reset));
}

#[test]
fn unrecognized_keys_are_dropped() {
    assert_eq!(handle_key_event(Key::Char('x'), Modifier::Plain), None);
    assert_eq!(handle_key_event(Key::Char('f'), Modifier::Control), None);
    assert_eq!(handle_key_event(Key::Char('q'), Modifier::Other), None);
    assert_eq!(handle_key_event(Key::Esc, Modifier::Control), None);
    assert_eq!(handle_key_event(Key::Tab, Modifier::Other), None);
    assert_eq!(handle_key_event(Key::Other, Modifier::Plain), None);
}

#[test]
fn quit_ends_the_loop_without_a_redraw() {
    let mut s = InteractiveMode::new(pet(50, 70, 80, 100, true));
    let action = s.handle_event(GameEvent::Input(InputEvent::Quit), 1000, 0);
    assert_eq!(action, LoopAction::Stop);
    assert!(s.should_quit);
    assert!(s.message.is_none());
    assert_eq!(s.monster.hunger, 50);
}

#[test]
fn a_tick_applies_decay_and_persists() {
    let mut s = InteractiveMode::new(pet(50, 70, 80, 100, true));
    let action = s.handle_event(GameEvent::Tick, 1000 + 3600, 0);
    assert_eq!(action, LoopAction::PersistAndRedraw);
    assert_eq!(s.monster.hunger, 52);
    assert_eq!(s.monster.age, 1);
}

#[test]
fn a_starving_pet_raises_an_alert_once() {
    let mut s = InteractiveMode::new(pet(95, 70, 80, 100, true));
    s.handle_event(GameEvent::Tick, 1000, 0);
    let msg = s.message.expect("alert owed");
    assert_eq!(msg.kind, MessageKind::AlertStarving);
    assert_eq!(msg.set_at, 1000);
    // a later tick must not pre-empt the in-flight message
    let mut t = s.clone();
    t.monster.health = 10;
    t.handle_event(GameEvent::Tick, 1001, 0);
    assert_eq!(t.message.expect("still there").kind, MessageKind::AlertStarving);
}

#[test]
fn alerts_follow_the_documented_priority() {
    let mut dead = InteractiveMode::new(pet(50, 70, 80, 0, false));
    dead.handle_event(GameEvent::Tick, 1000, 0);
    assert_eq!(dead.message.expect("alert owed").kind, MessageKind::AlertDied);
    let mut sick = InteractiveMode::new(pet(50, 70, 80, 19, true));
    sick.handle_event(GameEvent::Tick, 1000, 0);
    assert_eq!(sick.message.expect("alert owed").kind, MessageKind::AlertLowHealth);
    let mut fine = InteractiveMode::new(pet(50, 70, 80, 100, true));
    fine.handle_event(GameEvent::Tick, 1000, 0);
    assert!(fine.message.is_none());
}

#[test]
fn feeding_through_the_loop_mutates_and_reports() {
    let mut s = InteractiveMode::new(pet(50, 70, 80, 100, true));
    let action = s.handle_event(GameEvent::Input(InputEvent::Feed), 2000, 3);
    assert_eq!(action, LoopAction::PersistAndRedraw);
    assert_eq!(s.monster.hunger, 25);
    assert_eq!(s.monster.happiness, 80);
    let msg = s.message.expect("a feed message");
    assert_eq!(msg.kind, MessageKind::Fed { flavor: 3 });
    assert_eq!(msg.set_at, 2000);
}

#[test]
fn reset_is_refused_while_alive() {
    let mut s = InteractiveMode::new(pet(50, 70, 80, 100, true));
    let action = s.handle_event(GameEvent::Input(InputEvent::Reset), 2000, 0);
    assert_eq!(action, LoopAction::PersistAndRedraw);
    assert_eq!(s.message.expect("warning owed").kind, MessageKind::ResetRefused);
    assert!(s.monster.is_alive);
}

#[test]
fn reset_reloads_once_the_pet_has_died() {
    let mut s = InteractiveMode::new(pet(50, 70, 80, 0, false));
    let action = s.handle_event(GameEvent::Input(InputEvent::Reset), 2000, 0);
    assert_eq!(action, LoopAction::ResetAndReload);
    assert_eq!(s.message.expect("notice owed").kind, MessageKind::ResetDone);
    let fresh = Monster::hatch(String::new(), 2000);
    s.install_monster(fresh);
    assert!(s.monster.is_alive);
    assert_eq!(s.monster.name, "Fluffy");
}

#[test]
fn status_only_sets_a_message() {
    let mut s = InteractiveMode::new(pet(50, 70, 80, 100, true));
    let action = s.handle_event(GameEvent::Input(InputEvent::Status), 2000, 0);
    assert_eq!(action, LoopAction::PersistAndRedraw);
    assert_eq!(s.message.expect("notice owed").kind, MessageKind::StatusShown);
    assert_eq!(s.monster.hunger, 50);
}

#[test]
fn a_message_expires_after_its_lifetime() {
    let mut s = InteractiveMode::new(pet(50, 70, 80, 100, true));
    s.set_message(MessageKind::StatusShown, 100);
    assert!(!s.check_message_expiry(100 + MESSAGE_LIFETIME_SECS - 1));
    assert!(s.message.is_some());
    assert!(s.check_message_expiry(100 + MESSAGE_LIFETIME_SECS));
    assert!(s.message.is_none());
    // the frame drawn after the check shows no message
    let frame = s.draw_interface();
    assert!(frame.message.is_none());
    // and a second check reports nothing to do
    assert!(!s.check_message_expiry(200));
}

#[test]
fn the_frame_mirrors_the_active_message() {
    let mut s = InteractiveMode::new(pet(50, 70, 80, 100, true));
    s.set_message(MessageKind::StatusShown, 100);
    let frame = s.draw_interface();
    let msg = frame.message.expect("message shown");
    assert_eq!(msg.kind, MessageKind::StatusShown);
    assert_eq!(frame.plan.age, 0);
}
