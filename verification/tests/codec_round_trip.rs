use mons_box::codec::{decode_state, encode_state};
use mons_box::monster::Monster;

fn record(name: &str) -> Monster {
    Monster {
        name: name.to_string(),
        hunger: 50,
        happiness: 70,
        energy: 80,
        health: 100,
        age: 12,
        is_sleeping: false,
        is_alive: true,
        last_updated: 1725029869,
    }
}

fn assert_same(a: &Monster, b: &Monster) {
    assert_eq!(a.name, b.name);
    assert_eq!(a.hunger, b.hunger);
    assert_eq!(a.happiness, b.happiness);
    assert_eq!(a.energy, b.energy);
    assert_eq!(a.health, b.health);
    assert_eq!(a.age, b.age);
    assert_eq!(a.is_sleeping, b.is_sleeping);
    assert_eq!(a.is_alive, b.is_alive);
    assert_eq!(a.last_updated, b.last_updated);
}

#[test]
fn encode_writes_the_documented_layout() {
    let m = record("Fluffy");
    let bytes = encode_state(&m);
    let expected = "hunger=050\nhappiness=070\nenergy=080\nhealth=100\nage=0000000012\n\
                    last_updated=00000000001725029869\nis_sleeping=0\nis_alive=1\nname=Fluffy";
    assert_eq!(bytes, expected.as_bytes());
}

#[test]
fn save_then_load_round_trips() {
    let m = record("Fluffy");
    let bytes = encode_state(&m);
    let back = decode_state(&bytes).expect("a saved record must load");
    assert_same(&m, &back);
}

#[test]
fn round_trip_keeps_every_field_at_the_extremes() {
    let m = Monster {
        name: String::new(),
        hunger: 100,
        happiness: 0,
        energy: 100,
        health: 0,
        age: u32::MAX,
        is_sleeping: true,
        is_alive: false,
        last_updated: u64::MAX,
    };
    let back = decode_state(&encode_state(&m)).expect("extremes must load");
    assert_same(&m, &back);
}

#[test]
fn round_trip_keeps_tricky_names() {
    for name in ["Mö🐲ster", "a=b\nname=oops", "  spaced  ", "日本語の名前"] {
        let m = record(name);
        let back = decode_state(&encode_state(&m)).expect("named record must load");
        assert_same(&m, &back);
    }
}

#[test]
fn garbage_does_not_load() {
    assert!(decode_state(&Vec::new()).is_none());
    assert!(decode_state(&b"not a record".to_vec()).is_none());
    assert!(decode_state(&b"hunger=abc".to_vec()).is_none());
}

#[test]
fn a_truncated_record_does_not_load() {
    let bytes = encode_state(&record("Fluffy"));
    let cut = bytes[..bytes.len() - 30].to_vec();
    assert!(decode_state(&cut).is_none());
}

#[test]
fn an_out_of_band_stat_does_not_load() {
    let m = record("Fluffy");
    let text = String::from_utf8(encode_state(&m)).expect("the record is text");
    let bad = text.replace("hunger=050", "hunger=200");
    assert!(decode_state(&bad.into_bytes()).is_none());
}

#[test]
fn a_flipped_key_does_not_load() {
    let m = record("Fluffy");
    let text = String::from_utf8(encode_state(&m)).expect("the record is text");
    let bad = text.replace("energy=", "enemgy=");
    assert!(decode_state(&bad.into_bytes()).is_none());
}
