use mons_box::monster::Monster;
use mons_box::mood::{mood_emoji, mood_label, Mood};
use mons_box::render::{face_chars, status_bar};

fn with_avg(v: u8) -> Monster {
    // happiness, fullness (100 - hunger), health and energy all equal v,
    // so the banding average is exactly v.
    Monster {
        name: "Avg".to_string(),
        hunger: 100 - v,
        happiness: v,
        energy: v,
        health: v,
        age: 0,
        is_sleeping: false,
        is_alive: true,
        last_updated: 0,
    }
}

#[test]
fn mood_bands_cover_every_boundary() {
    let cases: [(u8, Mood); 14] = [
        (0, Mood::Critical),
        (14, Mood::Critical),
        (15, Mood::VerySad),
        (29, Mood::VerySad),
        (30, Mood::Sad),
        (44, Mood::Sad),
        (45, Mood::Okay),
        (59, Mood::Okay),
        (60, Mood::Content),
        (74, Mood::Content),
        (75, Mood::Happy),
        (89, Mood::Happy),
        (90, Mood::Ecstatic),
        (100, Mood::Ecstatic),
    ];
    for (v, want) in cases {
        let m = with_avg(v);
        assert_eq!(m.get_mood(), want, "average {}", v);
    }
}

#[test]
fn every_average_maps_to_exactly_one_band() {
    for v in 0u8..=100 {
        let m = with_avg(v);
        let mood = m.get_mood();
        let expected = match v {
            90..=100 => Mood::Ecstatic,
            75..=89 => Mood::Happy,
            60..=74 => Mood::Content,
            45..=59 => Mood::Okay,
            30..=44 => Mood::Sad,
            15..=29 => Mood::VerySad,
            _ => Mood::Critical,
        };
        assert_eq!(mood, expected, "average {}", v);
    }
}

#[test]
fn dead_and_sleeping_short_circuit_the_banding() {
    let mut m = with_avg(100);
    m.is_alive = false;
    assert_eq!(m.get_mood(), Mood::Dead);
    let mut s = with_avg(100);
    s.is_sleeping = true;
    assert_eq!(s.get_mood(), Mood::Sleeping);
}

#[test]
fn labels_and_emoji_are_fixed_pairs() {
    assert_eq!(mood_label(Mood::Dead), "Dead");
    assert_eq!(mood_label(Mood::Sleeping), "Sleeping");
    assert_eq!(mood_label(Mood::Ecstatic), "Ecstatic");
    assert_eq!(mood_label(Mood::VerySad), "Very Sad");
    assert_eq!(mood_label(Mood::Critical), "Critical");
    assert_eq!(mood_emoji(Mood::Ecstatic), "😁");
    assert_eq!(mood_emoji(Mood::Dead), "💀");
}

#[test]
fn status_bar_fill_is_proportional() {
    assert_eq!(status_bar(100).filled, 20);
    assert_eq!(status_bar(50).filled, 10);
    assert_eq!(status_bar(0).filled, 0);
    assert_eq!(status_bar(99).filled, 19);
    assert!(status_bar(61).good);
    assert!(!status_bar(60).good);
}

#[test]
fn display_plan_reports_the_warnings() {
    let m = Monster {
        name: "Warn".to_string(),
        hunger: 71,
        happiness: 29,
        energy: 19,
        health: 49,
        age: 3,
        is_sleeping: false,
        is_alive: true,
        last_updated: 0,
    };
    let p = m.display();
    assert!(p.warn_hungry && p.warn_sad && p.warn_tired && p.warn_sick);
    assert_eq!(p.fullness_bar.value, 29);
    assert_eq!(p.age, 3);
    let ok = Monster {
        name: "Fine".to_string(),
        hunger: 70,
        happiness: 30,
        energy: 20,
        health: 50,
        age: 0,
        is_sleeping: false,
        is_alive: true,
        last_updated: 0,
    };
    let q = ok.display();
    assert!(!q.warn_hungry && !q.warn_sad && !q.warn_tired && !q.warn_sick);
}

#[test]
fn faces_follow_the_mood() {
    assert_eq!(face_chars(Mood::Ecstatic), ('◕', '‿', '◕'));
    assert_eq!(face_chars(Mood::Critical), ('x', '_', 'x'));
    assert_eq!(face_chars(Mood::Okay), ('•', '_', '•'));
}
