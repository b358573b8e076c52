//! The presentation plan: everything a frame shows, computed as plain data.
//! The terminal writer draws exactly what the plan says; it decides nothing.

use vstd::prelude::*;

use crate::event::{InteractiveMode, TransientMessage};
use crate::monster::{Monster, MAX_STAT};
use crate::mood::{spec_mood, Mood};

verus! {

/// How many cells a full status bar has.
pub const BAR_WIDTH: u8 = 20;

/// One status bar: the percentage shown, how many of the `BAR_WIDTH` cells
/// are filled, and whether the value is high enough for the good color.
#[derive(Clone, Copy, Debug, PartialEq, Eq, Structural)]
pub struct StatBar {
    pub value: u8,
    pub filled: u8,
    pub good: bool,
}

/// The bar drawn for a stat value.
pub open spec fn spec_status_bar(value: u8) -> StatBar {
    StatBar { value, filled: ((value * BAR_WIDTH) / (MAX_STAT as int)) as u8, good: value > 60 }
}

/// Everything one status frame shows, as plain data.
#[derive(Clone, Copy, Debug, PartialEq, Eq, Structural)]
pub struct DisplayPlan {
    pub mood: Mood,
    pub fullness_bar: StatBar,
    pub happiness_bar: StatBar,
    pub health_bar: StatBar,
    pub energy_bar: StatBar,
    pub age: u32,
    pub is_sleeping: bool,
    pub is_alive: bool,
    pub warn_hungry: bool,
    pub warn_sad: bool,
    pub warn_tired: bool,
    pub warn_sick: bool,
}

/// The frame plan for a creature record. The hunger bar shows fullness,
/// the hunger complement.
pub open spec fn spec_display_plan(m: Monster) -> DisplayPlan {
    DisplayPlan {
        mood: spec_mood(m),
        fullness_bar: spec_status_bar((MAX_STAT - m.hunger) as u8),
        happiness_bar: spec_status_bar(m.happiness),
        health_bar: spec_status_bar(m.health),
        energy_bar: spec_status_bar(m.energy),
        age: m.age,
        is_sleeping: m.is_sleeping,
        is_alive: m.is_alive,
        warn_hungry: m.hunger > 70,
        warn_sad: m.happiness < 30,
        warn_tired: m.energy < 20,
        warn_sick: m.health < 50,
    }
}

/// Computes one status bar.
pub fn status_bar(value: u8) -> (r: StatBar)
    requires
        value <= MAX_STAT,
    ensures
        r == spec_status_bar(value),
        r.filled <= BAR_WIDTH,
{
    let filled: u16 = (value as u16 * (BAR_WIDTH as u16)) / (MAX_STAT as u16);
    StatBar { value, filled: filled as u8, good: value > 60 }
}

impl Monster {
    /// Computes the frame plan the presentation port draws for this record.
    pub fn display(&self) -> (r: DisplayPlan)
        requires
            self.wf(),
        ensures
            r == spec_display_plan(*self),
    {
        DisplayPlan {
            mood: self.get_mood(),
            fullness_bar: status_bar(MAX_STAT - self.hunger),
            happiness_bar: status_bar(self.happiness),
            health_bar: status_bar(self.health),
            energy_bar: status_bar(self.energy),
            age: self.age,
            is_sleeping: self.is_sleeping,
            is_alive: self.is_alive,
            warn_hungry: self.hunger > 70,
            warn_sad: self.happiness < 30,
            warn_tired: self.energy < 20,
            warn_sick: self.health < 50,
        }
    }
}

/// The face drawn for a mood: left eye, mouth, right eye. Deceased and
/// sleeping creatures get fixed art chosen by the writer from the plan's
/// flags instead.
pub open spec fn spec_face(mood: Mood) -> (char, char, char) {
    match mood {
        Mood::Ecstatic => ('◕', '‿', '◕'),
        Mood::Happy => ('^', '‿', '^'),
        Mood::Content => ('•', '‿', '•'),
        Mood::Okay => ('•', '_', '•'),
        Mood::Sad => ('•', '︵', '•'),
        Mood::VerySad => ('╥', '﹏', '╥'),
        Mood::Critical => ('x', '_', 'x'),
        _ => ('•', '‿', '•'),
    }
}

/// The face characters for a mood.
pub fn face_chars(mood: Mood) -> (r: (char, char, char))
    ensures
        r == spec_face(mood),
{
    match mood {
        Mood::Ecstatic => ('◕', '‿', '◕'),
        Mood::Happy => ('^', '‿', '^'),
        Mood::Content => ('•', '‿', '•'),
        Mood::Okay => ('•', '_', '•'),
        Mood::Sad => ('•', '︵', '•'),
        Mood::VerySad => ('╥', '﹏', '╥'),
        Mood::Critical => ('x', '_', 'x'),
        Mood::Dead => ('•', '‿', '•'),
        Mood::Sleeping => ('•', '‿', '•'),
    }
}

/// One interactive frame: the status plan plus the transient message shown
/// under it, if one is active.
#[derive(Clone, Copy, Debug, PartialEq, Eq)]
pub struct Frame {
    pub plan: DisplayPlan,
    pub message: Option<TransientMessage>,
}

impl InteractiveMode {
    /// Computes the frame the interactive screen draws: the status plan and
    /// exactly the active transient message.
    pub fn draw_interface(&self) -> (r: Frame)
        requires
            self.wf(),
        ensures
            r.plan == spec_display_plan(self.monster),
            r.message == self.message,
    {
        Frame { plan: self.monster.display(), message: self.message }
    }
}

} // verus!
