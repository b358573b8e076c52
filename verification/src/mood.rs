//! The derived mood of a creature: an average of the four vitality stats
//! bucketed into seven ordered bands, with fixed label and emoji pairs.
//! The mood is recomputed from the record, never stored.

use vstd::prelude::*;

use crate::monster::{Monster, MAX_STAT};

verus! {

/// The mood a creature shows: deceased and sleeping short-circuit the
/// banding; the seven remaining variants are the ordered bands.
#[derive(Clone, Copy, Debug, PartialEq, Eq, Structural)]
pub enum Mood {
    Dead,
    Sleeping,
    Ecstatic,
    Happy,
    Content,
    Okay,
    Sad,
    VerySad,
    Critical,
}

/// The average the banding works on: happiness, fullness (the hunger
/// complement), health and energy, divided by four.
pub open spec fn spec_avg_stat(m: Monster) -> int {
    (m.happiness + (MAX_STAT - m.hunger) + m.health + m.energy) / 4
}

/// The band an average falls in.
pub open spec fn spec_mood_band(avg: int) -> Mood {
    if 90 <= avg {
        Mood::Ecstatic
    } else if 75 <= avg {
        Mood::Happy
    } else if 60 <= avg {
        Mood::Content
    } else if 45 <= avg {
        Mood::Okay
    } else if 30 <= avg {
        Mood::Sad
    } else if 15 <= avg {
        Mood::VerySad
    } else {
        Mood::Critical
    }
}

/// The mood of a creature.
pub open spec fn spec_mood(m: Monster) -> Mood {
    if !m.is_alive {
        Mood::Dead
    } else if m.is_sleeping {
        Mood::Sleeping
    } else {
        spec_mood_band(spec_avg_stat(m))
    }
}

/// The fixed label of each mood.
pub open spec fn spec_mood_label(mood: Mood) -> Seq<char> {
    match mood {
        Mood::Dead => "Dead"@,
        Mood::Sleeping => "Sleeping"@,
        Mood::Ecstatic => "Ecstatic"@,
        Mood::Happy => "Happy"@,
        Mood::Content => "Content"@,
        Mood::Okay => "Okay"@,
        Mood::Sad => "Sad"@,
        Mood::VerySad => "Very Sad"@,
        Mood::Critical => "Critical"@,
    }
}

/// The fixed emoji of each mood.
pub open spec fn spec_mood_emoji(mood: Mood) -> Seq<char> {
    match mood {
        Mood::Dead => "💀"@,
        Mood::Sleeping => "😴"@,
        Mood::Ecstatic => "😁"@,
        Mood::Happy => "😊"@,
        Mood::Content => "🙂"@,
        Mood::Okay => "😐"@,
        Mood::Sad => "☹️"@,
        Mood::VerySad => "😢"@,
        Mood::Critical => "😵"@,
    }
}

impl Monster {
    /// The creature's current mood.
    pub fn get_mood(&self) -> (r: Mood)
        requires
            self.wf(),
        ensures
            r == spec_mood(*self),
    {
        if !self.is_alive {
            return Mood::Dead;
        }
        if self.is_sleeping {
            return Mood::Sleeping;
        }
        let avg: u16 = (self.happiness as u16 + (MAX_STAT - self.hunger) as u16 + self.health
            as u16 + self.energy as u16) / 4;
        if avg >= 90 {
            Mood::Ecstatic
        } else if avg >= 75 {
            Mood::Happy
        } else if avg >= 60 {
            Mood::Content
        } else if avg >= 45 {
            Mood::Okay
        } else if avg >= 30 {
            Mood::Sad
        } else if avg >= 15 {
            Mood::VerySad
        } else {
            Mood::Critical
        }
    }
}

/// The label shown for a mood.
pub fn mood_label(mood: Mood) -> (r: &'static str)
    ensures
        r@ == spec_mood_label(mood),
{
    match mood {
        Mood::Dead => "Dead",
        Mood::Sleeping => "Sleeping",
        Mood::Ecstatic => "Ecstatic",
        Mood::Happy => "Happy",
        Mood::Content => "Content",
        Mood::Okay => "Okay",
        Mood::Sad => "Sad",
        Mood::VerySad => "Very Sad",
        Mood::Critical => "Critical",
    }
}

/// The emoji shown for a mood.
pub fn mood_emoji(mood: Mood) -> (r: &'static str)
    ensures
        r@ == spec_mood_emoji(mood),
{
    match mood {
        Mood::Dead => "💀",
        Mood::Sleeping => "😴",
        Mood::Ecstatic => "😁",
        Mood::Happy => "😊",
        Mood::Content => "🙂",
        Mood::Okay => "😐",
        Mood::Sad => "☹️",
        Mood::VerySad => "😢",
        Mood::Critical => "😵",
    }
}

/// A well-formed creature's banding average lies in `[0, MAX_STAT]`.
pub proof fn lemma_avg_stat_in_range(m: Monster)
    requires
        m.wf(),
    ensures
        0 <= spec_avg_stat(m) <= MAX_STAT,
{
}

/// Mood banding is total and exhaustive: every integer average in
/// `[0, 100]` falls in exactly one of the seven bands, with no gaps and no
/// overlaps.
pub proof fn lemma_mood_band_partition(avg: int)
    requires
        0 <= avg <= 100,
    ensures
        (spec_mood_band(avg) == Mood::Ecstatic <==> 90 <= avg <= 100),
        (spec_mood_band(avg) == Mood::Happy <==> 75 <= avg < 90),
        (spec_mood_band(avg) == Mood::Content <==> 60 <= avg < 75),
        (spec_mood_band(avg) == Mood::Okay <==> 45 <= avg < 60),
        (spec_mood_band(avg) == Mood::Sad <==> 30 <= avg < 45),
        (spec_mood_band(avg) == Mood::VerySad <==> 15 <= avg < 30),
        (spec_mood_band(avg) == Mood::Critical <==> 0 <= avg < 15),
{
}

} // verus!
