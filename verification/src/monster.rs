//! The creature record and its transitions: time-driven decay and the
//! user-triggered actions. Every transition keeps the vitality stats inside
//! `[0, MAX_STAT]` and never revives a deceased creature.

use vstd::prelude::*;

verus! {

/// Upper bound, inclusive, of every vitality stat.
pub const MAX_STAT: u8 = 100;

/// Hunger gained (awake) per elapsed hour, before clamping.
pub const STAT_DECAY_RATE: u8 = 2;

/// Energy regained per elapsed hour while sleeping, halved before use.
pub const SLEEP_RECOVERY_RATE: u8 = 10;

/// Longest absence, in hours, that a single decay step accounts for.
pub const MAX_HOURS: u32 = 1000;

/// How many flavor variants a successful feeding can report.
pub const FOOD_COUNT: u8 = 5;

/// How many activity variants a successful play can report.
pub const ACTIVITY_COUNT: u8 = 5;

/// The persistent creature record. Timestamps are whole seconds since the
/// Unix epoch; `age` counts elapsed hours.
#[derive(Debug, Clone)]
pub struct Monster {
    pub name: String,
    pub hunger: u8,
    pub happiness: u8,
    pub energy: u8,
    pub health: u8,
    pub age: u32,
    pub is_sleeping: bool,
    pub is_alive: bool,
    pub last_updated: u64,
}

/// What a transition or the event loop reports back to the user. The
/// numeric payloads choose one of the fixed cosmetic text variants.
#[derive(Clone, Copy, Debug, PartialEq, Eq, Structural)]
pub enum MessageKind {
    Deceased,
    SleepingRefusal,
    TooFull,
    Fed { flavor: u8 },
    TooTired,
    TooHungry,
    Played { activity: u8 },
    FellAsleep,
    WokeUp,
    StatusShown,
    ResetDone,
    ResetRefused,
    AlertDied,
    AlertStarving,
    AlertLowHealth,
}

pub open spec fn imin(a: int, b: int) -> int {
    if a <= b {
        a
    } else {
        b
    }
}

pub open spec fn imax(a: int, b: int) -> int {
    if a >= b {
        a
    } else {
        b
    }
}

impl Monster {
    /// All four vitality stats are inside the valid band.
    pub open spec fn wf(self) -> bool {
        self.hunger <= MAX_STAT && self.happiness <= MAX_STAT && self.energy <= MAX_STAT
            && self.health <= MAX_STAT
    }
}

/// Whole hours elapsed between the last update and `now`, clamped to
/// `MAX_HOURS`; zero when the clock did not move forward.
pub open spec fn spec_hours_clamped(last: u64, now: u64) -> int {
    if now > last {
        imin((now - last) / 3600, MAX_HOURS as int)
    } else {
        0
    }
}

/// Stat decay for `h` elapsed hours, capped at `MAX_STAT`.
pub open spec fn spec_decay(h: int) -> int {
    imin(h * STAT_DECAY_RATE, MAX_STAT as int)
}

/// Energy recovered while sleeping for `h` elapsed hours, capped at `MAX_STAT`.
pub open spec fn spec_recovery(h: int) -> int {
    imin((h * SLEEP_RECOVERY_RATE) / 2, MAX_STAT as int)
}

/// The decay transition. With no whole hour elapsed only `last_updated` is
/// refreshed, and never backwards. Otherwise age grows by the clamped hours,
/// hunger/happiness/energy move by the decay amounts (recovery while
/// sleeping), health drops while the creature is endangered, and a health of
/// zero latches `is_alive` to false.
pub open spec fn spec_time_passage(m: Monster, now: u64) -> Monster {
    let h = spec_hours_clamped(m.last_updated, now);
    if h < 1 {
        Monster {
            last_updated: if now > m.last_updated {
                now
            } else {
                m.last_updated
            },
            ..m
        }
    } else {
        let decay = spec_decay(h);
        let recovery = spec_recovery(h);
        let hunger2 = if m.is_sleeping {
            imin(m.hunger + decay / 2, MAX_STAT as int) as u8
        } else {
            imin(m.hunger + decay, MAX_STAT as int) as u8
        };
        let happiness2 = if m.is_sleeping {
            m.happiness
        } else {
            imax(m.happiness - decay / 2, 1) as u8
        };
        let energy2 = if m.is_sleeping {
            imin(m.energy + recovery, MAX_STAT as int) as u8
        } else {
            imax(m.energy - decay, 0) as u8
        };
        let endangered = hunger2 > 80 || happiness2 < 20 || energy2 < 10;
        let health2 = if endangered {
            imax(m.health - imax(decay * 2, 1), 0) as u8
        } else {
            m.health
        };
        Monster {
            hunger: hunger2,
            happiness: happiness2,
            energy: energy2,
            health: health2,
            age: imin(m.age + h, u32::MAX as int) as u32,
            is_alive: if health2 == 0 {
                false
            } else {
                m.is_alive
            },
            last_updated: now,
            ..m
        }
    }
}

/// The feed transition: refused while deceased or sleeping; a creature that
/// is already full loses a little happiness instead of eating; otherwise
/// hunger drops and happiness and health rise, all clamped.
pub open spec fn spec_feed(m: Monster) -> Monster {
    if !m.is_alive || m.is_sleeping {
        m
    } else if m.hunger <= 20 {
        Monster { happiness: imax(m.happiness - 5, 0) as u8, ..m }
    } else {
        Monster {
            hunger: imax(m.hunger - 25, 0) as u8,
            happiness: imin(m.happiness + 10, MAX_STAT as int) as u8,
            health: imin(m.health + 5, MAX_STAT as int) as u8,
            ..m
        }
    }
}

/// Which message feeding reports, given the picker's choice.
pub open spec fn spec_feed_kind(m: Monster, pick: u8) -> MessageKind {
    if !m.is_alive {
        MessageKind::Deceased
    } else if m.is_sleeping {
        MessageKind::SleepingRefusal
    } else if m.hunger <= 20 {
        MessageKind::TooFull
    } else {
        MessageKind::Fed { flavor: (pick % FOOD_COUNT) as u8 }
    }
}

/// The play transition: refused while deceased, sleeping, too tired or too
/// hungry; otherwise happiness rises and energy drops, with a small hunger
/// cost, all clamped.
pub open spec fn spec_play(m: Monster) -> Monster {
    if !m.is_alive || m.is_sleeping {
        m
    } else if m.energy < 20 || m.hunger > 80 {
        m
    } else {
        Monster {
            happiness: imin(m.happiness + 20, MAX_STAT as int) as u8,
            energy: imax(m.energy - 15, 0) as u8,
            hunger: imin(m.hunger + 5, MAX_STAT as int) as u8,
            ..m
        }
    }
}

/// Which message playing reports, given the picker's choice.
pub open spec fn spec_play_kind(m: Monster, pick: u8) -> MessageKind {
    if !m.is_alive {
        MessageKind::Deceased
    } else if m.is_sleeping {
        MessageKind::SleepingRefusal
    } else if m.energy < 20 {
        MessageKind::TooTired
    } else if m.hunger > 80 {
        MessageKind::TooHungry
    } else {
        MessageKind::Played { activity: (pick % ACTIVITY_COUNT) as u8 }
    }
}

/// The sleep toggle: refused while deceased, otherwise flips `is_sleeping`.
pub open spec fn spec_toggle_sleep(m: Monster) -> Monster {
    if !m.is_alive {
        m
    } else {
        Monster { is_sleeping: !m.is_sleeping, ..m }
    }
}

/// Which message the sleep toggle reports.
pub open spec fn spec_toggle_sleep_kind(m: Monster) -> MessageKind {
    if !m.is_alive {
        MessageKind::Deceased
    } else if !m.is_sleeping {
        MessageKind::FellAsleep
    } else {
        MessageKind::WokeUp
    }
}

/// A freshly hatched creature with the default stats.
pub open spec fn spec_new(name: String, now: u64) -> Monster {
    Monster {
        name,
        hunger: 50,
        happiness: 70,
        energy: 80,
        health: 100,
        age: 0,
        is_sleeping: false,
        is_alive: true,
        last_updated: now,
    }
}

/// The name a blank hatching request falls back to.
pub open spec fn spec_default_name() -> Seq<char> {
    "Fluffy"@
}

impl Monster {
    /// A fresh creature named `name`, hatched at the given moment.
    pub fn new_at(name: String, now: u64) -> (r: Monster)
        ensures
            r == spec_new(name, now),
            r.wf(),
    {
        Monster {
            name,
            hunger: 50,
            happiness: 70,
            energy: 80,
            health: 100,
            age: 0,
            is_sleeping: false,
            is_alive: true,
            last_updated: now,
        }
    }

    /// A fresh creature named `name`, hatched now (by the wall clock).
    pub fn new(name: String) -> (r: Monster)
        ensures
            exists|t: u64| r == #[trigger] spec_new(name, t),
            r.wf(),
            r.is_alive,
    {
        let now: u64 = now_seconds();
        let r = Monster::new_at(name, now);
        proof {
            assert(r == spec_new(name, now));
        }
        r
    }

    /// A fresh creature for the given request: a blank name falls back to
    /// the default name.
    pub fn hatch(name: String, now: u64) -> (r: Monster)
        ensures
            r.name@ == if name@.len() == 0 {
                spec_default_name()
            } else {
                name@
            },
            r.hunger == 50 && r.happiness == 70 && r.energy == 80 && r.health == 100,
            r.age == 0 && !r.is_sleeping && r.is_alive,
            r.last_updated == now,
            r.wf(),
    {
        if name.as_str().is_empty() {
            Monster::new_at("Fluffy".to_owned(), now)
        } else {
            Monster::new_at(name, now)
        }
    }

    /// The decay transition at the moment `now`.
    pub fn apply_time_passage(&mut self, now: u64)
        requires
            old(self).wf(),
        ensures
            *final(self) == spec_time_passage(*old(self), now),
            final(self).wf(),
    {
        if now > self.last_updated {
            let hours_total: u64 = (now - self.last_updated) / 3600;
            if hours_total >= 1 {
                let h: u32 = if hours_total > (MAX_HOURS as u64) {
                    MAX_HOURS
                } else {
                    hours_total as u32
                };
                let d32: u32 = h * (STAT_DECAY_RATE as u32);
                let decay: u8 = if d32 > (MAX_STAT as u32) {
                    MAX_STAT
                } else {
                    d32 as u8
                };
                let r32: u32 = (h * (SLEEP_RECOVERY_RATE as u32)) / 2;
                let recovery: u8 = if r32 > (MAX_STAT as u32) {
                    MAX_STAT
                } else {
                    r32 as u8
                };
                self.age = if self.age > u32::MAX - h {
                    u32::MAX
                } else {
                    self.age + h
                };
                if self.is_sleeping {
                    let e: u8 = self.energy + recovery;
                    self.energy = if e > MAX_STAT {
                        MAX_STAT
                    } else {
                        e
                    };
                    let hu: u8 = self.hunger + decay / 2;
                    self.hunger = if hu > MAX_STAT {
                        MAX_STAT
                    } else {
                        hu
                    };
                } else {
                    let hu: u8 = self.hunger + decay;
                    self.hunger = if hu > MAX_STAT {
                        MAX_STAT
                    } else {
                        hu
                    };
                    let hd: u8 = decay / 2;
                    self.happiness = if self.happiness >= hd + 1 {
                        self.happiness - hd
                    } else {
                        1
                    };
                    self.energy = if self.energy >= decay {
                        self.energy - decay
                    } else {
                        0
                    };
                }
                if self.hunger > 80 || self.happiness < 20 || self.energy < 10 {
                    let dbl: u8 = decay * 2;
                    let dd: u8 = if dbl >= 1 {
                        dbl
                    } else {
                        1
                    };
                    self.health = if self.health >= dd {
                        self.health - dd
                    } else {
                        0
                    };
                }
                if self.health == 0 {
                    self.is_alive = false;
                }
                self.last_updated = now;
            } else {
                self.last_updated = now;
            }
        }
    }

    /// The decay transition at the wall clock's current moment. Clock
    /// readings before the epoch count as the epoch itself.
    pub fn update_from_time_passage(&mut self)
        requires
            old(self).wf(),
        ensures
            final(self).wf(),
            exists|t: u64| *final(self) == #[trigger] spec_time_passage(*old(self), t),
            final(self).last_updated >= old(self).last_updated,
            final(self).age >= old(self).age,
            !old(self).is_alive ==> !final(self).is_alive,
    {
        let now: u64 = now_seconds();
        proof {
            lemma_time_passage_monotone(*self, now);
        }
        self.apply_time_passage(now);
        proof {
            assert(*self == spec_time_passage(*old(self), now));
        }
    }

    /// The feed action with an explicit flavor choice, so that callers can
    /// inject a deterministic picker.
    pub fn feed_picked(&mut self, pick: u8) -> (r: MessageKind)
        requires
            old(self).wf(),
        ensures
            *final(self) == spec_feed(*old(self)),
            final(self).wf(),
            r == spec_feed_kind(*old(self), pick),
    {
        if !self.is_alive {
            return MessageKind::Deceased;
        }
        if self.is_sleeping {
            return MessageKind::SleepingRefusal;
        }
        if self.hunger <= 20 {
            self.happiness = if self.happiness >= 5 {
                self.happiness - 5
            } else {
                0
            };
            return MessageKind::TooFull;
        }
        self.hunger = if self.hunger >= 25 {
            self.hunger - 25
        } else {
            0
        };
        let hap: u8 = self.happiness + 10;
        self.happiness = if hap > MAX_STAT {
            MAX_STAT
        } else {
            hap
        };
        let hea: u8 = self.health + 5;
        self.health = if hea > MAX_STAT {
            MAX_STAT
        } else {
            hea
        };
        MessageKind::Fed { flavor: pick % FOOD_COUNT }
    }

    /// The feed action with a randomly chosen flavor.
    pub fn feed(&mut self) -> (r: MessageKind)
        requires
            old(self).wf(),
        ensures
            *final(self) == spec_feed(*old(self)),
            final(self).wf(),
            exists|p: u8| r == #[trigger] spec_feed_kind(*old(self), p),
    {
        let p: usize = crate::ports::pick_index(FOOD_COUNT as usize);
        let r = self.feed_picked(p as u8);
        proof {
            assert(r == spec_feed_kind(*old(self), p as u8));
        }
        r
    }

    /// The play action with an explicit activity choice.
    pub fn play_picked(&mut self, pick: u8) -> (r: MessageKind)
        requires
            old(self).wf(),
        ensures
            *final(self) == spec_play(*old(self)),
            final(self).wf(),
            r == spec_play_kind(*old(self), pick),
    {
        if !self.is_alive {
            return MessageKind::Deceased;
        }
        if self.is_sleeping {
            return MessageKind::SleepingRefusal;
        }
        if self.energy < 20 {
            return MessageKind::TooTired;
        }
        if self.hunger > 80 {
            return MessageKind::TooHungry;
        }
        let hap: u8 = self.happiness + 20;
        self.happiness = if hap > MAX_STAT {
            MAX_STAT
        } else {
            hap
        };
        self.energy = if self.energy >= 15 {
            self.energy - 15
        } else {
            0
        };
        let hu: u8 = self.hunger + 5;
        self.hunger = if hu > MAX_STAT {
            MAX_STAT
        } else {
            hu
        };
        MessageKind::Played { activity: pick % ACTIVITY_COUNT }
    }

    /// The play action with a randomly chosen activity.
    pub fn play(&mut self) -> (r: MessageKind)
        requires
            old(self).wf(),
        ensures
            *final(self) == spec_play(*old(self)),
            final(self).wf(),
            exists|p: u8| r == #[trigger] spec_play_kind(*old(self), p),
    {
        let p: usize = crate::ports::pick_index(ACTIVITY_COUNT as usize);
        let r = self.play_picked(p as u8);
        proof {
            assert(r == spec_play_kind(*old(self), p as u8));
        }
        r
    }

    /// The sleep toggle.
    pub fn toggle_sleep(&mut self) -> (r: MessageKind)
        requires
            old(self).wf(),
        ensures
            *final(self) == spec_toggle_sleep(*old(self)),
            final(self).wf(),
            r == spec_toggle_sleep_kind(*old(self)),
    {
        if !self.is_alive {
            return MessageKind::Deceased;
        }
        self.is_sleeping = !self.is_sleeping;
        if self.is_sleeping {
            MessageKind::FellAsleep
        } else {
            MessageKind::WokeUp
        }
    }
}

/// Reads the wall clock; a reading before the epoch counts as the epoch.
pub fn now_seconds() -> (r: u64) {
    let t: i64 = crate::ports::clock_now_seconds();
    if t < 0 {
        0
    } else {
        t as u64
    }
}

/// Every transition keeps all four vitality stats inside `[0, MAX_STAT]`.
pub proof fn lemma_transitions_keep_stats_in_range(m: Monster, now: u64)
    requires
        m.wf(),
    ensures
        spec_time_passage(m, now).wf(),
        spec_feed(m).wf(),
        spec_play(m).wf(),
        spec_toggle_sleep(m).wf(),
{
}

/// `is_alive` is a one-way latch: no transition revives a deceased
/// creature; only hatching a fresh record is alive again.
pub proof fn lemma_alive_is_a_latch(m: Monster, now: u64)
    requires
        !m.is_alive,
    ensures
        !spec_time_passage(m, now).is_alive,
        !spec_feed(m).is_alive,
        !spec_play(m).is_alive,
        !spec_toggle_sleep(m).is_alive,
{
}

/// The decay transition never decreases `age` and never moves
/// `last_updated` backwards; in particular, with no whole hour elapsed the
/// stats and the age stand still.
pub proof fn lemma_time_passage_monotone(m: Monster, now: u64)
    requires
        m.wf(),
    ensures
        spec_time_passage(m, now).age >= m.age,
        spec_time_passage(m, now).last_updated >= m.last_updated,
        !m.is_alive ==> !spec_time_passage(m, now).is_alive,
        spec_hours_clamped(m.last_updated, now) < 1 ==> {
            let m2 = spec_time_passage(m, now);
            m2.age == m.age && m2.hunger == m.hunger && m2.happiness == m.happiness && m2.energy
                == m.energy && m2.health == m.health && m2.is_alive == m.is_alive
                && m2.is_sleeping == m.is_sleeping && m2.last_updated >= m.last_updated
        },
{
}

} // verus!
