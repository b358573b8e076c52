//! The interactive session's state machine. Two producers (keyboard and
//! timer) feed one ordered event stream; this module decides, for each
//! consumed event, the next state and the action the runner must take.
//! The runner performs the I/O (persisting, redrawing, resetting the slot)
//! and owns the threads; every decision is made here.

use vstd::prelude::*;

use crate::monster::{
    Monster, MessageKind, spec_feed, spec_feed_kind, spec_play, spec_play_kind, spec_time_passage,
    spec_toggle_sleep, spec_toggle_sleep_kind,
};

verus! {

/// A typed input event mapped from a key press. Unrecognized keys map to
/// nothing and are dropped, never queued.
#[derive(Clone, Copy, Debug, PartialEq, Eq, Structural)]
pub enum InputEvent {
    Feed,
    Play,
    Sleep,
    Status,
    Reset,
    Quit,
}

/// One event of the merged stream: a mapped key press or a timer tick.
#[derive(Clone, Copy, Debug, PartialEq, Eq, Structural)]
pub enum GameEvent {
    Input(InputEvent),
    Tick,
}

/// The part of a terminal key press the mapping reads.
#[derive(Clone, Copy, Debug, PartialEq, Eq, Structural)]
pub enum Key {
    Char(char),
    Esc,
    Tab,
    Other,
}

/// The modifier state of a key press: no modifier, control alone, or
/// anything else.
#[derive(Clone, Copy, Debug, PartialEq, Eq, Structural)]
pub enum Modifier {
    Plain,
    Control,
    Other,
}

/// What the runner must do after an event is consumed.
#[derive(Clone, Copy, Debug, PartialEq, Eq, Structural)]
pub enum LoopAction {
    PersistAndRedraw,
    ResetAndReload,
    Stop,
}

/// How long a transient message stays on screen, in seconds.
pub const MESSAGE_LIFETIME_SECS: u64 = 3;

/// A short-lived user-facing message and the moment it was set.
#[derive(Clone, Copy, Debug, PartialEq, Eq, Structural)]
pub struct TransientMessage {
    pub kind: MessageKind,
    pub set_at: u64,
}

/// The interactive session: the owned creature record, the quit latch and
/// the transient message, if one is active.
#[derive(Debug, Clone)]
pub struct InteractiveMode {
    pub monster: Monster,
    pub should_quit: bool,
    pub message: Option<TransientMessage>,
}

/// The key-to-event mapping of the input source.
pub open spec fn spec_map_key(key: Key, modifier: Modifier) -> Option<InputEvent> {
    match key {
        Key::Char(c) => if modifier == Modifier::Plain {
            if c == 'q' {
                Some(InputEvent::Quit)
            } else if c == 'f' {
                Some(InputEvent::Feed)
            } else if c == 'p' {
                Some(InputEvent::Play)
            } else if c == 's' {
                Some(InputEvent::Sleep)
            } else if c == 'i' {
                Some(InputEvent::Status)
            } else if c == 'r' {
                Some(InputEvent::Reset)
            } else {
                None
            }
        } else if modifier == Modifier::Control && c == 'c' {
            Some(InputEvent::Quit)
        } else {
            None
        },
        Key::Esc => if modifier == Modifier::Plain {
            Some(InputEvent::Quit)
        } else {
            None
        },
        Key::Tab => if modifier == Modifier::Plain {
            Some(InputEvent::Status)
        } else {
            None
        },
        Key::Other => None,
    }
}

/// Maps a key press to a typed input event; unrecognized presses map to
/// nothing.
pub fn handle_key_event(key: Key, modifier: Modifier) -> (r: Option<InputEvent>)
    ensures
        r == spec_map_key(key, modifier),
{
    match key {
        Key::Char(c) => {
            if modifier == Modifier::Plain {
                if c == 'q' {
                    Some(InputEvent::Quit)
                } else if c == 'f' {
                    Some(InputEvent::Feed)
                } else if c == 'p' {
                    Some(InputEvent::Play)
                } else if c == 's' {
                    Some(InputEvent::Sleep)
                } else if c == 'i' {
                    Some(InputEvent::Status)
                } else if c == 'r' {
                    Some(InputEvent::Reset)
                } else {
                    None
                }
            } else if modifier == Modifier::Control && c == 'c' {
                Some(InputEvent::Quit)
            } else {
                None
            }
        },
        Key::Esc => {
            if modifier == Modifier::Plain {
                Some(InputEvent::Quit)
            } else {
                None
            }
        },
        Key::Tab => {
            if modifier == Modifier::Plain {
                Some(InputEvent::Status)
            } else {
                None
            }
        },
        Key::Other => None,
    }
}

/// The tick transition: decay at `now`, persist, and raise an alert only if
/// no message is already active, so alerts never pre-empt one in flight.
pub open spec fn spec_tick(s: InteractiveMode, now: u64) -> InteractiveMode {
    let m2 = spec_time_passage(s.monster, now);
    let msg2 = if s.message is Some {
        s.message
    } else if !m2.is_alive {
        Some(TransientMessage { kind: MessageKind::AlertDied, set_at: now })
    } else if m2.hunger > 90 {
        Some(TransientMessage { kind: MessageKind::AlertStarving, set_at: now })
    } else if m2.health < 20 {
        Some(TransientMessage { kind: MessageKind::AlertLowHealth, set_at: now })
    } else {
        None
    };
    InteractiveMode { monster: m2, should_quit: s.should_quit, message: msg2 }
}

/// The input dispatch: the action transition, its message, and what the
/// runner does next. Quit only latches the quit flag and stops the loop.
pub open spec fn spec_handle_input(s: InteractiveMode, ev: InputEvent, now: u64, pick: u8) -> (
    InteractiveMode,
    LoopAction,
) {
    match ev {
        InputEvent::Feed => (
            InteractiveMode {
                monster: spec_feed(s.monster),
                should_quit: s.should_quit,
                message: Some(
                    TransientMessage { kind: spec_feed_kind(s.monster, pick), set_at: now },
                ),
            },
            LoopAction::PersistAndRedraw,
        ),
        InputEvent::Play => (
            InteractiveMode {
                monster: spec_play(s.monster),
                should_quit: s.should_quit,
                message: Some(
                    TransientMessage { kind: spec_play_kind(s.monster, pick), set_at: now },
                ),
            },
            LoopAction::PersistAndRedraw,
        ),
        InputEvent::Sleep => (
            InteractiveMode {
                monster: spec_toggle_sleep(s.monster),
                should_quit: s.should_quit,
                message: Some(
                    TransientMessage { kind: spec_toggle_sleep_kind(s.monster), set_at: now },
                ),
            },
            LoopAction::PersistAndRedraw,
        ),
        InputEvent::Status => (
            InteractiveMode {
                message: Some(TransientMessage { kind: MessageKind::StatusShown, set_at: now }),
                ..s
            },
            LoopAction::PersistAndRedraw,
        ),
        InputEvent::Reset => if !s.monster.is_alive {
            (
                InteractiveMode {
                    message: Some(TransientMessage { kind: MessageKind::ResetDone, set_at: now }),
                    ..s
                },
                LoopAction::ResetAndReload,
            )
        } else {
            (
                InteractiveMode {
                    message: Some(
                        TransientMessage { kind: MessageKind::ResetRefused, set_at: now },
                    ),
                    ..s
                },
                LoopAction::PersistAndRedraw,
            )
        },
        InputEvent::Quit => (InteractiveMode { should_quit: true, ..s }, LoopAction::Stop),
    }
}

/// One step of the loop: what consuming `ev` at time `now` does. `pick`
/// injects the cosmetic message choice.
pub open spec fn spec_handle_event(s: InteractiveMode, ev: GameEvent, now: u64, pick: u8) -> (
    InteractiveMode,
    LoopAction,
) {
    match ev {
        GameEvent::Tick => (spec_tick(s, now), LoopAction::PersistAndRedraw),
        GameEvent::Input(i) => spec_handle_input(s, i, now, pick),
    }
}

/// The expiry check: a message past its lifetime is cleared, anything else
/// stands still.
pub open spec fn spec_expire_message(s: InteractiveMode, now: u64) -> InteractiveMode {
    match s.message {
        Some(tm) => if now >= tm.set_at + MESSAGE_LIFETIME_SECS {
            InteractiveMode { message: None, ..s }
        } else {
            s
        },
        None => s,
    }
}

impl InteractiveMode {
    /// The session is valid when its creature record is.
    pub open spec fn wf(self) -> bool {
        self.monster.wf()
    }

    /// A fresh session owning `monster`, not quitting, with no message.
    pub fn new(monster: Monster) -> (r: InteractiveMode)
        ensures
            r.monster == monster,
            !r.should_quit,
            r.message is None,
    {
        InteractiveMode { monster, should_quit: false, message: None }
    }

    /// Replaces the owned record, as the runner does after a reset.
    pub fn install_monster(&mut self, monster: Monster)
        ensures
            *final(self) == (InteractiveMode { monster, ..*old(self) }),
    {
        self.monster = monster;
    }

    /// Sets the transient message, stamping it with `now`.
    pub fn set_message(&mut self, kind: MessageKind, now: u64)
        ensures
            *final(self) == (InteractiveMode {
                message: Some(TransientMessage { kind, set_at: now }),
                ..*old(self)
            }),
    {
        self.message = Some(TransientMessage { kind, set_at: now });
    }

    /// Consumes one event of the merged stream.
    pub fn handle_event(&mut self, ev: GameEvent, now: u64, pick: u8) -> (r: LoopAction)
        requires
            old(self).wf(),
        ensures
            final(self).wf(),
            *final(self) == spec_handle_event(*old(self), ev, now, pick).0,
            r == spec_handle_event(*old(self), ev, now, pick).1,
    {
        match ev {
            GameEvent::Tick => {
                self.monster.apply_time_passage(now);
                if self.message.is_none() {
                    if !self.monster.is_alive {
                        self.set_message(MessageKind::AlertDied, now);
                    } else if self.monster.hunger > 90 {
                        self.set_message(MessageKind::AlertStarving, now);
                    } else if self.monster.health < 20 {
                        self.set_message(MessageKind::AlertLowHealth, now);
                    }
                }
                LoopAction::PersistAndRedraw
            },
            GameEvent::Input(i) => self.handle_input(i, now, pick),
        }
    }

    /// Dispatches a typed input event to its action transition.
    pub fn handle_input(&mut self, ev: InputEvent, now: u64, pick: u8) -> (r: LoopAction)
        requires
            old(self).wf(),
        ensures
            final(self).wf(),
            *final(self) == spec_handle_input(*old(self), ev, now, pick).0,
            r == spec_handle_input(*old(self), ev, now, pick).1,
    {
        match ev {
            InputEvent::Feed => {
                let k = self.monster.feed_picked(pick);
                self.set_message(k, now);
                LoopAction::PersistAndRedraw
            },
            InputEvent::Play => {
                let k = self.monster.play_picked(pick);
                self.set_message(k, now);
                LoopAction::PersistAndRedraw
            },
            InputEvent::Sleep => {
                let k = self.monster.toggle_sleep();
                self.set_message(k, now);
                LoopAction::PersistAndRedraw
            },
            InputEvent::Status => {
                self.set_message(MessageKind::StatusShown, now);
                LoopAction::PersistAndRedraw
            },
            InputEvent::Reset => {
                if !self.monster.is_alive {
                    self.set_message(MessageKind::ResetDone, now);
                    LoopAction::ResetAndReload
                } else {
                    self.set_message(MessageKind::ResetRefused, now);
                    LoopAction::PersistAndRedraw
                }
            },
            InputEvent::Quit => {
                self.should_quit = true;
                LoopAction::Stop
            },
        }
    }

    /// Clears the transient message once it has outlived its display
    /// duration; reports whether a redraw is owed.
    pub fn check_message_expiry(&mut self, now: u64) -> (expired: bool)
        ensures
            *final(self) == spec_expire_message(*old(self), now),
            expired == match old(self).message {
                Some(tm) => now >= tm.set_at + MESSAGE_LIFETIME_SECS,
                None => false,
            },
    {
        match self.message {
            Some(tm) => {
                let expired: bool = now >= MESSAGE_LIFETIME_SECS && now - MESSAGE_LIFETIME_SECS
                    >= tm.set_at;
                if expired {
                    self.message = None;
                }
                expired
            },
            None => false,
        }
    }
}

/// A consumed Quit input deterministically ends the loop: the quit latch is
/// set, the runner is told to stop, and no redraw or persistence is owed;
/// the record and any message stand untouched.
pub proof fn lemma_quit_ends_loop(s: InteractiveMode, now: u64, pick: u8)
    ensures
        spec_handle_event(s, GameEvent::Input(InputEvent::Quit), now, pick).0.should_quit,
        spec_handle_event(s, GameEvent::Input(InputEvent::Quit), now, pick).1 == LoopAction::Stop,
        spec_handle_event(s, GameEvent::Input(InputEvent::Quit), now, pick).0.monster == s.monster,
        spec_handle_event(s, GameEvent::Input(InputEvent::Quit), now, pick).0.message == s.message,
{
}

/// The loop never revives a deceased creature either: whatever event it
/// consumes, the owned record stays deceased. Only the runner installing a
/// fresh record after a reset brings a living creature back.
pub proof fn lemma_loop_keeps_the_latch(s: InteractiveMode, ev: GameEvent, now: u64, pick: u8)
    requires
        !s.monster.is_alive,
    ensures
        !spec_handle_event(s, ev, now, pick).0.monster.is_alive,
{
    crate::monster::lemma_alive_is_a_latch(s.monster, now);
}

/// A transient message set at time `t` is absent from every state checked
/// at a time at or past `t + MESSAGE_LIFETIME_SECS`, provided no new
/// message was set in between; the frame drawn from that state shows none.
pub proof fn lemma_message_expires(s: InteractiveMode, now: u64)
    requires
        s.message matches Some(tm) && now >= tm.set_at + MESSAGE_LIFETIME_SECS,
    ensures
        spec_expire_message(s, now).message is None,
{
}

} // verus!
