//! The input snapshot: which logical keys are held, freshly pressed or
//! absent, and the once-per-tick resolution of the snapshot into discrete
//! movement intents. Conflicting keys held together cancel to no intent.

use vstd::prelude::*;
use crate::components::{Controllable, Horizontal, Vertical};

verus! {

/// The logical keys the simulation reads.
#[derive(Clone, Copy, Debug, PartialEq, Eq, Structural)]
pub enum Key {
    W,
    A,
    S,
    D,
    J,
}

/// How one key stands in the snapshot.
#[derive(Clone, Copy, Debug, PartialEq, Eq, Structural)]
pub enum KeyHold {
    /// Not held.
    Absent,
    /// Pressed since the last tick resolved.
    Fresh,
    /// Held since before the last tick resolved.
    Stale,
}

impl KeyHold {
    /// The key is down in any way.
    pub open spec fn held(self) -> bool {
        self != KeyHold::Absent
    }

    /// `Fresh` ages to `Stale`; the others stay.
    pub open spec fn aged(self) -> KeyHold {
        if self == KeyHold::Fresh {
            KeyHold::Stale
        } else {
            self
        }
    }
}

/// The currently-held keys, accumulated from key events and consumed once
/// per tick.
#[derive(Clone, Copy, Debug, PartialEq, Eq, Structural)]
pub struct Keys {
    pub w: KeyHold,
    pub a: KeyHold,
    pub s: KeyHold,
    pub d: KeyHold,
    pub j: KeyHold,
}

/// The vertical intent of the snapshot: both keys held cancel out.
pub open spec fn spec_vertical(keys: Keys) -> Vertical {
    if keys.w.held() && keys.s.held() {
        Vertical::Neither
    } else if keys.w.held() {
        Vertical::Up
    } else if keys.s.held() {
        Vertical::Down
    } else {
        Vertical::Neither
    }
}

/// The horizontal intent of the snapshot: both keys held cancel out.
pub open spec fn spec_horizontal(keys: Keys) -> Horizontal {
    if keys.a.held() && keys.d.held() {
        Horizontal::Neither
    } else if keys.a.held() {
        Horizontal::Left
    } else if keys.d.held() {
        Horizontal::Right
    } else {
        Horizontal::Neither
    }
}

impl Keys {
    /// Nothing held.
    pub fn new() -> (r: Keys)
        ensures
            r == (Keys {
                w: KeyHold::Absent,
                a: KeyHold::Absent,
                s: KeyHold::Absent,
                d: KeyHold::Absent,
                j: KeyHold::Absent,
            }),
    {
        Keys {
            w: KeyHold::Absent,
            a: KeyHold::Absent,
            s: KeyHold::Absent,
            d: KeyHold::Absent,
            j: KeyHold::Absent,
        }
    }

    pub open spec fn spec_get(self, key: Key) -> KeyHold {
        match key {
            Key::W => self.w,
            Key::A => self.a,
            Key::S => self.s,
            Key::D => self.d,
            Key::J => self.j,
        }
    }

    /// The snapshot with one key replaced.
    pub open spec fn spec_set(self, key: Key, v: KeyHold) -> Keys {
        match key {
            Key::W => Keys { w: v, ..self },
            Key::A => Keys { a: v, ..self },
            Key::S => Keys { s: v, ..self },
            Key::D => Keys { d: v, ..self },
            Key::J => Keys { j: v, ..self },
        }
    }

    /// A key-down event: the key becomes freshly pressed.
    pub fn press(&mut self, key: Key)
        ensures
            *final(self) == old(self).spec_set(key, KeyHold::Fresh),
    {
        match key {
            Key::W => self.w = KeyHold::Fresh,
            Key::A => self.a = KeyHold::Fresh,
            Key::S => self.s = KeyHold::Fresh,
            Key::D => self.d = KeyHold::Fresh,
            Key::J => self.j = KeyHold::Fresh,
        }
    }

    /// A key-up event: the key is no longer held.
    pub fn release(&mut self, key: Key)
        ensures
            *final(self) == old(self).spec_set(key, KeyHold::Absent),
    {
        match key {
            Key::W => self.w = KeyHold::Absent,
            Key::A => self.a = KeyHold::Absent,
            Key::S => self.s = KeyHold::Absent,
            Key::D => self.d = KeyHold::Absent,
            Key::J => self.j = KeyHold::Absent,
        }
    }

    /// Resolves the snapshot into this tick's intents and consumes the
    /// transient state: the pickup action fires only on a fresh press, and
    /// every fresh key ages to a held one.
    pub fn resolve(&mut self) -> (r: Controllable)
        ensures
            r.vertical == spec_vertical(*old(self)),
            r.horizontal == spec_horizontal(*old(self)),
            r.pick_up == (old(self).j == KeyHold::Fresh),
            final(self).w == old(self).w.aged(),
            final(self).a == old(self).a.aged(),
            final(self).s == old(self).s.aged(),
            final(self).d == old(self).d.aged(),
            final(self).j == old(self).j.aged(),
    {
        let vertical = if self.w != KeyHold::Absent && self.s != KeyHold::Absent {
            Vertical::Neither
        } else if self.w != KeyHold::Absent {
            Vertical::Up
        } else if self.s != KeyHold::Absent {
            Vertical::Down
        } else {
            Vertical::Neither
        };
        let horizontal = if self.a != KeyHold::Absent && self.d != KeyHold::Absent {
            Horizontal::Neither
        } else if self.a != KeyHold::Absent {
            Horizontal::Left
        } else if self.d != KeyHold::Absent {
            Horizontal::Right
        } else {
            Horizontal::Neither
        };
        let pick_up = self.j == KeyHold::Fresh;
        if self.w == KeyHold::Fresh {
            self.w = KeyHold::Stale;
        }
        if self.a == KeyHold::Fresh {
            self.a = KeyHold::Stale;
        }
        if self.s == KeyHold::Fresh {
            self.s = KeyHold::Stale;
        }
        if self.d == KeyHold::Fresh {
            self.d = KeyHold::Stale;
        }
        if self.j == KeyHold::Fresh {
            self.j = KeyHold::Stale;
        }
        Controllable { horizontal, vertical, pick_up }
    }
}

} // verus!
