//! Interpretation of pointer reports.
//!
//! The device-reading side drains raw low-level reports up to a
//! synchronisation marker and hands the burst here; `parse_events` turns it
//! into exactly one semantic event, and `interpret` additionally
//! accumulates relative motion into the absolute pointer position with
//! saturating arithmetic.  A burst that matches no known shape yields
//! `None` and is discarded as a single event.

use vstd::prelude::*;

verus! {

pub const EV_SYN: u16 = 0x00;

pub const EV_KEY: u16 = 0x01;

pub const EV_REL: u16 = 0x02;

pub const BTN_LEFT: u16 = 0x110;

pub const BTN_RIGHT: u16 = 0x111;

pub const BTN_MIDDLE: u16 = 0x112;

pub const BTN_SIDE: u16 = 0x113;

pub const BTN_EXTRA: u16 = 0x114;

pub const BTN_FORWARD: u16 = 0x115;

pub const BTN_BACK: u16 = 0x116;

/// One raw low-level report: the kind, code and value of an input event.
#[derive(Clone, Copy, Debug, PartialEq, Eq, Structural)]
pub struct RawEvent {
    pub kind: u16,
    pub code: u16,
    pub value: i32,
}

/// One semantic pointer event.
#[derive(Clone, Copy, Debug, PartialEq, Eq, Structural)]
pub enum MouseEvent {
    MoveRel(i32, i32),
    ScrollVert(i32),
    ScrollHori(i32),
    Left(bool),
    Right(bool),
    Middle(bool),
    Side(bool),
    Extra(bool),
    Forward(bool),
    Back(bool),
    Task(bool),
}

/// The pointer state: accumulated absolute position and button flags.
pub struct Mouse {
    pub x: u32,
    pub y: u32,
    pub left: bool,
    pub middle: bool,
    pub right: bool,
}

/// A button report: the value must be boolean, and only the known buttons
/// are understood.
pub open spec fn parse_key_spec(e: RawEvent) -> Option<MouseEvent> {
    if e.value != 0 && e.value != 1 {
        Option::None
    } else {
        let pressed = e.value == 1;
        if e.code == BTN_LEFT {
            Option::Some(MouseEvent::Left(pressed))
        } else if e.code == BTN_RIGHT {
            Option::Some(MouseEvent::Right(pressed))
        } else if e.code == BTN_MIDDLE {
            Option::Some(MouseEvent::Middle(pressed))
        } else if e.code == BTN_FORWARD {
            Option::Some(MouseEvent::Forward(pressed))
        } else if e.code == BTN_BACK {
            Option::Some(MouseEvent::Back(pressed))
        } else if e.code == BTN_SIDE {
            Option::Some(MouseEvent::Side(pressed))
        } else if e.code == BTN_EXTRA {
            Option::Some(MouseEvent::Extra(pressed))
        } else {
            Option::None
        }
    }
}

/// A relative-motion burst: one report moves along a single axis or
/// scrolls; a pair is a diagonal move.
pub open spec fn parse_rel_spec(evs: Seq<RawEvent>) -> Option<MouseEvent> {
    if evs.len() == 1 {
        if evs[0].code == 0 {
            Option::Some(MouseEvent::MoveRel(evs[0].value, 0))
        } else if evs[0].code == 1 {
            Option::Some(MouseEvent::MoveRel(0, evs[0].value))
        } else if evs[0].code == 8 {
            Option::Some(MouseEvent::ScrollVert(evs[0].value))
        } else if evs[0].code == 6 {
            Option::Some(MouseEvent::ScrollHori(evs[0].value))
        } else {
            Option::None
        }
    } else if evs.len() == 2 {
        if evs[1].kind != EV_REL {
            Option::None
        } else {
            Option::Some(MouseEvent::MoveRel(evs[0].value, evs[1].value))
        }
    } else {
        Option::None
    }
}

/// The semantic event of one synchronised burst of raw reports; `None` for
/// an empty, unknown or malformed burst.
pub open spec fn parse_events_spec(evs: Seq<RawEvent>) -> Option<MouseEvent> {
    if evs.len() == 0 {
        Option::None
    } else if evs[0].kind == EV_KEY {
        parse_key_spec(evs[0])
    } else if evs[0].kind == EV_REL {
        parse_rel_spec(evs)
    } else {
        Option::None
    }
}

/// `a + d` clamped to the `u32` range.
pub open spec fn sat_add_spec(a: u32, d: i32) -> u32 {
    if a + d < 0 {
        0u32
    } else if a + d > u32::MAX {
        u32::MAX
    } else {
        (a + d) as u32
    }
}

/// Add a relative displacement to an absolute coordinate, saturating at
/// the ends of the `u32` range.
fn sat_add(a: u32, d: i32) -> (r: u32)
    ensures
        r == sat_add_spec(a, d),
{
    let s: i64 = a as i64 + d as i64;
    if s < 0 {
        0
    } else if s > u32::MAX as i64 {
        u32::MAX
    } else {
        s as u32
    }
}

impl Mouse {
    /// A pointer at the origin with no button pressed.
    pub fn new() -> (m: Mouse)
        ensures
            m.x == 0,
            m.y == 0,
            !m.left,
            !m.middle,
            !m.right,
    {
        Mouse { x: 0, y: 0, left: false, middle: false, right: false }
    }

    /// Place the pointer at an absolute position.
    pub fn set(&mut self, x: u32, y: u32)
        ensures
            final(self).x == x,
            final(self).y == y,
            final(self).left == old(self).left,
            final(self).middle == old(self).middle,
            final(self).right == old(self).right,
    {
        self.x = x;
        self.y = y;
    }

    /// Turn one non-empty burst of raw reports into its semantic event.
    pub fn parse_events(events: &Vec<RawEvent>) -> (r: Option<MouseEvent>)
        requires
            events@.len() >= 1,
        ensures
            r == parse_events_spec(events@),
    {
        let first = events[0];
        if first.kind == EV_KEY {
            if first.value != 0 && first.value != 1 {
                return None;
            }
            let pressed = first.value == 1;
            if first.code == BTN_LEFT {
                Some(MouseEvent::Left(pressed))
            } else if first.code == BTN_RIGHT {
                Some(MouseEvent::Right(pressed))
            } else if first.code == BTN_MIDDLE {
                Some(MouseEvent::Middle(pressed))
            } else if first.code == BTN_FORWARD {
                Some(MouseEvent::Forward(pressed))
            } else if first.code == BTN_BACK {
                Some(MouseEvent::Back(pressed))
            } else if first.code == BTN_SIDE {
                Some(MouseEvent::Side(pressed))
            } else if first.code == BTN_EXTRA {
                Some(MouseEvent::Extra(pressed))
            } else {
                None
            }
        } else if first.kind == EV_REL {
            if events.len() == 1 {
                if first.code == 0 {
                    Some(MouseEvent::MoveRel(first.value, 0))
                } else if first.code == 1 {
                    Some(MouseEvent::MoveRel(0, first.value))
                } else if first.code == 8 {
                    Some(MouseEvent::ScrollVert(first.value))
                } else if first.code == 6 {
                    Some(MouseEvent::ScrollHori(first.value))
                } else {
                    None
                }
            } else if events.len() == 2 {
                let second = events[1];
                if second.kind != EV_REL {
                    None
                } else {
                    Some(MouseEvent::MoveRel(first.value, second.value))
                }
            } else {
                None
            }
        } else {
            None
        }
    }

    /// The computing half of a device read: interpret one synchronised
    /// burst and fold any relative motion into the absolute position,
    /// saturating at the screen-coordinate range.
    pub fn interpret(&mut self, events: &Vec<RawEvent>) -> (r: Option<MouseEvent>)
        ensures
            r == parse_events_spec(events@),
            (match r {
                Option::Some(MouseEvent::MoveRel(dx, dy)) => final(self).x == sat_add_spec(
                    old(self).x,
                    dx,
                ) && final(self).y == sat_add_spec(old(self).y, dy),
                _ => final(self).x == old(self).x && final(self).y == old(self).y,
            }),
            final(self).left == old(self).left,
            final(self).middle == old(self).middle,
            final(self).right == old(self).right,
    {
        if events.len() == 0 {
            return None;
        }
        let ev = Mouse::parse_events(events);
        if let Some(MouseEvent::MoveRel(dx, dy)) = ev {
            self.x = sat_add(self.x, dx);
            self.y = sat_add(self.y, dy);
        }
        ev
    }
}

} // verus!
