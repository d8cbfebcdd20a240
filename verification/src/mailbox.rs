//! Single-slot, latest-value-wins coordinate handoff.
//!
//! The input bridge writes target coordinates into the slot and the render
//! loop drains it.  A write always overwrites whatever is pending, so the
//! consumer can only ever observe the newest coordinate; superseded values
//! are never delivered.  The surrounding process shares one `Mailbox`
//! between the two contexts under its own synchronisation.

use vstd::prelude::*;

verus! {

/// The single slot; its view is the pending coordinate, if any.
pub struct Mailbox {
    slot: Option<(u32, u32)>,
}

impl View for Mailbox {
    type V = Option<(u32, u32)>;

    closed spec fn view(&self) -> Option<(u32, u32)> {
        self.slot
    }
}

/// What a send does to the slot: the new coordinate replaces any pending
/// one unconditionally.
pub open spec fn send_spec(m: Option<(u32, u32)>, x: u32, y: u32) -> Option<(u32, u32)> {
    Option::Some((x, y))
}

/// What a take does: it yields the pending coordinate and empties the slot.
pub open spec fn take_spec(m: Option<(u32, u32)>) -> (Option<(u32, u32)>, Option<(u32, u32)>) {
    (m, Option::None)
}

impl Mailbox {
    /// An empty mailbox.
    pub fn new() -> (m: Mailbox)
        ensures
            m@ is None,
    {
        Mailbox { slot: None }
    }

    /// Publish a coordinate, superseding any pending one.
    pub fn send(&mut self, x: u32, y: u32)
        ensures
            final(self)@ == send_spec(old(self)@, x, y),
            final(self)@ == Option::Some((x, y)),
    {
        self.slot = Some((x, y));
    }

    /// Drain the slot: the pending coordinate, if any, leaving it empty.
    pub fn take(&mut self) -> (r: Option<(u32, u32)>)
        ensures
            ({
                let (r2, m2) = take_spec(old(self)@);
                r == r2 && final(self)@ == m2
            }),
            final(self)@ is None,
    {
        self.slot.take()
    }

    /// Whether a coordinate is pending.
    pub fn is_empty(&self) -> (r: bool)
        ensures
            r == (self@ is None),
    {
        self.slot.is_none()
    }
}

/// Latest value wins: after several sends with no intervening take, one
/// take observes exactly the coordinate sent last, the slot is left empty,
/// and the superseded coordinates are never delivered.
pub proof fn lemma_mailbox_latest_wins(
    m0: Option<(u32, u32)>,
    a: (u32, u32),
    b: (u32, u32),
    c: (u32, u32),
)
    ensures
        ({
            let m3 = send_spec(send_spec(send_spec(m0, a.0, a.1), b.0, b.1), c.0, c.1);
            let (r, m4) = take_spec(m3);
            r == Option::Some(c) && m4 is None
        }),
{
}

} // verus!
