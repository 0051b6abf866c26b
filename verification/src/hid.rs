//! Requests of the USB host to the keyboard: the state of the lock LEDs, fed
//! back to the layout as key events.

use vstd::prelude::*;
use crate::event::Event;

verus! {

/// Row of the virtual keys that stand for the lock LEDs.
pub const LOCK_ROW: u8 = 3;

/// Column of the virtual key that stands for caps lock.
pub const CAPS_LOCK_COL: u8 = 0;

/// Column of the virtual key that stands for num lock.
pub const NUM_LOCK_COL: u8 = 1;

/// Bit of num lock in the LED byte of an output report.
pub const LED_NUM_LOCK: u8 = 1;

/// Bit of caps lock in the LED byte of an output report.
pub const LED_CAPS_LOCK: u8 = 2;

/// Kind and number of a report that the host asks for or sends.
#[derive(Clone, Copy, Debug, PartialEq, Eq, Structural)]
pub enum ReportId {
    /// Input report
    In(u8),
    /// Output report
    Out(u8),
    /// Feature report
    Feature(u8),
}

/// A press and release of the virtual key at `(LOCK_ROW, col)`.
pub open spec fn lock_key_tap(col: u8) -> Seq<Event> {
    seq![Event::Press(LOCK_ROW, col), Event::Release(LOCK_ROW, col)]
}

/// Whether the LED byte has the bit `mask` set.
pub open spec fn led_on(leds: u8, mask: u8) -> bool {
    leds & mask != 0
}

/// The key events that tell the layout of a change of the lock LEDs: a tap of
/// the num lock key if num lock changed, then one of the caps lock key if caps
/// lock changed.
pub open spec fn lock_events(num_changed: bool, caps_changed: bool) -> Seq<Event> {
    (if num_changed {
        lock_key_tap(NUM_LOCK_COL)
    } else {
        Seq::empty()
    }) + (if caps_changed {
        lock_key_tap(CAPS_LOCK_COL)
    } else {
        Seq::empty()
    })
}

/// The key events for a change of caps lock: a press and release of the
/// caps lock key, so that the keymap can do something with it, like changing
/// the default layer.
pub fn caps_lock_change() -> (events: [Event; 2])
    ensures
        events@ == lock_key_tap(CAPS_LOCK_COL),
{
    let events = [Event::Press(LOCK_ROW, CAPS_LOCK_COL), Event::Release(LOCK_ROW, CAPS_LOCK_COL)];
    assert(events@ =~= lock_key_tap(CAPS_LOCK_COL));
    events
}

/// The key events for a change of num lock: a press and release of the num
/// lock key, so that the keymap can do something with it, like changing the
/// default layer.
pub fn num_lock_change() -> (events: [Event; 2])
    ensures
        events@ == lock_key_tap(NUM_LOCK_COL),
{
    let events = [Event::Press(LOCK_ROW, NUM_LOCK_COL), Event::Release(LOCK_ROW, NUM_LOCK_COL)];
    assert(events@ =~= lock_key_tap(NUM_LOCK_COL));
    events
}

/// HID handler
pub struct HidRequestHandler {
    /// Num lock state
    num_lock: bool,
    /// Caps lock state
    caps_lock: bool,
}

impl HidRequestHandler {
    /// The num lock state that the host last set.
    pub closed spec fn num_lock_on(&self) -> bool {
        self.num_lock
    }

    /// The caps lock state that the host last set.
    pub closed spec fn caps_lock_on(&self) -> bool {
        self.caps_lock
    }

    /// Create a new HID request handler
    pub fn new() -> (handler: HidRequestHandler)
        ensures
            !handler.num_lock_on(),
            !handler.caps_lock_on(),
    {
        HidRequestHandler { num_lock: false, caps_lock: false }
    }

    /// Set the caps lock state. May not have changed.
    pub fn caps_lock(&mut self, caps_lock: bool) -> (changed: bool)
        ensures
            final(self).caps_lock_on() == caps_lock,
            final(self).num_lock_on() == old(self).num_lock_on(),
            changed == (old(self).caps_lock_on() != caps_lock),
    {
        if self.caps_lock != caps_lock {
            self.caps_lock = caps_lock;
            true
        } else {
            false
        }
    }

    /// Set the num lock state. May not have changed.
    pub fn num_lock(&mut self, num_lock: bool) -> (changed: bool)
        ensures
            final(self).num_lock_on() == num_lock,
            final(self).caps_lock_on() == old(self).caps_lock_on(),
            changed == (old(self).num_lock_on() != num_lock),
    {
        if self.num_lock != num_lock {
            self.num_lock = num_lock;
            true
        } else {
            false
        }
    }

    /// The host sent a report. Output report 0 carries the lock LEDs in its
    /// first byte: the handler takes the new states and returns the key
    /// events for those that changed. Any other report changes nothing.
    pub fn set_report(&mut self, id: ReportId, data: &[u8]) -> (events: Vec<Event>)
        requires
            id == ReportId::Out(0) ==> data.len() > 0,
        ensures
            id != ReportId::Out(0) ==> events@.len() == 0 && final(self).num_lock_on() == old(
                self,
            ).num_lock_on() && final(self).caps_lock_on() == old(self).caps_lock_on(),
            id == ReportId::Out(0) ==> final(self).num_lock_on() == led_on(data[0], LED_NUM_LOCK)
                && final(self).caps_lock_on() == led_on(data[0], LED_CAPS_LOCK) && events@
                == lock_events(
                old(self).num_lock_on() != led_on(data[0], LED_NUM_LOCK),
                old(self).caps_lock_on() != led_on(data[0], LED_CAPS_LOCK),
            ),
    {
        let mut events: Vec<Event> = Vec::new();
        match id {
            ReportId::Out(0) => {
                let leds = data[0];
                if self.num_lock(leds & LED_NUM_LOCK != 0) {
                    let tap = num_lock_change();
                    events.push(tap[0]);
                    events.push(tap[1]);
                }
                if self.caps_lock(leds & LED_CAPS_LOCK != 0) {
                    let tap = caps_lock_change();
                    events.push(tap[0]);
                    events.push(tap[1]);
                }
                assert(events@ =~= lock_events(
                    old(self).num_lock_on() != led_on(data[0], LED_NUM_LOCK),
                    old(self).caps_lock_on() != led_on(data[0], LED_CAPS_LOCK),
                ));
            },
            _ => {},
        }
        events
    }
}

} // verus!
