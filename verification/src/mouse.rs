//! Act as a mouse: custom events set direction, button and wheel flags, and
//! a slower tick turns the flags into relative mouse reports that speed up
//! while a direction is held.

use vstd::prelude::*;
use crate::layout::{CustomEvent, KbCustomEvent};

verus! {

/// Maximum rate for the mouse.
pub const MAX_RATE: i8 = 127;

/// Minimum rate for the mouse.
pub const MIN_RATE: i8 = 1;

/// Update frequency, in Hz.
pub const UPDATE_FREQUENCY: u32 = 16;

/// Number of ticks between rate changes.
pub const RATE_CHANGE_TICKS: u32 = 1000 / UPDATE_FREQUENCY;

/// Bit of the left button in a mouse report.
pub const BUTTON_LEFT: u8 = 1;

/// Bit of the right button in a mouse report.
pub const BUTTON_RIGHT: u8 = 2;

/// Bit of the middle button in a mouse report.
pub const BUTTON_MIDDLE: u8 = 4;

/// Relative mouse report: movement since the last report, buttons, wheel.
#[derive(Clone, Copy, Debug, PartialEq, Eq, Structural)]
pub struct MouseReport {
    /// Horizontal movement.
    pub x: i8,
    /// Vertical movement.
    pub y: i8,
    /// Bitmask of the buttons that are down.
    pub buttons: u8,
    /// Wheel movement.
    pub wheel: i8,
    /// Horizontal wheel movement, never used.
    pub pan: i8,
}

/// The state of the mouse handler as a mathematical value.
pub struct MouseState {
    /// Going up
    pub up: bool,
    /// Going down
    pub down: bool,
    /// Going left
    pub left: bool,
    /// Going right
    pub right: bool,
    /// Left click is pressed
    pub left_click: bool,
    /// Right click is pressed
    pub right_click: bool,
    /// Middle click is pressed
    pub middle_click: bool,
    /// Wheel up
    pub wheel_up: bool,
    /// Wheel down
    pub wheel_down: bool,
    /// How fast the mouse moves horizontally
    pub rate_horizontal: i8,
    /// How fast the mouse moves vertically
    pub rate_vertical: i8,
    /// Number of ticks since the rates last changed
    pub n: u32,
    /// Whether a flag was set or cleared since the last report
    pub has_changed: bool,
}

/// The rate after one more period in which the direction was held: twice the
/// rate, or the maximum where that does not fit.
pub open spec fn accelerated(rate: i8) -> i8 {
    if i8::MIN <= 2 * rate <= i8::MAX {
        (2 * rate) as i8
    } else {
        MAX_RATE
    }
}

impl MouseState {
    /// The state of a new handler: nothing held, both rates at the minimum.
    pub open spec fn initial() -> MouseState {
        MouseState {
            up: false,
            down: false,
            left: false,
            right: false,
            left_click: false,
            right_click: false,
            middle_click: false,
            wheel_up: false,
            wheel_down: false,
            rate_horizontal: MIN_RATE,
            rate_vertical: MIN_RATE,
            n: 0,
            has_changed: false,
        }
    }

    /// What every state of a handler satisfies: the rates lie between the
    /// minimum and the maximum, and the tick counter is within its period.
    pub open spec fn wf(self) -> bool {
        &&& MIN_RATE <= self.rate_horizontal <= MAX_RATE
        &&& MIN_RATE <= self.rate_vertical <= MAX_RATE
        &&& self.n < RATE_CHANGE_TICKS
    }

    /// The state after the key bound to `event` went down or up.
    pub open spec fn set(self, event: CustomEvent, pressed: bool) -> MouseState {
        let s = MouseState { has_changed: true, ..self };
        match event {
            CustomEvent::MouseUp => MouseState { up: pressed, ..s },
            CustomEvent::MouseDown => MouseState { down: pressed, ..s },
            CustomEvent::MouseRight => MouseState { right: pressed, ..s },
            CustomEvent::MouseLeft => MouseState { left: pressed, ..s },
            CustomEvent::MouseLeftClick => MouseState { left_click: pressed, ..s },
            CustomEvent::MouseRightClick => MouseState { right_click: pressed, ..s },
            CustomEvent::MouseMiddleClick => MouseState { middle_click: pressed, ..s },
            CustomEvent::MouseScrollUp => MouseState { wheel_up: pressed, ..s },
            CustomEvent::MouseScrollDown => MouseState { wheel_down: pressed, ..s },
        }
    }

    /// The state after what the layout engine reported on a tick.
    pub open spec fn process(self, event: KbCustomEvent) -> MouseState {
        match event {
            KbCustomEvent::Press(e) => self.set(e, true),
            KbCustomEvent::Release(e) => self.set(e, false),
            KbCustomEvent::NoEvent => self,
        }
    }

    /// Whether a direction, a button or the wheel is held.
    pub open spec fn is_active(self) -> bool {
        self.up || self.down || self.left || self.right || self.left_click || self.right_click
            || self.middle_click || self.wheel_up || self.wheel_down
    }

    /// The report of the state: each axis moves by its rate in the direction
    /// held, up before down and left before right, the buttons held are set,
    /// and the wheel turns by one, up before down.
    pub open spec fn report(self) -> MouseReport {
        MouseReport {
            x: if self.left {
                (-self.rate_horizontal) as i8
            } else if self.right {
                self.rate_horizontal
            } else {
                0
            },
            y: if self.up {
                self.rate_vertical
            } else if self.down {
                (-self.rate_vertical) as i8
            } else {
                0
            },
            buttons: ((if self.left_click {
                BUTTON_LEFT as int
            } else {
                0
            }) + (if self.right_click {
                BUTTON_RIGHT as int
            } else {
                0
            }) + (if self.middle_click {
                BUTTON_MIDDLE as int
            } else {
                0
            })) as u8,
            wheel: if self.wheel_up {
                1
            } else if self.wheel_down {
                -1i8
            } else {
                0
            },
            pan: 0,
        }
    }

    /// The state when a period of ticks has passed: the counter starts again,
    /// and each rate doubles while its axis is held and falls back to the
    /// minimum when it is not.
    pub open spec fn period_elapsed(self) -> MouseState {
        MouseState {
            n: 0,
            rate_vertical: if self.up || self.down {
                accelerated(self.rate_vertical)
            } else {
                MIN_RATE
            },
            rate_horizontal: if self.left || self.right {
                accelerated(self.rate_horizontal)
            } else {
                MIN_RATE
            },
            ..self
        }
    }

    /// The state one tick later, with nothing said of reports: within a
    /// period only the counter moves, and at the end of a period the rates
    /// change.
    pub open spec fn advanced(self) -> MouseState {
        if self.n + 1 < RATE_CHANGE_TICKS {
            MouseState { n: (self.n + 1) as u32, ..self }
        } else {
            self.period_elapsed()
        }
    }

    /// One tick: the state after it and the report that it emits. Within a
    /// period only the counter moves. At the end of a period the rates
    /// change, and a report leaves if a flag changed since the last one or
    /// anything is held.
    pub open spec fn ticked(self) -> (MouseState, Option<MouseReport>) {
        if self.n + 1 < RATE_CHANGE_TICKS {
            (MouseState { n: (self.n + 1) as u32, ..self }, None)
        } else {
            let s = self.period_elapsed();
            if s.has_changed || s.is_active() {
                (MouseState { has_changed: false, ..s }, Some(s.report()))
            } else {
                (s, None)
            }
        }
    }
}

/// The rate after one more period in which the direction was held.
pub fn accelerate(rate: i8) -> (next: i8)
    ensures
        next == accelerated(rate),
        MIN_RATE <= rate ==> MIN_RATE <= next <= MAX_RATE,
{
    match rate.checked_mul(2) {
        Some(next) => next,
        None => MAX_RATE,
    }
}

/// Mouse handler
#[derive(Debug)]
pub struct MouseHandler {
    up: bool,
    down: bool,
    left: bool,
    right: bool,
    left_click: bool,
    right_click: bool,
    middle_click: bool,
    wheel_up: bool,
    wheel_down: bool,
    rate_horizontal: i8,
    rate_vertical: i8,
    n: u32,
    has_changed: bool,
}

impl View for MouseHandler {
    type V = MouseState;

    closed spec fn view(&self) -> MouseState {
        MouseState {
            up: self.up,
            down: self.down,
            left: self.left,
            right: self.right,
            left_click: self.left_click,
            right_click: self.right_click,
            middle_click: self.middle_click,
            wheel_up: self.wheel_up,
            wheel_down: self.wheel_down,
            rate_horizontal: self.rate_horizontal,
            rate_vertical: self.rate_vertical,
            n: self.n,
            has_changed: self.has_changed,
        }
    }
}

impl MouseHandler {
    #[verifier::type_invariant]
    spec fn inv(self) -> bool {
        self@.wf()
    }

    /// Create a new mouse handler
    pub fn new() -> (handler: MouseHandler)
        ensures
            handler@ == MouseState::initial(),
    {
        MouseHandler {
            up: false,
            down: false,
            left: false,
            right: false,
            left_click: false,
            right_click: false,
            middle_click: false,
            wheel_up: false,
            wheel_down: false,
            rate_horizontal: MIN_RATE,
            rate_vertical: MIN_RATE,
            n: 0,
            has_changed: false,
        }
    }

    /// Process a custom event
    pub fn process_event(&mut self, kb_cs_event: KbCustomEvent)
        ensures
            final(self)@ == old(self)@.process(kb_cs_event),
    {
        proof {
            use_type_invariant(&*self);
        }
        let (event, is_pressed) = match kb_cs_event {
            KbCustomEvent::Press(event) => (event, true),
            KbCustomEvent::Release(event) => (event, false),
            KbCustomEvent::NoEvent => {
                return ;
            },
        };
        self.has_changed = true;
        match event {
            CustomEvent::MouseUp => self.up = is_pressed,
            CustomEvent::MouseDown => self.down = is_pressed,
            CustomEvent::MouseRight => self.right = is_pressed,
            CustomEvent::MouseLeft => self.left = is_pressed,
            CustomEvent::MouseLeftClick => self.left_click = is_pressed,
            CustomEvent::MouseRightClick => self.right_click = is_pressed,
            CustomEvent::MouseMiddleClick => self.middle_click = is_pressed,
            CustomEvent::MouseScrollUp => self.wheel_up = is_pressed,
            CustomEvent::MouseScrollDown => self.wheel_down = is_pressed,
        }
    }

    /// Going up
    pub fn up(&self) -> (held: bool)
        ensures
            held == self@.up,
    {
        self.up
    }

    /// Going down
    pub fn down(&self) -> (held: bool)
        ensures
            held == self@.down,
    {
        self.down
    }

    /// Going left
    pub fn left(&self) -> (held: bool)
        ensures
            held == self@.left,
    {
        self.left
    }

    /// Going right
    pub fn right(&self) -> (held: bool)
        ensures
            held == self@.right,
    {
        self.right
    }

    /// Left click is pressed
    pub fn left_click(&self) -> (held: bool)
        ensures
            held == self@.left_click,
    {
        self.left_click
    }

    /// Right click is pressed
    pub fn right_click(&self) -> (held: bool)
        ensures
            held == self@.right_click,
    {
        self.right_click
    }

    /// Middle click is pressed
    pub fn middle_click(&self) -> (held: bool)
        ensures
            held == self@.middle_click,
    {
        self.middle_click
    }

    /// Wheel up
    pub fn wheel_up(&self) -> (held: bool)
        ensures
            held == self@.wheel_up,
    {
        self.wheel_up
    }

    /// Wheel down
    pub fn wheel_down(&self) -> (held: bool)
        ensures
            held == self@.wheel_down,
    {
        self.wheel_down
    }

    /// How fast the mouse moves horizontally
    pub fn rate_horizontal(&self) -> (rate: i8)
        ensures
            rate == self@.rate_horizontal,
            MIN_RATE <= rate <= MAX_RATE,
    {
        proof {
            use_type_invariant(self);
        }
        self.rate_horizontal
    }

    /// How fast the mouse moves vertically
    pub fn rate_vertical(&self) -> (rate: i8)
        ensures
            rate == self@.rate_vertical,
            MIN_RATE <= rate <= MAX_RATE,
    {
        proof {
            use_type_invariant(self);
        }
        self.rate_vertical
    }

    /// Check if the mouse is active
    pub fn is_active(&self) -> (active: bool)
        ensures
            active == self@.is_active(),
    {
        self.up || self.down || self.left || self.right || self.left_click || self.right_click
            || self.middle_click || self.wheel_up || self.wheel_down
    }

    /// Ends a period of ticks: the counter starts again and the rates follow
    /// the directions held.
    fn rate_change(&mut self)
        ensures
            final(self)@ == old(self)@.period_elapsed(),
    {
        proof {
            use_type_invariant(&*self);
        }
        self.n = 0;
        if self.up || self.down {
            self.rate_vertical = accelerate(self.rate_vertical);
        } else {
            self.rate_vertical = MIN_RATE;
        }
        if self.left || self.right {
            self.rate_horizontal = accelerate(self.rate_horizontal);
        } else {
            self.rate_horizontal = MIN_RATE;
        }
    }

    /// Lets one tick pass without deciding on a report: the counter moves,
    /// and at the end of a period the rates follow the directions held.
    pub fn advance(&mut self)
        ensures
            old(self)@.wf(),
            final(self)@.wf(),
            final(self)@ == old(self)@.advanced(),
    {
        proof {
            use_type_invariant(&*self);
        }
        if self.n + 1 < RATE_CHANGE_TICKS {
            self.n = self.n + 1;
        } else {
            self.rate_change();
            proof {
                use_type_invariant(&*self);
            }
        }
    }

    /// Compute the state of the mouse. Called every 1ms
    pub fn tick(&mut self) -> (report: Option<MouseReport>)
        ensures
            old(self)@.wf(),
            final(self)@.wf(),
            (final(self)@, report) == old(self)@.ticked(),
    {
        proof {
            use_type_invariant(&*self);
        }
        if self.n + 1 < RATE_CHANGE_TICKS {
            self.n = self.n + 1;
            return None;
        }
        self.rate_change();
        proof {
            use_type_invariant(&*self);
        }
        if self.has_changed || self.is_active() {
            let report = self.generate_hid_report();
            self.has_changed = false;
            Some(report)
        } else {
            None
        }
    }

    /// Generate a HID report for the mouse
    pub fn generate_hid_report(&mut self) -> (report: MouseReport)
        ensures
            final(self)@ == old(self)@,
            report == old(self)@.report(),
            -MAX_RATE <= report.x <= MAX_RATE,
            -MAX_RATE <= report.y <= MAX_RATE,
    {
        proof {
            use_type_invariant(&*self);
        }
        let mut report = MouseReport { x: 0, y: 0, buttons: 0, wheel: 0, pan: 0 };
        if self.up {
            report.y = self.rate_vertical;
        } else if self.down {
            report.y = -self.rate_vertical;
        }
        if self.left {
            report.x = -self.rate_horizontal;
        } else if self.right {
            report.x = self.rate_horizontal;
        }
        if self.left_click {
            report.buttons = report.buttons | BUTTON_LEFT;
            assert(0u8 | 1u8 == 1u8) by (bit_vector);
        }
        if self.right_click {
            let ghost before = report.buttons;
            report.buttons = report.buttons | BUTTON_RIGHT;
            assert(before < 2 ==> (before | 2u8) == before + 2) by (bit_vector);
        }
        if self.middle_click {
            let ghost before = report.buttons;
            report.buttons = report.buttons | BUTTON_MIDDLE;
            assert(before < 4 ==> (before | 4u8) == before + 4) by (bit_vector);
        }
        if self.wheel_up {
            report.wheel = 1;
        } else if self.wheel_down {
            report.wheel = -1;
        }
        report
    }
}

/// Whatever happens to the mouse, its rates stay between the minimum and the
/// maximum and its counter within the period, so that no report moves by
/// more than the maximum rate.
pub proof fn lemma_mouse_state_wf(s: MouseState, event: KbCustomEvent)
    requires
        s.wf(),
    ensures
        MouseState::initial().wf(),
        s.process(event).wf(),
        s.period_elapsed().wf(),
        s.advanced().wf(),
        s.ticked().0.wf(),
        -MAX_RATE <= s.report().x <= MAX_RATE,
        -MAX_RATE <= s.report().y <= MAX_RATE,
        s.report().buttons <= BUTTON_LEFT + BUTTON_RIGHT + BUTTON_MIDDLE,
{
}

/// While a direction is held the rate doubles with every period until the
/// next doubling would pass the maximum, and from then on it is the maximum.
pub proof fn lemma_acceleration(rate: i8)
    requires
        MIN_RATE <= rate,
    ensures
        2 * rate <= MAX_RATE ==> accelerated(rate) == 2 * rate,
        2 * rate > MAX_RATE ==> accelerated(rate) == MAX_RATE,
        rate < MAX_RATE ==> accelerated(rate) > rate,
{
}

} // verus!
