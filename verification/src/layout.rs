//! Layout events processing: the active key codes of the layout are folded
//! into the USB boot keyboard report, the custom events that keys are bound to
//! drive the mouse, and each of the two reports is emitted when it differs
//! from the last one of its kind.

use vstd::prelude::*;
use keyberon::layout::Layout;
use crate::mouse::{MouseHandler, MouseReport, MouseState};

verus! {

/// The "no" key code, a placeholder that expresses nothing.
pub const NO: u8 = 0x00;

/// Key code that reports that too many keys are pressed at the same time.
pub const ERROR_ROLL_OVER: u8 = 0x01;

/// Key code of the POST fail error.
pub const POST_FAIL: u8 = 0x02;

/// Key code of an undefined error.
pub const ERROR_UNDEFINED: u8 = 0x03;

/// Key code of the left control key, the first of the modifiers.
pub const LCTRL: u8 = 0xE0;

/// Key code of the right GUI key, the last of the modifiers.
pub const RGUI: u8 = 0xE7;

/// Number of key code slots of a boot keyboard report.
pub const SLOTS: usize = 6;

/// The layout engine of `keyberon`. It takes events and ticks and holds the
/// keys that are active; nothing of its inside is known here.
#[verifier::external_type_specification]
#[verifier::external_body]
pub struct ExLayout(keyberon::layout::Layout);

/// The key codes that the layout holds active, as their USB usage bytes, in
/// the order in which `Layout::keycodes` yields them.
pub uninterp spec fn active_keycodes(layout: Layout) -> Seq<u8>;

/// Calls `keyberon::layout::Layout::keycodes`, which walks the active key
/// states of the layout without changing it, and hands out the usage byte of
/// each key code. The contract only names the result: the same layout gives
/// the same key codes.
#[verifier::external_body]
fn layout_keycodes(layout: &Layout) -> (codes: Vec<u8>)
    ensures
        codes@ == active_keycodes(*layout),
{
    layout.keycodes().map(|kc| kc as u8).collect()
}

/// Custom events for the layout, mostly mouse events.
#[derive(Clone, Copy, Debug, PartialEq, Eq, Structural)]
pub enum CustomEvent {
    /// Mouse move up
    MouseUp,
    /// Mouse move down
    MouseDown,
    /// Mouse move left
    MouseLeft,
    /// Mouse move right
    MouseRight,
    /// Mouse left click
    MouseLeftClick,
    /// Mouse right click
    MouseRightClick,
    /// Mouse middle click
    MouseMiddleClick,
    /// Mouse scroll up
    MouseScrollUp,
    /// Mouse scroll down
    MouseScrollDown,
}

/// What the layout engine reports of custom actions on a tick.
#[derive(Clone, Copy, Debug, PartialEq, Eq, Structural)]
pub enum KbCustomEvent {
    /// No custom action changed.
    NoEvent,
    /// The key bound to the event was pressed.
    Press(CustomEvent),
    /// The key bound to the event was released.
    Release(CustomEvent),
}

/// USB boot keyboard report: modifier bitmask, reserved byte, six key codes.
#[derive(Clone, Copy, Debug, PartialEq, Eq)]
pub struct KeyboardReport {
    /// Bitmask of the modifier keys that are down.
    pub modifier: u8,
    /// Reserved, always zero.
    pub reserved: u8,
    /// Key codes of up to six keys that are down, zero where a slot is free.
    pub keycodes: [u8; 6],
}

/// A keyboard report as a mathematical value.
pub struct ReportView {
    /// Bitmask of the modifier keys that are down.
    pub modifier: u8,
    /// Reserved byte.
    pub reserved: u8,
    /// The six key code slots.
    pub keycodes: Seq<u8>,
}

impl View for KeyboardReport {
    type V = ReportView;

    open spec fn view(&self) -> ReportView {
        ReportView { modifier: self.modifier, reserved: self.reserved, keycodes: self.keycodes@ }
    }
}

/// Whether the key code is one of the eight modifiers, which are sent in the
/// bitmask and take no slot.
pub open spec fn is_modifier_code(kc: u8) -> bool {
    LCTRL <= kc <= RGUI
}

/// Whether the key code reports an error.
pub open spec fn is_error_code(kc: u8) -> bool {
    ERROR_ROLL_OVER <= kc <= ERROR_UNDEFINED
}

/// Whether the key code is an ordinary key, one that takes a slot.
pub open spec fn is_regular_code(kc: u8) -> bool {
    kc > ERROR_UNDEFINED && !is_modifier_code(kc)
}

/// The bit of the modifier bitmask that stands for the key code: bit 0 for
/// left control up to bit 7 for right GUI, and no bit for another key.
pub open spec fn modifier_bit(kc: u8) -> u8 {
    if kc == 0xE0 {
        0x01
    } else if kc == 0xE1 {
        0x02
    } else if kc == 0xE2 {
        0x04
    } else if kc == 0xE3 {
        0x08
    } else if kc == 0xE4 {
        0x10
    } else if kc == 0xE5 {
        0x20
    } else if kc == 0xE6 {
        0x40
    } else if kc == 0xE7 {
        0x80
    } else {
        0x00
    }
}

/// The first free slot at or after `from`, or the number of slots where none
/// is free.
pub open spec fn first_free_from(slots: Seq<u8>, from: int) -> int
    decreases slots.len() - from,
{
    if from < 0 || from >= slots.len() {
        slots.len() as int
    } else if slots[from] == 0 {
        from
    } else {
        first_free_from(slots, from + 1)
    }
}

/// The report with nothing pressed.
pub open spec fn empty_report() -> ReportView {
    ReportView { modifier: 0, reserved: 0, keycodes: Seq::new(SLOTS as nat, |i: int| NO) }
}

/// The report that signals the error `kc`: no modifier, `kc` in every slot.
pub open spec fn error_report(r: ReportView, kc: u8) -> ReportView {
    ReportView { modifier: 0, reserved: r.reserved, keycodes: Seq::new(SLOTS as nat, |i: int| kc) }
}

/// The report after one more active key code: "no" changes nothing, an error
/// code takes all slots, a modifier sets its bit, and an ordinary key takes
/// the first free slot or, if there is none, turns the report into the
/// roll-over error.
pub open spec fn pressed(r: ReportView, kc: u8) -> ReportView {
    if kc == NO {
        r
    } else if is_error_code(kc) {
        error_report(r, kc)
    } else if is_modifier_code(kc) {
        ReportView { modifier: r.modifier | modifier_bit(kc), ..r }
    } else {
        let slot = first_free_from(r.keycodes, 0);
        if slot < r.keycodes.len() {
            ReportView { keycodes: r.keycodes.update(slot, kc), ..r }
        } else {
            error_report(r, ERROR_ROLL_OVER)
        }
    }
}

/// The report of a list of active key codes, taken in their order.
pub open spec fn report_of(keycodes: Seq<u8>) -> ReportView
    decreases keycodes.len(),
{
    if keycodes.len() == 0 {
        empty_report()
    } else {
        pressed(report_of(keycodes.drop_last()), keycodes.last())
    }
}

impl KeyboardReport {
    /// The report with nothing pressed.
    pub fn new() -> (report: KeyboardReport)
        ensures
            report@ == empty_report(),
    {
        let report = KeyboardReport { modifier: 0, reserved: 0, keycodes: [NO; 6] };
        assert(report@.keycodes =~= empty_report().keycodes);
        report
    }

    /// Whether two reports are the same, byte for byte.
    pub fn same_as(&self, other: &KeyboardReport) -> (same: bool)
        ensures
            same == (self@ == other@),
    {
        let mut same = self.modifier == other.modifier && self.reserved == other.reserved;
        let mut i: usize = 0;
        while i < SLOTS
            invariant
                i <= SLOTS,
                same == (self.modifier == other.modifier && self.reserved == other.reserved
                    && forall|k: int| 0 <= k < i ==> self.keycodes[k] == other.keycodes[k]),
            decreases SLOTS - i,
        {
            if self.keycodes[i] != other.keycodes[i] {
                same = false;
            }
            i += 1;
        }
        proof {
            if same {
                assert(self.keycodes@ =~= other.keycodes@);
            } else if self.modifier == other.modifier && self.reserved == other.reserved {
                let k = choose|k: int| 0 <= k < SLOTS && self.keycodes[k] != other.keycodes[k];
                assert(self.keycodes@[k] != other.keycodes@[k]);
            }
        }
        same
    }
}

/// Returns `true` if the key code corresponds to a modifier, sent separately
/// in the report.
pub fn is_modifier(kc: u8) -> (b: bool)
    ensures
        b == is_modifier_code(kc),
{
    LCTRL <= kc && kc <= RGUI
}

/// Returns the byte with the bit corresponding to the modifier set.
pub fn as_modifier_bit(kc: u8) -> (bit: u8)
    ensures
        bit == modifier_bit(kc),
{
    if is_modifier(kc) {
        let shift: u8 = kc - LCTRL;
        assert(shift < 8 ==> (1u8 << shift) == if shift == 0 {
            0x01u8
        } else if shift == 1 {
            0x02u8
        } else if shift == 2 {
            0x04u8
        } else if shift == 3 {
            0x08u8
        } else if shift == 4 {
            0x10u8
        } else if shift == 5 {
            0x20u8
        } else if shift == 6 {
            0x40u8
        } else {
            0x80u8
        }) by (bit_vector);
        1u8 << shift
    } else {
        0
    }
}

/// Set a report as an error based on keycode `kc`.
pub fn keyboard_report_set_error(report: &mut KeyboardReport, kc: u8)
    ensures
        final(report)@ == error_report(old(report)@, kc),
{
    report.modifier = 0;
    report.keycodes = [kc; 6];
    assert(report@.keycodes =~= error_report(old(report)@, kc).keycodes);
}

/// Adds one active key code to the report.
pub fn keyboard_report_press(report: &mut KeyboardReport, kc: u8)
    ensures
        final(report)@ == pressed(old(report)@, kc),
{
    if kc == NO {
    } else if kc <= ERROR_UNDEFINED {
        keyboard_report_set_error(report, kc);
    } else if is_modifier(kc) {
        report.modifier = report.modifier | as_modifier_bit(kc);
    } else {
        let mut slot: usize = 0;
        while slot < SLOTS && report.keycodes[slot] != 0
            invariant
                slot <= SLOTS,
                *report == *old(report),
                first_free_from(report.keycodes@, 0) == first_free_from(
                    report.keycodes@,
                    slot as int,
                ),
            decreases SLOTS - slot,
        {
            slot += 1;
        }
        if slot < SLOTS {
            report.keycodes[slot] = kc;
            assert(report@.keycodes =~= old(report)@.keycodes.update(slot as int, kc));
        } else {
            keyboard_report_set_error(report, ERROR_ROLL_OVER);
        }
    }
}

/// Generate a HID report from the current layout.
pub fn generate_hid_kb_report(layout: &Layout) -> (report: KeyboardReport)
    ensures
        report@ == report_of(active_keycodes(*layout)),
{
    let keycodes = layout_keycodes(layout);
    report_from_keycodes(keycodes.as_slice())
}

/// Generate a HID report from a list of active key codes.
pub fn report_from_keycodes(keycodes: &[u8]) -> (report: KeyboardReport)
    ensures
        report@ == report_of(keycodes@),
{
    let mut report = KeyboardReport::new();
    let mut i: usize = 0;
    while i < keycodes.len()
        invariant
            i <= keycodes.len(),
            report@ == report_of(keycodes@.take(i as int)),
        decreases keycodes.len() - i,
    {
        assert(keycodes@.take(i + 1).drop_last() =~= keycodes@.take(i as int));
        keyboard_report_press(&mut report, keycodes[i]);
        i += 1;
    }
    assert(keycodes@.take(keycodes.len() as int) =~= keycodes@);
    report
}

/// The ordinary key codes among `keycodes`, in their order.
pub open spec fn regular_codes(keycodes: Seq<u8>) -> Seq<u8>
    decreases keycodes.len(),
{
    if keycodes.len() == 0 {
        Seq::empty()
    } else if is_regular_code(keycodes.last()) {
        regular_codes(keycodes.drop_last()).push(keycodes.last())
    } else {
        regular_codes(keycodes.drop_last())
    }
}

/// The bitmask of the modifiers among `keycodes`.
pub open spec fn modifiers_of(keycodes: Seq<u8>) -> u8
    decreases keycodes.len(),
{
    if keycodes.len() == 0 {
        0
    } else if is_modifier_code(keycodes.last()) {
        modifiers_of(keycodes.drop_last()) | modifier_bit(keycodes.last())
    } else {
        modifiers_of(keycodes.drop_last())
    }
}

/// Six slots that hold `codes` from the first slot on and are free after them.
pub open spec fn padded(codes: Seq<u8>) -> Seq<u8> {
    Seq::new(
        SLOTS as nat,
        |i: int|
            if i < codes.len() {
                codes[i]
            } else {
                NO
            },
    )
}

/// Whether no key code of the list reports an error.
pub open spec fn no_error_codes(keycodes: Seq<u8>) -> bool {
    forall|i: int| 0 <= i < keycodes.len() ==> !is_error_code(#[trigger] keycodes[i])
}

proof fn lemma_regular_codes(keycodes: Seq<u8>)
    ensures
        regular_codes(keycodes).len() <= keycodes.len(),
        forall|i: int|
            0 <= i < regular_codes(keycodes).len() ==> is_regular_code(
                #[trigger] regular_codes(keycodes)[i],
            ),
        (forall|i: int| 0 <= i < keycodes.len() ==> is_regular_code(#[trigger] keycodes[i]))
            ==> regular_codes(keycodes) == keycodes,
        (forall|i: int| 0 <= i < keycodes.len() ==> !is_modifier_code(#[trigger] keycodes[i]))
            ==> modifiers_of(keycodes) == 0,
    decreases keycodes.len(),
{
    if keycodes.len() > 0 {
        lemma_regular_codes(keycodes.drop_last());
        if forall|i: int| 0 <= i < keycodes.len() ==> is_regular_code(#[trigger] keycodes[i]) {
            assert forall|i: int| 0 <= i < keycodes.drop_last().len() implies is_regular_code(
                #[trigger] keycodes.drop_last()[i],
            ) by {
                assert(keycodes.drop_last()[i] == keycodes[i]);
            }
            assert(regular_codes(keycodes) =~= keycodes);
        }
        if forall|i: int| 0 <= i < keycodes.len() ==> !is_modifier_code(#[trigger] keycodes[i]) {
            assert forall|i: int| 0 <= i < keycodes.drop_last().len() implies !is_modifier_code(
                #[trigger] keycodes.drop_last()[i],
            ) by {
                assert(keycodes.drop_last()[i] == keycodes[i]);
            }
        }
    }
}

proof fn lemma_first_free_padded(codes: Seq<u8>, from: int)
    requires
        codes.len() <= SLOTS,
        0 <= from <= codes.len(),
        forall|i: int| 0 <= i < codes.len() ==> #[trigger] codes[i] != NO,
    ensures
        first_free_from(padded(codes), from) == codes.len(),
    decreases codes.len() - from,
{
    if from < codes.len() {
        lemma_first_free_padded(codes, from + 1);
    }
}

proof fn lemma_first_free_full(slots: Seq<u8>, from: int)
    requires
        0 <= from <= slots.len(),
        forall|i: int| 0 <= i < slots.len() ==> #[trigger] slots[i] != NO,
    ensures
        first_free_from(slots, from) == slots.len(),
    decreases slots.len() - from,
{
    if from < slots.len() {
        lemma_first_free_full(slots, from + 1);
    }
}

proof fn lemma_no_error_codes_prefix(keycodes: Seq<u8>)
    requires
        keycodes.len() > 0,
        no_error_codes(keycodes),
    ensures
        no_error_codes(keycodes.drop_last()),
        !is_error_code(keycodes.last()),
{
    assert forall|i: int| 0 <= i < keycodes.drop_last().len() implies !is_error_code(
        #[trigger] keycodes.drop_last()[i],
    ) by {
        assert(keycodes.drop_last()[i] == keycodes[i]);
    }
}

/// Up to six ordinary keys: each is in a slot, in the order in which the
/// keys came, the slots after them are free, and the bitmask holds the
/// modifiers.
pub proof fn lemma_report_within_rollover(keycodes: Seq<u8>)
    requires
        no_error_codes(keycodes),
        regular_codes(keycodes).len() <= SLOTS,
    ensures
        report_of(keycodes) == (ReportView {
            modifier: modifiers_of(keycodes),
            reserved: 0,
            keycodes: padded(regular_codes(keycodes)),
        }),
    decreases keycodes.len(),
{
    if keycodes.len() == 0 {
        assert(empty_report().keycodes =~= padded(regular_codes(keycodes)));
    } else {
        let before = keycodes.drop_last();
        let kc = keycodes.last();
        lemma_no_error_codes_prefix(keycodes);
        lemma_regular_codes(before);
        lemma_report_within_rollover(before);
        if is_regular_code(kc) {
            let codes = regular_codes(before);
            lemma_first_free_padded(codes, 0);
            assert(padded(codes).update(codes.len() as int, kc) =~= padded(codes.push(kc)));
        }
    }
}

/// More than six ordinary keys: every slot holds the roll-over error.
pub proof fn lemma_report_beyond_rollover(keycodes: Seq<u8>)
    requires
        no_error_codes(keycodes),
        regular_codes(keycodes).len() > SLOTS,
    ensures
        report_of(keycodes).keycodes == error_report(empty_report(), ERROR_ROLL_OVER).keycodes,
        report_of(keycodes).reserved == 0,
        (forall|i: int| 0 <= i < keycodes.len() ==> !is_modifier_code(#[trigger] keycodes[i]))
            ==> report_of(keycodes).modifier == 0,
    decreases keycodes.len(),
{
    let before = keycodes.drop_last();
    let kc = keycodes.last();
    lemma_regular_codes(keycodes);
    lemma_no_error_codes_prefix(keycodes);
    lemma_regular_codes(before);
    let full = error_report(empty_report(), ERROR_ROLL_OVER).keycodes;
    if forall|i: int| 0 <= i < keycodes.len() ==> !is_modifier_code(#[trigger] keycodes[i]) {
        assert forall|i: int| 0 <= i < before.len() implies !is_modifier_code(
            #[trigger] before[i],
        ) by {
            assert(before[i] == keycodes[i]);
        }
    }
    if regular_codes(before).len() > SLOTS {
        lemma_report_beyond_rollover(before);
        lemma_first_free_full(full, 0);
    } else {
        lemma_report_within_rollover(before);
        let codes = regular_codes(before);
        assert(codes.len() == SLOTS);
        lemma_first_free_padded(codes, 0);
    }
    assert(error_report(report_of(before), ERROR_ROLL_OVER).keycodes =~= full);
}

/// Rollover: of ordinary keys alone, up to six fill the slots in their order,
/// each once where no key comes twice, and seven or more give the report
/// that holds the roll-over error in every slot and nothing else.
pub proof fn lemma_rollover(keycodes: Seq<u8>)
    requires
        forall|i: int| 0 <= i < keycodes.len() ==> is_regular_code(#[trigger] keycodes[i]),
    ensures
        keycodes.len() > SLOTS ==> report_of(keycodes) == error_report(
            empty_report(),
            ERROR_ROLL_OVER,
        ),
        keycodes.len() <= SLOTS ==> report_of(keycodes) == (ReportView {
            modifier: 0,
            reserved: 0,
            keycodes: padded(keycodes),
        }),
        keycodes.len() <= SLOTS && keycodes.no_duplicates() ==> forall|i: int, j: int|
            0 <= i < j < SLOTS && report_of(keycodes).keycodes[i] != NO ==> report_of(
                keycodes,
            ).keycodes[i] != report_of(keycodes).keycodes[j],
{
    lemma_regular_codes(keycodes);
    if keycodes.len() > SLOTS {
        lemma_report_beyond_rollover(keycodes);
    } else {
        lemma_report_within_rollover(keycodes);
    }
}

/// What the layout handler keeps between ticks: the mouse, and the keyboard
/// and mouse reports that were last emitted.
pub struct LayoutState {
    mouse: MouseHandler,
    old_kb_report: KeyboardReport,
    old_mouse_report: MouseReport,
}

/// The reports that a tick of the layout handler emits, the keyboard report
/// first.
pub struct Reports {
    /// The keyboard report, where it differs from the last one emitted.
    pub keyboard: Option<KeyboardReport>,
    /// The mouse report, where it differs from the last one emitted.
    pub mouse: Option<MouseReport>,
}

impl LayoutState {
    /// The state of the mouse.
    pub closed spec fn mouse(&self) -> MouseState {
        self.mouse@
    }

    /// The keyboard report that was last emitted.
    pub closed spec fn last_report(&self) -> ReportView {
        self.old_kb_report@
    }

    /// The mouse report that was last emitted.
    pub closed spec fn last_mouse_report(&self) -> MouseReport {
        self.old_mouse_report
    }

    /// The state at start: a new mouse, and as the reports last emitted the
    /// empty keyboard report and the mouse report without movement, which is
    /// what the host assumes.
    pub fn new() -> (state: LayoutState)
        ensures
            state.mouse() == MouseState::initial(),
            state.last_report() == empty_report(),
            state.last_mouse_report() == (MouseReport { x: 0, y: 0, buttons: 0, wheel: 0, pan: 0 }),
    {
        LayoutState {
            mouse: MouseHandler::new(),
            old_kb_report: KeyboardReport::new(),
            old_mouse_report: MouseReport { x: 0, y: 0, buttons: 0, wheel: 0, pan: 0 },
        }
    }

    /// One tick, from what the layout engine gave: `keycodes` are the key
    /// codes that it holds active, `custom_event` is what its tick returned.
    ///
    /// The keyboard report is generated from the key codes and emitted if it
    /// differs from the last one emitted. The custom event goes to the mouse
    /// in this same tick, the mouse lets the tick pass, and the mouse report
    /// generated then is emitted if it differs from the last one emitted.
    pub fn tick(&mut self, keycodes: &[u8], custom_event: KbCustomEvent) -> (reports: Reports)
        ensures
            final(self).last_report() == report_of(keycodes@),
            reports.keyboard is Some <==> report_of(keycodes@) != old(self).last_report(),
            reports.keyboard matches Some(report) ==> report@ == report_of(keycodes@),
            final(self).mouse() == old(self).mouse().process(custom_event).advanced(),
            final(self).last_mouse_report() == final(self).mouse().report(),
            reports.mouse is Some <==> final(self).mouse().report() != old(
                self,
            ).last_mouse_report(),
            reports.mouse matches Some(report) ==> report == final(self).mouse().report(),
    {
        let kb_report = report_from_keycodes(keycodes);
        let keyboard = if !kb_report.same_as(&self.old_kb_report) {
            self.old_kb_report = kb_report;
            Some(kb_report)
        } else {
            None
        };
        self.mouse.process_event(custom_event);
        self.mouse.advance();
        let mouse_report = self.mouse.generate_hid_report();
        let mouse = if mouse_report != self.old_mouse_report {
            self.old_mouse_report = mouse_report;
            Some(mouse_report)
        } else {
            None
        };
        Reports { keyboard, mouse }
    }
}

/// One tick of the layout handler, after the layout has taken the pending
/// events and its own tick, which returned `custom_event`: the keyboard
/// report is that of the key codes that the layout now holds active, the
/// mouse report that of the mouse after the custom event and the tick, and
/// each is to be sent if it differs from the last one of its kind.
pub fn layout_handler(
    state: &mut LayoutState,
    layout: &Layout,
    custom_event: KbCustomEvent,
) -> (reports: Reports)
    ensures
        final(state).last_report() == report_of(active_keycodes(*layout)),
        reports.keyboard is Some <==> report_of(active_keycodes(*layout)) != old(
            state,
        ).last_report(),
        reports.keyboard matches Some(report) ==> report@ == report_of(active_keycodes(*layout)),
        final(state).mouse() == old(state).mouse().process(custom_event).advanced(),
        final(state).last_mouse_report() == final(state).mouse().report(),
        reports.mouse is Some <==> final(state).mouse().report() != old(
            state,
        ).last_mouse_report(),
        reports.mouse matches Some(report) ==> report == final(state).mouse().report(),
{
    let keycodes = layout_keycodes(layout);
    state.tick(keycodes.as_slice(), custom_event)
}

} // verus!
