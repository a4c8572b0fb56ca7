//! Five active-low buttons on GPIO bank 0: falling-edge interrupts plus a
//! software debounce.
use vstd::prelude::*;
use crate::hal::{gpio, interrupt};
use crate::hal::gpio::{irq_falling_ops, clear_irq_ops, pin_bit};
use crate::hal::interrupt::HandlerTable;
use crate::hal::mmio::{HwOp, ops_for, extend_ops};

verus! {

/// GPIO bank of the buttons.
pub const BTN_BANK: usize = 0;
pub const PIN_PREV: u8 = 0;
pub const PIN_PLAY: u8 = 1;
pub const PIN_NEXT: u8 = 2;
pub const PIN_VOLUP: u8 = 3;
pub const PIN_VOLDN: u8 = 4;

/// The button pins, in event order (event code = index + 1).
pub const ALL_PINS: [u8; 5] = [0, 1, 2, 3, 4];

/// Consecutive differing reads needed before a level change is accepted.
pub const DEBOUNCE_COUNT: u8 = 3;

/// High-level button events consumed by the UI.
#[derive(Clone, Copy, Debug, PartialEq, Eq, Structural)]
pub enum ButtonEvent {
    NoButton,
    Prev,
    Play,
    Next,
    VolUp,
    VolDown,
}

/// The event with code `v` (1 to 5); any other code is `NoButton`.
pub open spec fn event_of(v: u8) -> ButtonEvent {
    if v == 1 { ButtonEvent::Prev }
    else if v == 2 { ButtonEvent::Play }
    else if v == 3 { ButtonEvent::Next }
    else if v == 4 { ButtonEvent::VolUp }
    else if v == 5 { ButtonEvent::VolDown }
    else { ButtonEvent::NoButton }
}

pub open spec fn event_code(e: ButtonEvent) -> u8 {
    match e {
        ButtonEvent::NoButton => 0,
        ButtonEvent::Prev => 1,
        ButtonEvent::Play => 2,
        ButtonEvent::Next => 3,
        ButtonEvent::VolUp => 4,
        ButtonEvent::VolDown => 5,
    }
}

impl ButtonEvent {
    /// The event's code.
    pub fn code(self) -> (c: u8)
        ensures
            c == event_code(self),
    {
        match self {
            ButtonEvent::NoButton => 0,
            ButtonEvent::Prev => 1,
            ButtonEvent::Play => 2,
            ButtonEvent::Next => 3,
            ButtonEvent::VolUp => 4,
            ButtonEvent::VolDown => 5,
        }
    }
}

impl From<u8> for ButtonEvent {
    fn from(v: u8) -> (e: Self) {
        match v {
            1 => ButtonEvent::Prev,
            2 => ButtonEvent::Play,
            3 => ButtonEvent::Next,
            4 => ButtonEvent::VolUp,
            5 => ButtonEvent::VolDown,
            _ => ButtonEvent::NoButton,
        }
    }
}

impl vstd::std_specs::convert::FromSpecImpl<u8> for ButtonEvent {
    open spec fn obeys_from_spec() -> bool {
        true
    }

    open spec fn from_spec(v: u8) -> Self {
        event_of(v)
    }
}

/// Decoding an event's code gives the event back.
pub proof fn lemma_event_code_roundtrip(e: ButtonEvent)
    ensures
        event_of(event_code(e)) == e,
{
}

/// Debounce state of one button.
#[derive(Clone, Copy, Debug, PartialEq, Eq, Structural)]
pub struct DebounceState {
    /// The accepted level: true when pressed.
    pub stable: bool,
    /// Consecutive reads that differed from `stable`.
    pub count: u8,
}

/// One scan of a button that read `pressed`.
pub open spec fn debounce_step(s: DebounceState, pressed: bool) -> DebounceState {
    if pressed != s.stable {
        if s.count + 1 >= DEBOUNCE_COUNT {
            DebounceState { stable: pressed, count: 0 }
        } else {
            DebounceState { stable: s.stable, count: (s.count + 1) as u8 }
        }
    } else {
        DebounceState { stable: s.stable, count: 0 }
    }
}

/// Whether the scan accepts a new press.
pub open spec fn confirms(s: DebounceState, pressed: bool) -> bool {
    pressed && pressed != s.stable && s.count + 1 >= DEBOUNCE_COUNT
}

/// Whether the button on `pin` reads pressed (active low) in `port`.
pub open spec fn pressed_in(port: u32, pin: int) -> bool {
    port & pin_bit(pin as u8) == 0
}

/// The first button, from `i` on, whose scan accepts a press; 5 if none.
pub open spec fn first_confirm(states: Seq<DebounceState>, port: u32, i: int) -> int
    decreases 5 - i,
{
    if i >= 5 {
        5
    } else if confirms(states[i], pressed_in(port, i)) {
        i
    } else {
        first_confirm(states, port, i + 1)
    }
}

/// The states after a scan that stopped after button `last` (all five if `last >= 5`).
pub open spec fn scanned(states: Seq<DebounceState>, port: u32, last: int) -> Seq<DebounceState> {
    Seq::new(5, |j: int| if j <= last { debounce_step(states[j], pressed_in(port, j)) } else { states[j] })
}

/// The debounce states of all five buttons.
pub struct Debouncer {
    states: Vec<DebounceState>,
}

impl Debouncer {
    pub closed spec fn view(&self) -> Seq<DebounceState> {
        self.states@
    }

    pub open spec fn wf(&self) -> bool {
        &&& self.view().len() == 5
        &&& forall|j: int| 0 <= j < 5 ==> #[trigger] self.view()[j].count < DEBOUNCE_COUNT
    }

    /// Every button starts stable-pressed with no pending change, so
    /// released buttons are first accepted as released, without an event.
    pub fn new() -> (d: Self)
        ensures
            d.wf(),
            forall|j: int| 0 <= j < 5 ==> #[trigger] d.view()[j] == (DebounceState { stable: true, count: 0 }),
    {
        let mut states: Vec<DebounceState> = Vec::new();
        let mut k: usize = 0;
        while k < 5
            invariant
                k <= 5,
                states@.len() == k,
                forall|j: int| 0 <= j < k ==> #[trigger] states@[j] == (DebounceState { stable: true, count: 0 }),
            decreases 5 - k,
        {
            states.push(DebounceState { stable: true, count: 0 });
            k = k + 1;
        }
        Debouncer { states }
    }
}

/// Configure the button pins as inputs with falling-edge interrupts and
/// register `isr` for the GPIO bank 0 interrupt.
pub fn init<F: Copy>(table: &mut HandlerTable<F>, isr: F) -> (ops: Vec<HwOp>)
    requires
        old(table).view().len() == interrupt::IRQ_COUNT,
    ensures
        final(table).view() == old(table).view().update(interrupt::IRQ_GPIO0 as int, isr),
        ops@ == ops_for(5, |i: int| irq_falling_ops(BTN_BANK, i as u8)),
{
    let pins = ALL_PINS;
    let mut ops: Vec<HwOp> = Vec::new();
    let mut i: usize = 0;
    while i < 5
        invariant
            i <= 5,
            pins@ == ALL_PINS@,
            ops@ == ops_for(i as int, |k: int| irq_falling_ops(BTN_BANK, k as u8)),
        decreases 5 - i,
    {
        assert(pins@[i as int] == i);
        extend_ops(&mut ops, gpio::set_input_irq_falling(BTN_BANK, pins[i]));
        i = i + 1;
    }
    interrupt::register(table, interrupt::IRQ_GPIO0, isr);
    ops
}

/// The code of the last button, among the first `n`, whose flag is set in `flags`.
pub open spec fn last_flagged(flags: u32, n: int) -> int
    decreases n,
{
    if n <= 0 {
        0
    } else if flags & pin_bit((n - 1) as u8) != 0 {
        n
    } else {
        last_flagged(flags, n - 1)
    }
}

/// Button interrupt: acknowledge every flagged button (from the bank's
/// pending flags) and post the event of the last one.
pub fn button_isr(flags: u32, pending: &mut u8) -> (ops: Vec<HwOp>)
    ensures
        ops@ == ops_for(5, |i: int| if flags & pin_bit(i as u8) != 0 { clear_irq_ops(BTN_BANK, i as u8) } else { Seq::empty() }),
        *final(pending) == if last_flagged(flags, 5) == 0 { *old(pending) } else { last_flagged(flags, 5) as u8 },
{
    let pins = ALL_PINS;
    let mut ops: Vec<HwOp> = Vec::new();
    let mut i: usize = 0;
    while i < 5
        invariant
            i <= 5,
            pins@ == ALL_PINS@,
            ops@ == ops_for(i as int, |k: int| if flags & pin_bit(k as u8) != 0 { clear_irq_ops(BTN_BANK, k as u8) } else { Seq::empty() }),
            *pending == if last_flagged(flags, i as int) == 0 { *old(pending) } else { last_flagged(flags, i as int) as u8 },
        decreases 5 - i,
    {
        let pin = pins[i];
        assert(pin == i);
        if flags & (1u32 << pin) != 0 {
            extend_ops(&mut ops, gpio::clear_irq(BTN_BANK, pin));
            *pending = (i as u8) + 1;
        } else {
            assert(ops@ =~= ops@ + Seq::<HwOp>::empty());
        }
        i = i + 1;
    }
    ops
}

/// Software debounce: scan the buttons in order (levels from the bank's
/// input register `port`); a level must differ from the accepted one for
/// `DEBOUNCE_COUNT` scans in a row before it is accepted.  Returns the first
/// newly accepted press; the buttons after it are not scanned this time.
pub fn scan_debounce(db: &mut Debouncer, port: u32) -> (ev: Option<ButtonEvent>)
    requires
        old(db).wf(),
    ensures
        final(db).wf(),
        ({
            let k = first_confirm(old(db).view(), port, 0);
            &&& final(db).view() == scanned(old(db).view(), port, k)
            &&& ev == if k < 5 { Some(event_of((k + 1) as u8)) } else { None }
        }),
{
    let ghost s0 = db.view();
    let pins = ALL_PINS;
    let mut i: usize = 0;
    while i < 5
        invariant
            db.wf(),
            s0 == old(db).view(),
            pins@ == ALL_PINS@,
            i <= 5,
            first_confirm(s0, port, 0) == first_confirm(s0, port, i as int),
            db.view() == scanned(s0, port, i - 1),
        decreases 5 - i,
    {
        let pin = pins[i];
        assert(pin == i);
        let pressed = !gpio::read_pin(port, pin);
        let st = db.states[i];
        let next = if pressed != st.stable {
            if st.count + 1 >= DEBOUNCE_COUNT {
                DebounceState { stable: pressed, count: 0 }
            } else {
                DebounceState { stable: st.stable, count: st.count + 1 }
            }
        } else {
            DebounceState { stable: st.stable, count: 0 }
        };
        db.states.set(i, next);
        assert(db.view() =~= scanned(s0, port, i as int));
        if pressed && pressed != st.stable && st.count + 1 >= DEBOUNCE_COUNT {
            return Some(ButtonEvent::from((i as u8) + 1));
        }
        i = i + 1;
    }
    None
}

/// Poll for a debounced button event.  `pending` is the interrupt mailbox
/// (an event code, 0 for none), which is emptied; `port` is the buttons'
/// input register.  A posted event is confirmed if its button still reads
/// pressed; with nothing posted, a debounce scan runs.
pub fn poll(pending: &mut u8, port: u32, db: &mut Debouncer) -> (ev: Option<ButtonEvent>)
    requires
        old(db).wf(),
    ensures
        *final(pending) == 0,
        final(db).wf(),
        *old(pending) == 0 ==> ({
            let k = first_confirm(old(db).view(), port, 0);
            &&& final(db).view() == scanned(old(db).view(), port, k)
            &&& ev == if k < 5 { Some(event_of((k + 1) as u8)) } else { None }
        }),
        *old(pending) != 0 ==> final(db).view() == old(db).view() && ev == if 1 <= *old(pending) <= 5
            && pressed_in(port, *old(pending) - 1) {
            Some(event_of(*old(pending)))
        } else {
            None
        },
{
    let raw = *pending;
    *pending = 0;
    if raw == 0 {
        return scan_debounce(db, port);
    }
    let event = ButtonEvent::from(raw);
    if event == ButtonEvent::NoButton {
        return None;
    }
    let pins = ALL_PINS;
    let pin_idx = (raw - 1) as usize;
    let pin = pins[pin_idx];
    assert(pin == raw - 1);
    if !gpio::read_pin(port, pin) {
        Some(event)
    } else {
        None
    }
}

/// A press is accepted only on the third consecutive scan that reads it:
/// from a settled released button, two scans that read it pressed accept
/// nothing, and the third accepts the press.
pub proof fn lemma_press_needs_three_scans(s: DebounceState)
    requires
        s.count == 0,
        !s.stable,
    ensures
        !confirms(s, true),
        !confirms(debounce_step(s, true), true),
        confirms(debounce_step(debounce_step(s, true), true), true),
        debounce_step(debounce_step(debounce_step(s, true), true), true) == (DebounceState { stable: true, count: 0 }),
{
}

/// A read that agrees with the accepted level cancels any pending change,
/// so a bounce shorter than `DEBOUNCE_COUNT` scans is never accepted.
pub proof fn lemma_bounce_resets(s: DebounceState)
    ensures
        debounce_step(s, s.stable) == (DebounceState { stable: s.stable, count: 0 }),
        !confirms(s, s.stable),
{
}

/// A change of level, either way (a press or a release), is accepted only
/// on the third consecutive scan that reads it: from a settled button, the
/// first two differing scans keep the accepted level and count, and the
/// third accepts the new level.
pub proof fn lemma_change_needs_three_scans(stable: bool)
    ensures
        debounce_step(DebounceState { stable, count: 0 }, !stable) == (DebounceState { stable, count: 1 }),
        debounce_step(DebounceState { stable, count: 1 }, !stable) == (DebounceState { stable, count: 2 }),
        debounce_step(DebounceState { stable, count: 2 }, !stable) == (DebounceState { stable: !stable, count: 0 }),
{
}

/// The state after scanning the reads `reads` in turn, from `s`.
pub open spec fn after_scans(s: DebounceState, reads: Seq<bool>) -> DebounceState
    decreases reads.len(),
{
    if reads.len() == 0 {
        s
    } else {
        debounce_step(after_scans(s, reads.drop_last()), reads.last())
    }
}

/// Fewer scans than `DEBOUNCE_COUNT`, whatever they read, never change the
/// accepted level of a settled button (pressed or released): a bounce is
/// never accepted, in either direction.
pub proof fn lemma_short_bounce_ignored(s: DebounceState, reads: Seq<bool>)
    requires
        s.count == 0,
        reads.len() < DEBOUNCE_COUNT,
    ensures
        after_scans(s, reads).stable == s.stable,
        after_scans(s, reads).count <= reads.len(),
    decreases reads.len(),
{
    if reads.len() > 0 {
        lemma_short_bounce_ignored(s, reads.drop_last());
    }
}

} // verus!
