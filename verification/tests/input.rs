use echo_mini_os::hal::gpio;
use echo_mini_os::hal::interrupt::{dispatch, HandlerTable, IRQ_GPIO0};
use echo_mini_os::hal::mmio::HwOp;
use echo_mini_os::input::buttons::{button_isr, init, poll, scan_debounce, ButtonEvent, Debouncer};

const ALL_RELEASED: u32 = 0x1F;

fn pressed(pin: u32) -> u32 {
    ALL_RELEASED & !(1 << pin)
}

#[test]
fn event_codes_round_trip() {
    for (code, ev) in [
        (0u8, ButtonEvent::NoButton),
        (1, ButtonEvent::Prev),
        (2, ButtonEvent::Play),
        (3, ButtonEvent::Next),
        (4, ButtonEvent::VolUp),
        (5, ButtonEvent::VolDown),
    ] {
        assert_eq!(ButtonEvent::from(code), ev);
        assert_eq!(ev.code(), code);
    }
    assert_eq!(ButtonEvent::from(6), ButtonEvent::NoButton);
    assert_eq!(ButtonEvent::from(255), ButtonEvent::NoButton);
}

#[test]
fn init_arms_five_falling_edge_interrupts() {
    let mut table = HandlerTable::new(0u8);
    let ops = init(&mut table, 3u8);
    assert_eq!(dispatch(&table, IRQ_GPIO0), 3);
    let mut expected = Vec::new();
    for pin in 0..5u8 {
        expected.extend(gpio::set_input_irq_falling(0, pin));
    }
    assert_eq!(ops, expected);
}

#[test]
fn isr_acknowledges_and_posts_last_flagged() {
    let mut pending = 0u8;
    let ops = button_isr(0b00110, &mut pending);
    assert_eq!(pending, 3);
    assert_eq!(ops, vec![gpio::clear_irq(0, 1)[0], gpio::clear_irq(0, 2)[0]]);
    let ops = button_isr(0, &mut pending);
    assert!(ops.is_empty());
    assert_eq!(pending, 3);
    let ops = button_isr(1 << 7, &mut pending);
    assert!(ops.is_empty());
    assert_eq!(pending, 3);
    assert!(matches!(button_isr(1, &mut pending)[0], HwOp::Write { val: 1, .. }));
    assert_eq!(pending, 1);
}

#[test]
fn press_needs_three_scans() {
    let mut db = Debouncer::new();
    // Settle: buttons start as held, so release takes three scans and posts nothing.
    for _ in 0..3 {
        assert_eq!(scan_debounce(&mut db, ALL_RELEASED), None);
    }
    assert_eq!(scan_debounce(&mut db, pressed(1)), None);
    assert_eq!(scan_debounce(&mut db, pressed(1)), None);
    assert_eq!(scan_debounce(&mut db, pressed(1)), Some(ButtonEvent::Play));
    // Held: no repeat.
    assert_eq!(scan_debounce(&mut db, pressed(1)), None);
}

#[test]
fn bounce_restarts_the_count() {
    let mut db = Debouncer::new();
    for _ in 0..3 {
        scan_debounce(&mut db, ALL_RELEASED);
    }
    assert_eq!(scan_debounce(&mut db, pressed(4)), None);
    assert_eq!(scan_debounce(&mut db, pressed(4)), None);
    assert_eq!(scan_debounce(&mut db, ALL_RELEASED), None);
    assert_eq!(scan_debounce(&mut db, pressed(4)), None);
    assert_eq!(scan_debounce(&mut db, pressed(4)), None);
    assert_eq!(scan_debounce(&mut db, pressed(4)), Some(ButtonEvent::VolDown));
}

#[test]
fn poll_uses_mailbox_first() {
    let mut db = Debouncer::new();
    let mut pending = 2u8;
    assert_eq!(poll(&mut pending, pressed(1), &mut db), Some(ButtonEvent::Play));
    assert_eq!(pending, 0);
    // Posted but already released: nothing.
    let mut pending = 2u8;
    assert_eq!(poll(&mut pending, ALL_RELEASED, &mut db), None);
    // Invalid code: nothing.
    let mut pending = 9u8;
    assert_eq!(poll(&mut pending, 0, &mut db), None);
    assert_eq!(pending, 0);
    // Empty mailbox: a debounce scan.
    for _ in 0..3 {
        poll(&mut pending, ALL_RELEASED, &mut db);
    }
    poll(&mut pending, pressed(0), &mut db);
    poll(&mut pending, pressed(0), &mut db);
    assert_eq!(poll(&mut pending, pressed(0), &mut db), Some(ButtonEvent::Prev));
}
