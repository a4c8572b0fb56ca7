//! Interrupt management: IRQ numbers, the priority plan, and the table of
//! handlers that the dispatcher consults.
use vstd::prelude::*;

verus! {

/// DMA controller transfer-complete interrupt.
pub const IRQ_DMA: u8 = 0;
/// I2S0 interrupt (TX FIFO underrun / overrun).
pub const IRQ_I2S0: u8 = 1;
/// I2C0 interrupt.
pub const IRQ_I2C0: u8 = 4;
/// I2C1 interrupt.
pub const IRQ_I2C1: u8 = 5;
/// SPI0 interrupt.
pub const IRQ_SPI0: u8 = 6;
/// GPIO0 combined interrupt.
pub const IRQ_GPIO0: u8 = 10;
/// GPIO1 combined interrupt.
pub const IRQ_GPIO1: u8 = 11;
/// Timer0 interrupt.
pub const IRQ_TIMER0: u8 = 14;
/// eMMC / SD controller interrupt.
pub const IRQ_EMMC: u8 = 16;

/// Maximum number of external IRQ sources.
pub const IRQ_COUNT: usize = 32;

pub const PRIO_AUDIO_DMA: u8 = 0x10;
pub const PRIO_I2C: u8 = 0x20;
pub const PRIO_I2S: u8 = 0x20;
pub const PRIO_SPI: u8 = 0x30;
pub const PRIO_GPIO: u8 = 0x40;
pub const PRIO_TIMER: u8 = 0x30;

/// Thin wrapper around a raw IRQ number.
#[derive(Clone, Copy, Debug, PartialEq, Eq, Structural)]
pub struct IrqNum(pub u8);

impl IrqNum {
    /// The IRQ line number.
    pub fn number(self) -> (n: u16)
        ensures
            n == self.0 as u16,
    {
        self.0 as u16
    }
}

/// The NVIC priority of each interrupt line the system uses.
pub open spec fn priority_plan() -> Seq<(IrqNum, u8)> {
    seq![
        (IrqNum(IRQ_DMA), PRIO_AUDIO_DMA),
        (IrqNum(IRQ_I2S0), PRIO_I2S),
        (IrqNum(IRQ_I2C0), PRIO_I2C),
        (IrqNum(IRQ_I2C1), PRIO_I2C),
        (IrqNum(IRQ_SPI0), PRIO_SPI),
        (IrqNum(IRQ_GPIO0), PRIO_GPIO),
        (IrqNum(IRQ_GPIO1), PRIO_GPIO),
        (IrqNum(IRQ_TIMER0), PRIO_TIMER),
    ]
}

/// The NVIC priority of each interrupt line the system uses: audio DMA
/// highest, then I2C/I2S, SPI and the timer, and GPIO (the UI) lowest.
pub fn nvic_priorities() -> (p: Vec<(IrqNum, u8)>)
    ensures
        p@ == priority_plan(),
{
    let mut p: Vec<(IrqNum, u8)> = Vec::new();
    p.push((IrqNum(IRQ_DMA), PRIO_AUDIO_DMA));
    p.push((IrqNum(IRQ_I2S0), PRIO_I2S));
    p.push((IrqNum(IRQ_I2C0), PRIO_I2C));
    p.push((IrqNum(IRQ_I2C1), PRIO_I2C));
    p.push((IrqNum(IRQ_SPI0), PRIO_SPI));
    p.push((IrqNum(IRQ_GPIO0), PRIO_GPIO));
    p.push((IrqNum(IRQ_GPIO1), PRIO_GPIO));
    p.push((IrqNum(IRQ_TIMER0), PRIO_TIMER));
    p
}

/// Audio can never be starved: the audio DMA line is strictly more urgent
/// (a smaller priority number) than every other line, and the GPIO lines
/// of the UI are the least urgent of all.
pub proof fn lemma_priority_plan()
    ensures
        priority_plan()[0] == (IrqNum(IRQ_DMA), PRIO_AUDIO_DMA),
        forall|i: int| 0 < i < priority_plan().len() ==> PRIO_AUDIO_DMA < #[trigger] priority_plan()[i].1,
        forall|i: int| 0 <= i < priority_plan().len() ==> #[trigger] priority_plan()[i].1 <= PRIO_GPIO,
        forall|i: int| 0 <= i < priority_plan().len() && (priority_plan()[i].0 == IrqNum(IRQ_GPIO0)
            || priority_plan()[i].0 == IrqNum(IRQ_GPIO1)) ==> #[trigger] priority_plan()[i].1 == PRIO_GPIO,
{
}

/// The interrupt lines unmasked at start-up.
pub fn nvic_enabled() -> (e: Vec<IrqNum>)
    ensures
        e@ == seq![IrqNum(IRQ_DMA), IrqNum(IRQ_I2S0), IrqNum(IRQ_I2C0), IrqNum(IRQ_I2C1), IrqNum(IRQ_GPIO0)],
{
    let mut e: Vec<IrqNum> = Vec::new();
    e.push(IrqNum(IRQ_DMA));
    e.push(IrqNum(IRQ_I2S0));
    e.push(IrqNum(IRQ_I2C0));
    e.push(IrqNum(IRQ_I2C1));
    e.push(IrqNum(IRQ_GPIO0));
    e
}

/// The handler registered for each of the `IRQ_COUNT` lines.
pub struct HandlerTable<F> {
    handlers: Vec<F>,
}

impl<F: Copy> HandlerTable<F> {
    pub closed spec fn view(&self) -> Seq<F> {
        self.handlers@
    }

    /// A table with `default` on every line.
    pub fn new(default: F) -> (t: Self)
        ensures
            t.view().len() == IRQ_COUNT,
            forall|i: int| 0 <= i < IRQ_COUNT ==> #[trigger] t.view()[i] == default,
    {
        let mut handlers: Vec<F> = Vec::new();
        let mut k: usize = 0;
        while k < IRQ_COUNT
            invariant
                k <= IRQ_COUNT,
                handlers@.len() == k,
                forall|i: int| 0 <= i < k ==> #[trigger] handlers@[i] == default,
            decreases IRQ_COUNT - k,
        {
            handlers.push(default);
            k = k + 1;
        }
        HandlerTable { handlers }
    }
}

/// Register a handler for an IRQ number.
pub fn register<F: Copy>(table: &mut HandlerTable<F>, irq: u8, handler: F)
    requires
        old(table).view().len() == IRQ_COUNT,
        irq < IRQ_COUNT,
    ensures
        final(table).view() == old(table).view().update(irq as int, handler),
{
    table.handlers.set(irq as usize, handler);
}

/// The handler to run for an interrupt.
pub fn dispatch<F: Copy>(table: &HandlerTable<F>, irq: u8) -> (handler: F)
    requires
        table.view().len() == IRQ_COUNT,
        irq < IRQ_COUNT,
    ensures
        handler == table.view()[irq as int],
{
    table.handlers[irq as usize]
}

/// Dispatching an interrupt runs the handler most recently registered for
/// it; registering leaves every other line alone.
pub proof fn lemma_register_dispatch<F>(before: Seq<F>, irq: int, handler: F, other: int)
    requires
        before.len() == IRQ_COUNT,
        0 <= irq < IRQ_COUNT,
        0 <= other < IRQ_COUNT,
        other != irq,
    ensures
        before.update(irq, handler)[irq] == handler,
        before.update(irq, handler)[other] == before[other],
        before.update(irq, handler).len() == IRQ_COUNT,
{
}

} // verus!
