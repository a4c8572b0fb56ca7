//! Memory-mapped I/O for the RKNanoD peripheral bus.
//!
//! Drivers do not touch registers themselves: they build a program of
//! register operations (`HwOp`), which an `Executor` runs one bus access at
//! a time against the hardware.  The executor decides, from each value
//! read, what to access next: read-modify-write, spinning on a status bit,
//! polling with a timeout, and checking an abort register.
use vstd::prelude::*;

verus! {

// ── Rockchip RKNanoD peripheral base addresses ───────────────────────────────
pub const CRU_BASE: usize = 0x4000_0000;
pub const TIMER_BASE: usize = 0x4000_0400;
pub const WDT_BASE: usize = 0x4000_0800;
pub const GPIO0_BASE: usize = 0x4000_1000;
pub const GPIO1_BASE: usize = 0x4000_1400;
pub const I2C0_BASE: usize = 0x4000_2000;
pub const I2C1_BASE: usize = 0x4000_2400;
pub const SPI0_BASE: usize = 0x4000_3000;
pub const UART0_BASE: usize = 0x4000_3400;
pub const PWM_BASE: usize = 0x4000_3800;
pub const I2S0_BASE: usize = 0x4004_0000;
pub const I2S1_BASE: usize = 0x4004_0400;
pub const DMA_BASE: usize = 0x4004_1000;
pub const EMMC_BASE: usize = 0x4004_2000;
pub const SCB_BASE: usize = 0xE000_ED00;
pub const NVIC_BASE: usize = 0xE000_E100;
pub const SYSTICK_BASE: usize = 0xE000_E010;

/// One step of a register program.
#[derive(Clone, Copy, Debug, PartialEq, Eq, Structural)]
pub enum HwOp {
    /// Write `val` to the register at `addr`.
    Write { addr: usize, val: u32 },
    /// Read-modify-write: set the bits of `mask`.
    SetBits { addr: usize, mask: u32 },
    /// Read-modify-write: clear the bits of `mask`.
    ClearBits { addr: usize, mask: u32 },
    /// Read-modify-write: clear the bits of `clear`, then set those of `set`.
    Modify { addr: usize, clear: u32, set: u32 },
    /// Read the register and discard the value (clear-on-read registers).
    Read { addr: usize },
    /// Read the register and keep its low byte as received data.
    Capture { addr: usize },
    /// Spin until `(value & mask) == expected`.
    WaitFor { addr: usize, mask: u32, expected: u32 },
    /// Spin until `(value & mask) == expected`; give up with a timeout
    /// after `limit` reads that do not match.
    Poll { addr: usize, mask: u32, expected: u32, limit: u32 },
    /// Read `addr`; if it is non-zero, read `clear_addr` to acknowledge it and
    /// fail the program with an abort.
    AbortCheck { addr: usize, clear_addr: usize },
    /// Busy-wait for `cycles` iterations.
    Spin { cycles: u32 },
    /// Full memory fence.
    Fence,
    /// Wait for the LCD DMA completion flag, then clear it.
    AwaitLcdDma,
    /// Clear the LCD DMA completion flag (a completion left over from an
    /// earlier transfer).
    ResetLcdDma,
}

/// Why a register program stopped early.
#[derive(Clone, Copy, Debug, PartialEq, Eq, Structural)]
pub enum Fault {
    Timeout,
    Aborted,
}

/// Where the executor is within the current operation.
#[derive(Clone, Copy, Debug, PartialEq, Eq, Structural)]
pub enum Stage {
    Start,
    WriteBack { value: u32 },
    ClearAbort,
}

/// The bus access that the executor asks for next.
#[derive(Clone, Copy, Debug, PartialEq, Eq, Structural)]
pub enum Request {
    Read { addr: usize },
    Write { addr: usize, val: u32 },
    Spin { cycles: u32 },
    Fence,
    AwaitLcdDma,
    ResetLcdDma,
    Done,
}

/// The value a read-modify-write operation writes back after reading `current`.
pub open spec fn rmw_value(op: HwOp, current: u32) -> u32 {
    match op {
        HwOp::SetBits { mask, .. } => current | mask,
        HwOp::ClearBits { mask, .. } => current & !mask,
        HwOp::Modify { clear, set, .. } => (current & !clear) | set,
        _ => current,
    }
}

/// A 32-bit register read, as a program step.
pub fn read32(addr: usize) -> (op: HwOp)
    ensures
        op == (HwOp::Read { addr }),
{
    HwOp::Read { addr }
}

/// A 32-bit register write, as a program step.
pub fn write32(addr: usize, val: u32) -> (op: HwOp)
    ensures
        op == (HwOp::Write { addr, val }),
{
    HwOp::Write { addr, val }
}

/// Set specific bits in a register (read-modify-write).
pub fn set_bits(addr: usize, mask: u32) -> (op: HwOp)
    ensures
        op == (HwOp::SetBits { addr, mask }),
{
    HwOp::SetBits { addr, mask }
}

/// Clear specific bits in a register (read-modify-write).
pub fn clear_bits(addr: usize, mask: u32) -> (op: HwOp)
    ensures
        op == (HwOp::ClearBits { addr, mask }),
{
    HwOp::ClearBits { addr, mask }
}

/// Modify specific bits: clears then sets.
pub fn modify_bits(addr: usize, clear_mask: u32, set_mask: u32) -> (op: HwOp)
    ensures
        op == (HwOp::Modify { addr, clear: clear_mask, set: set_mask }),
{
    HwOp::Modify { addr, clear: clear_mask, set: set_mask }
}

/// Spin until `(read32(addr) & mask) == expected`.
pub fn wait_for(addr: usize, mask: u32, expected: u32) -> (op: HwOp)
    ensures
        op == (HwOp::WaitFor { addr, mask, expected }),
{
    HwOp::WaitFor { addr, mask, expected }
}

/// The programs `f(0)`, ..., `f(n - 1)` run one after another.
pub open spec fn ops_for(n: int, f: spec_fn(int) -> Seq<HwOp>) -> Seq<HwOp>
    decreases n,
{
    if n <= 0 {
        Seq::empty()
    } else {
        ops_for(n - 1, f) + f(n - 1)
    }
}

/// Append the program `more` to `ops`.
pub fn extend_ops(ops: &mut Vec<HwOp>, more: Vec<HwOp>)
    ensures
        final(ops)@ == old(ops)@ + more@,
{
    let mut more = more;
    ops.append(&mut more);
}

/// Peripheral clocks that `init_platform` ungates: I2C0, I2C1, I2S0, SPI0,
/// DMA, GPIO0, GPIO1 and TIMER.
pub const CLK_ENABLE_MASK: u32 = (1 << 0) | (1 << 1) | (1 << 2) | (1 << 3) | (1 << 5) | (1 << 8) | (1 << 9) | (1 << 12);

/// Platform bring-up: disable the watchdog, then ungate the peripheral
/// clocks (write-enable bits in the upper half of CRU_CLKGATE_CON0, gate bits
/// cleared in the lower half).
pub fn init_platform() -> (ops: Vec<HwOp>)
    ensures
        ops@ == seq![
            HwOp::Write { addr: WDT_BASE, val: 0 },
            HwOp::Modify { addr: (CRU_BASE + 0x80) as usize, clear: CLK_ENABLE_MASK, set: CLK_ENABLE_MASK << 16u32 },
        ],
{
    let mut ops: Vec<HwOp> = Vec::new();
    ops.push(write32(WDT_BASE + 0x00, 0));
    let clkgate = CRU_BASE + 0x80;
    ops.push(modify_bits(clkgate, CLK_ENABLE_MASK, CLK_ENABLE_MASK << 16));
    ops
}

/// The number of `Capture` steps in a program: the bytes it yields when it
/// runs to the end.
pub open spec fn capture_count(ops: Seq<HwOp>) -> nat
    decreases ops.len(),
{
    if ops.len() == 0 {
        0
    } else {
        capture_count(ops.drop_last()) + if ops.last() is Capture { 1nat } else { 0nat }
    }
}

/// Counting the captures of two programs run one after the other.
pub proof fn lemma_capture_count_concat(a: Seq<HwOp>, b: Seq<HwOp>)
    ensures
        capture_count(a + b) == capture_count(a) + capture_count(b),
    decreases b.len(),
{
    if b.len() == 0 {
        assert(a + b =~= a);
    } else {
        lemma_capture_count_concat(a, b.drop_last());
        assert((a + b).drop_last() =~= a + b.drop_last());
    }
}

/// `n` programs with `c` captures each have `n * c` captures together.
pub proof fn lemma_capture_count_ops_for(n: int, f: spec_fn(int) -> Seq<HwOp>, c: nat)
    requires
        0 <= n,
        forall|i: int| 0 <= i < n ==> capture_count(#[trigger] f(i)) == c,
    ensures
        capture_count(ops_for(n, f)) == n * c,
    decreases n,
{
    if n > 0 {
        lemma_capture_count_ops_for(n - 1, f, c);
        lemma_capture_count_concat(ops_for(n - 1, f), f(n - 1));
        assert(ops_for(n, f) == ops_for(n - 1, f) + f(n - 1));
        assert(capture_count(f(n - 1)) == c);
        assert((n - 1) * c + c == n * c) by (nonlinear_arith);
    } else {
        assert(capture_count(ops_for(n, f)) == 0);
        assert(n * c == 0);
    }
}

proof fn lemma_capture_count_step(ops: Seq<HwOp>, pc: int)
    requires
        0 <= pc < ops.len(),
    ensures
        capture_count(ops.take(pc + 1)) == capture_count(ops.take(pc)) + if ops[pc] is Capture { 1nat } else { 0nat },
{
    assert(ops.take(pc + 1).drop_last() =~= ops.take(pc));
}

/// An executor: the program it runs and its progress through it.
pub struct ExecState {
    pub program: Seq<HwOp>,
    pub pc: int,
    pub stage: Stage,
    pub misses: int,
    pub captured: Seq<u8>,
    pub fault: Option<Fault>,
}

/// The next state after the access for `op` completed with `value` (the
/// value read; ignored for writes and waits).
pub open spec fn exec_next(s: ExecState, op: HwOp, value: u32) -> ExecState {
    let advanced = ExecState { pc: s.pc + 1, stage: Stage::Start, misses: 0, ..s };
    match op {
        HwOp::SetBits { .. } | HwOp::ClearBits { .. } | HwOp::Modify { .. } => match s.stage {
            Stage::Start => ExecState { stage: Stage::WriteBack { value: rmw_value(op, value) }, ..s },
            _ => advanced,
        },
        HwOp::Capture { .. } => ExecState { captured: s.captured.push(value as u8), ..advanced },
        HwOp::WaitFor { mask, expected, .. } => if value & mask == expected { advanced } else { s },
        HwOp::Poll { mask, expected, limit, .. } => if value & mask == expected {
            advanced
        } else if s.misses + 1 >= limit {
            ExecState { fault: Some(Fault::Timeout), ..s }
        } else {
            ExecState { misses: s.misses + 1, ..s }
        },
        HwOp::AbortCheck { .. } => match s.stage {
            Stage::Start => if value != 0 { ExecState { stage: Stage::ClearAbort, ..s } } else { advanced },
            _ => ExecState { fault: Some(Fault::Aborted), ..s },
        },
        _ => advanced,
    }
}

/// The bus access that `op` needs in stage `stage`.
pub open spec fn op_request(op: HwOp, stage: Stage) -> Request {
    match op {
        HwOp::Write { addr, val } => Request::Write { addr, val },
        HwOp::SetBits { addr, .. } | HwOp::ClearBits { addr, .. } | HwOp::Modify { addr, .. } => match stage {
            Stage::WriteBack { value } => Request::Write { addr, val: value },
            _ => Request::Read { addr },
        },
        HwOp::Read { addr } => Request::Read { addr },
        HwOp::Capture { addr } => Request::Read { addr },
        HwOp::WaitFor { addr, .. } => Request::Read { addr },
        HwOp::Poll { addr, .. } => Request::Read { addr },
        HwOp::AbortCheck { addr, clear_addr } => match stage {
            Stage::ClearAbort => Request::Read { addr: clear_addr },
            _ => Request::Read { addr },
        },
        HwOp::Spin { cycles } => Request::Spin { cycles },
        HwOp::Fence => Request::Fence,
        HwOp::AwaitLcdDma => Request::AwaitLcdDma,
        HwOp::ResetLcdDma => Request::ResetLcdDma,
    }
}

/// Runs a register program one bus access at a time.
pub struct Executor {
    ops: Vec<HwOp>,
    pc: usize,
    stage: Stage,
    misses: u32,
    captured: Vec<u8>,
    fault: Option<Fault>,
}

impl View for Executor {
    type V = ExecState;

    closed spec fn view(&self) -> ExecState {
        ExecState {
            program: self.ops@,
            pc: self.pc as int,
            stage: self.stage,
            misses: self.misses as int,
            captured: self.captured@,
            fault: self.fault,
        }
    }
}

impl Executor {
    /// The program being run.
    pub open spec fn program(&self) -> Seq<HwOp> {
        self@.program
    }

    pub closed spec fn wf(&self) -> bool {
        &&& self.pc <= self.ops@.len()
        &&& self.captured@.len() == capture_count(self.ops@.take(self.pc as int))
        &&& self.misses < u32::MAX
        &&& (self.stage is WriteBack ==> self.pc < self.ops@.len() && (self.ops@[self.pc as int] is SetBits
            || self.ops@[self.pc as int] is ClearBits || self.ops@[self.pc as int] is Modify))
        &&& (self.stage is ClearAbort ==> self.pc < self.ops@.len() && self.ops@[self.pc as int] is AbortCheck)
        &&& (self.misses > 0 ==> self.pc < self.ops@.len() && self.ops@[self.pc as int] is Poll)
        &&& (self.pc < self.ops@.len() ==> (self.ops@[self.pc as int] matches HwOp::Poll { limit, .. }
            ==> self.misses == 0 || self.misses < limit))
    }

    /// Whether the program has finished, completely or by a fault.
    pub open spec fn finished(&self) -> bool {
        self@.fault is Some || self@.pc >= self.program().len()
    }

    /// The next access the program needs.
    pub open spec fn spec_request(&self) -> Request {
        if self.finished() {
            Request::Done
        } else {
            op_request(self.program()[self@.pc], self@.stage)
        }
    }

    /// Start running `ops`.
    pub fn new(ops: Vec<HwOp>) -> (e: Self)
        ensures
            e.wf(),
            e.program() == ops@,
            e@ == (ExecState { program: ops@, pc: 0, stage: Stage::Start, misses: 0, captured: Seq::empty(), fault: None }),
    {
        assert(ops@.take(0) =~= Seq::<HwOp>::empty());
        Executor { ops, pc: 0, stage: Stage::Start, misses: 0, captured: Vec::new(), fault: None }
    }

    /// The bus access to perform next; `Done` once the program has ended.
    pub fn request(&self) -> (r: Request)
        requires
            self.wf(),
        ensures
            r == self.spec_request(),
    {
        if self.fault.is_some() || self.pc >= self.ops.len() {
            return Request::Done;
        }
        match self.ops[self.pc] {
            HwOp::Write { addr, val } => Request::Write { addr, val },
            HwOp::SetBits { addr, .. } | HwOp::ClearBits { addr, .. } | HwOp::Modify { addr, .. } => {
                match self.stage {
                    Stage::WriteBack { value } => Request::Write { addr, val: value },
                    _ => Request::Read { addr },
                }
            },
            HwOp::Read { addr } => Request::Read { addr },
            HwOp::Capture { addr } => Request::Read { addr },
            HwOp::WaitFor { addr, .. } => Request::Read { addr },
            HwOp::Poll { addr, .. } => Request::Read { addr },
            HwOp::AbortCheck { addr, clear_addr } => match self.stage {
                Stage::ClearAbort => Request::Read { addr: clear_addr },
                _ => Request::Read { addr },
            },
            HwOp::Spin { cycles } => Request::Spin { cycles },
            HwOp::Fence => Request::Fence,
            HwOp::AwaitLcdDma => Request::AwaitLcdDma,
            HwOp::ResetLcdDma => Request::ResetLcdDma,
        }
    }

    /// Report that the requested access has been performed; `value` is the
    /// value read (ignored for other accesses).
    pub fn complete(&mut self, value: u32)
        requires
            old(self).wf(),
            !old(self).finished(),
        ensures
            final(self).wf(),
            final(self).program() == old(self).program(),
            final(self)@ == exec_next(old(self)@, old(self).program()[old(self)@.pc], value),
    {
        proof {
            lemma_capture_count_step(self.ops@, self.pc as int);
        }
        let op = self.ops[self.pc];
        match op {
            HwOp::SetBits { mask, .. } => match self.stage {
                Stage::Start => { self.stage = Stage::WriteBack { value: value | mask }; },
                _ => { self.advance(); },
            },
            HwOp::ClearBits { mask, .. } => match self.stage {
                Stage::Start => { self.stage = Stage::WriteBack { value: value & !mask }; },
                _ => { self.advance(); },
            },
            HwOp::Modify { clear, set, .. } => match self.stage {
                Stage::Start => { self.stage = Stage::WriteBack { value: (value & !clear) | set }; },
                _ => { self.advance(); },
            },
            HwOp::Capture { .. } => {
                self.captured.push(value as u8);
                self.advance();
            },
            HwOp::WaitFor { mask, expected, .. } => {
                if value & mask == expected {
                    self.advance();
                }
            },
            HwOp::Poll { mask, expected, limit, .. } => {
                if value & mask == expected {
                    self.advance();
                } else if self.misses + 1 >= limit {
                    self.fault = Some(Fault::Timeout);
                } else {
                    self.misses = self.misses + 1;
                }
            },
            HwOp::AbortCheck { .. } => match self.stage {
                Stage::Start => {
                    if value != 0 {
                        self.stage = Stage::ClearAbort;
                    } else {
                        self.advance();
                    }
                },
                _ => { self.fault = Some(Fault::Aborted); },
            },
            _ => { self.advance(); },
        }
    }

    fn advance(&mut self)
        requires
            old(self).pc < old(self).ops.len(),
        ensures
            final(self).ops == old(self).ops,
            final(self).pc == old(self).pc + 1,
            final(self).stage == Stage::Start,
            final(self).misses == 0,
            final(self).captured == old(self).captured,
            final(self).fault == old(self).fault,
    {
        self.pc = self.pc + 1;
        self.stage = Stage::Start;
        self.misses = 0;
    }

    /// The bytes captured so far (also those of a program that failed after
    /// capturing them).
    pub fn captured_bytes(&self) -> (b: Vec<u8>)
        ensures
            b@ == self@.captured,
    {
        self.captured.clone()
    }

    /// The outcome of a finished program: the bytes captured, or the fault.
    /// A program that ran to its end yields one byte per `Capture` step.
    pub fn outcome(&self) -> (r: Result<Vec<u8>, Fault>)
        ensures
            match r {
                Ok(bytes) => self@.fault is None && bytes@ == self@.captured,
                Err(f) => self@.fault == Some(f),
            },
            self.wf() && self@.pc >= self.program().len() ==> self@.captured.len() == capture_count(self.program()),
    {
        proof {
            if self.wf() && self.pc >= self.ops@.len() {
                assert(self.ops@.take(self.pc as int) =~= self.ops@);
            }
        }
        match self.fault {
            Some(f) => Err(f),
            None => Ok(self.captured.clone()),
        }
    }
}

/// Clearing bits is idempotent and touches nothing else: once a
/// `ClearBits` step has read `v`, the executor stays on the step and writes
/// back, to the same register, a value with every bit of `mask` clear and
/// every other bit as read.
pub proof fn lemma_clear_bits_write_back(s: ExecState, addr: usize, mask: u32, v: u32)
    requires
        s.stage == Stage::Start,
        s.fault is None,
    ensures
        ({
            let op = HwOp::ClearBits { addr, mask };
            let s2 = exec_next(s, op, v);
            &&& s2.pc == s.pc
            &&& s2.fault is None
            &&& match op_request(op, s2.stage) {
                Request::Write { addr: a, val: w } => a == addr && w & mask == 0 && w & !mask == v & !mask,
                _ => false,
            }
        }),
{
    let w = v & !mask;
    assert(w & mask == 0 && w & !mask == v & !mask) by (bit_vector)
        requires w == v & !mask;
}

/// Setting bits touches nothing else: after a `SetBits` step read `v`, the
/// value written back to the same register has every bit of `mask` set and
/// every other bit as read.
pub proof fn lemma_set_bits_write_back(s: ExecState, addr: usize, mask: u32, v: u32)
    requires
        s.stage == Stage::Start,
        s.fault is None,
    ensures
        ({
            let op = HwOp::SetBits { addr, mask };
            let s2 = exec_next(s, op, v);
            &&& s2.pc == s.pc
            &&& s2.fault is None
            &&& match op_request(op, s2.stage) {
                Request::Write { addr: a, val: w } => a == addr && w & mask == mask && w & !mask == v & !mask,
                _ => false,
            }
        }),
{
    let w = v | mask;
    assert(w & mask == mask && w & !mask == v & !mask) by (bit_vector)
        requires w == v | mask;
}

/// A `Modify` step writes back, to the same register, the value read with
/// the bits of `set` set, the other bits of `clear` cleared, and every
/// bit outside both masks as read.
pub proof fn lemma_modify_write_back(s: ExecState, addr: usize, clear: u32, set: u32, v: u32)
    requires
        s.stage == Stage::Start,
        s.fault is None,
    ensures
        ({
            let op = HwOp::Modify { addr, clear, set };
            let s2 = exec_next(s, op, v);
            &&& s2.pc == s.pc
            &&& s2.fault is None
            &&& match op_request(op, s2.stage) {
                Request::Write { addr: a, val: w } => a == addr && w & set == set
                    && w & (clear & !set) == 0 && w & !(clear | set) == v & !(clear | set),
                _ => false,
            }
        }),
{
    let w = (v & !clear) | set;
    assert(w & set == set && w & (clear & !set) == 0 && w & !(clear | set) == v & !(clear | set)) by (bit_vector)
        requires w == (v & !clear) | set;
}

/// The values a program writes to the register at `reg`, in program order.
pub open spec fn writes_to(ops: Seq<HwOp>, reg: usize) -> Seq<u32>
    decreases ops.len(),
{
    if ops.len() == 0 {
        Seq::empty()
    } else {
        let prev = writes_to(ops.drop_last(), reg);
        match ops.last() {
            HwOp::Write { addr, val } => if addr == reg { prev.push(val) } else { prev },
            _ => prev,
        }
    }
}

/// The writes of two programs run one after the other are those of the
/// first followed by those of the second.
pub proof fn lemma_writes_to_concat(a: Seq<HwOp>, b: Seq<HwOp>, reg: usize)
    ensures
        writes_to(a + b, reg) == writes_to(a, reg) + writes_to(b, reg),
    decreases b.len(),
{
    if b.len() == 0 {
        assert(a + b =~= a);
        assert(writes_to(a, reg) + writes_to(b, reg) =~= writes_to(a, reg));
    } else {
        lemma_writes_to_concat(a, b.drop_last(), reg);
        assert((a + b).drop_last() =~= a + b.drop_last());
        assert((a + b).last() == b.last());
        let wa = writes_to(a, reg);
        let wb = writes_to(b.drop_last(), reg);
        match b.last() {
            HwOp::Write { addr, val } => {
                if addr == reg {
                    assert(wa + wb.push(val) =~= (wa + wb).push(val));
                }
            },
            _ => {},
        }
    }
}

/// The writes of `ops_for(n, f)` are those of `f(0)`, ..., `f(n - 1)` in turn;
/// stated through a per-step value `g`, where each step writes `g(i)` once.
pub proof fn lemma_writes_to_steps(n: int, f: spec_fn(int) -> Seq<HwOp>, g: spec_fn(int) -> u32, reg: usize)
    requires
        0 <= n,
        forall|i: int| 0 <= i < n ==> #[trigger] writes_to(f(i), reg) == seq![g(i)],
    ensures
        writes_to(ops_for(n, f), reg) == Seq::new(n as nat, |i: int| g(i)),
    decreases n,
{
    if n > 0 {
        lemma_writes_to_steps(n - 1, f, g, reg);
        lemma_writes_to_concat(ops_for(n - 1, f), f(n - 1), reg);
        assert(writes_to(f(n - 1), reg) == seq![g(n - 1)]);
        assert(Seq::new((n - 1) as nat, |i: int| g(i)) + seq![g(n - 1)] =~= Seq::new(n as nat, |i: int| g(i)));
    } else {
        assert(Seq::new(n as nat, |i: int| g(i)) =~= Seq::<u32>::empty());
    }
}

/// A program of `n` steps none of which writes `reg` writes nothing there.
pub proof fn lemma_writes_to_none(n: int, f: spec_fn(int) -> Seq<HwOp>, reg: usize)
    requires
        0 <= n,
        forall|i: int| 0 <= i < n ==> #[trigger] writes_to(f(i), reg) == Seq::<u32>::empty(),
    ensures
        writes_to(ops_for(n, f), reg) == Seq::<u32>::empty(),
    decreases n,
{
    if n > 0 {
        lemma_writes_to_none(n - 1, f, reg);
        lemma_writes_to_concat(ops_for(n - 1, f), f(n - 1), reg);
        assert(writes_to(f(n - 1), reg) == Seq::<u32>::empty());
        assert(Seq::<u32>::empty() + Seq::<u32>::empty() =~= Seq::<u32>::empty());
    }
}

/// The state after the accesses for one step `op` read `reads` in turn.
pub open spec fn after_reads(s: ExecState, op: HwOp, reads: Seq<u32>) -> ExecState
    decreases reads.len(),
{
    if reads.len() == 0 {
        s
    } else {
        exec_next(after_reads(s, op, reads.drop_last()), op, reads.last())
    }
}

/// A poll gives up after exactly `limit` reads that do not match: fewer
/// mismatching reads leave it waiting on the same step with no fault, and
/// the `limit`-th one fails the program with a timeout.
pub proof fn lemma_poll_times_out(s: ExecState, addr: usize, mask: u32, expected: u32, limit: u32, reads: Seq<u32>)
    requires
        s.stage == Stage::Start,
        s.fault is None,
        s.misses == 0,
        0 < limit,
        reads.len() <= limit,
        forall|i: int| 0 <= i < reads.len() ==> #[trigger] reads[i] & mask != expected,
    ensures
        ({
            let t = after_reads(s, HwOp::Poll { addr, mask, expected, limit }, reads);
            &&& t.pc == s.pc
            &&& t.captured == s.captured
            &&& reads.len() < limit ==> t.fault is None && t.misses == reads.len()
            &&& reads.len() == limit ==> t.fault == Some(Fault::Timeout)
        }),
    decreases reads.len(),
{
    if reads.len() > 0 {
        let r0 = reads.drop_last();
        assert forall|i: int| 0 <= i < r0.len() implies #[trigger] r0[i] & mask != expected by {
            assert(r0[i] == reads[i]);
        }
        lemma_poll_times_out(s, addr, mask, expected, limit, r0);
        assert(reads.last() & mask != expected);
    }
}

/// A poll that reads a matching value moves on to the next step, whatever
/// it missed before (fewer than `limit` times).
pub proof fn lemma_poll_match_advances(s: ExecState, addr: usize, mask: u32, expected: u32, limit: u32, v: u32)
    requires
        s.fault is None,
        s.misses < limit,
        v & mask == expected,
    ensures
        ({
            let t = exec_next(s, HwOp::Poll { addr, mask, expected, limit }, v);
            &&& t.pc == s.pc + 1
            &&& t.fault is None
            &&& t.misses == 0
            &&& t.stage == Stage::Start
        }),
{
}

/// A capture keeps the low byte of the value read, after those kept
/// before, and moves on.
pub proof fn lemma_capture_keeps_low_byte(s: ExecState, addr: usize, v: u32)
    ensures
        ({
            let t = exec_next(s, HwOp::Capture { addr }, v);
            &&& t.captured.len() == s.captured.len() + 1
            &&& t.captured.last() as u32 == v % 256
            &&& t.captured.drop_last() == s.captured
            &&& t.pc == s.pc + 1
        }),
{
    let b = v as u8;
    assert(b as u32 == v % 256) by (bit_vector)
        requires b == v as u8;
    assert(s.captured.push(b).drop_last() =~= s.captured);
}

/// An abort check fails the program exactly when the abort source reads
/// non-zero, and then only after reading the clear register to acknowledge
/// it; a zero read moves on.
pub proof fn lemma_abort_check(s: ExecState, addr: usize, clear_addr: usize, v: u32, w: u32)
    requires
        s.stage == Stage::Start,
        s.fault is None,
    ensures
        ({
            let op = HwOp::AbortCheck { addr, clear_addr };
            let t = exec_next(s, op, v);
            &&& op_request(op, s.stage) == (Request::Read { addr })
            &&& v == 0 ==> t.pc == s.pc + 1 && t.fault is None
            &&& v != 0 ==> t.pc == s.pc && t.fault is None
                && op_request(op, t.stage) == (Request::Read { addr: clear_addr })
                && exec_next(t, op, w).fault == Some(Fault::Aborted)
        }),
{
}

} // verus!
