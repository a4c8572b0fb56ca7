//! I2C controller driver (DesignWare-compatible) used to program the
//! CS43131 DACs.
use vstd::prelude::*;
use crate::hal::mmio::{self, HwOp, Fault, ops_for, extend_ops, capture_count, lemma_capture_count_concat, lemma_capture_count_ops_for};
use crate::hal::mmio::{writes_to, lemma_writes_to_concat, lemma_writes_to_steps, lemma_writes_to_none};

verus! {

pub const I2C_CON: usize = 0x00;
pub const I2C_TAR: usize = 0x04;
pub const I2C_DATACMD: usize = 0x10;
pub const I2C_SSHCNT: usize = 0x14;
pub const I2C_SSLCNT: usize = 0x18;
pub const I2C_FSHCNT: usize = 0x1C;
pub const I2C_FSLCNT: usize = 0x20;
pub const I2C_INTST: usize = 0x2C;
pub const I2C_INTMSK: usize = 0x30;
pub const I2C_CLR_INT: usize = 0x40;
pub const I2C_ENABLE: usize = 0x6C;
pub const I2C_STATUS: usize = 0x70;
pub const I2C_TXFLR: usize = 0x74;
pub const I2C_RXFLR: usize = 0x78;
pub const I2C_TX_ABRT: usize = 0x80;
pub const I2C_CLR_TX_ABRT: usize = 0x54;

pub const STATUS_TFE: u32 = 1 << 2;
pub const STATUS_TFNF: u32 = 1 << 1;
pub const STATUS_RFNE: u32 = 1 << 3;
pub const STATUS_BUSY: u32 = 1 << 5;

pub const CON_MASTER: u32 = 1 << 0;
pub const CON_SPEED_STD: u32 = 1 << 1;
pub const CON_SPEED_FAST: u32 = 2 << 1;
pub const CON_RESTART_EN: u32 = 1 << 5;
pub const CON_SLAVE_DIS: u32 = 1 << 6;

pub const DATACMD_READ: u32 = 1 << 8;
pub const DATACMD_STOP: u32 = 1 << 9;

/// Status reads allowed before a wait gives up.
pub const POLL_LIMIT: u32 = 100_000;

/// I2C bus errors.
#[derive(Clone, Copy, Debug, PartialEq, Eq, Structural)]
pub enum I2cError {
    Timeout,
    Nack,
    BusError,
}

impl I2cError {
    /// The bus error that a failed register program reports: a wait that
    /// timed out, or an abort (the target did not acknowledge).
    pub fn from_fault(f: Fault) -> (e: I2cError)
        ensures
            e == (match f {
                Fault::Timeout => I2cError::Timeout,
                Fault::Aborted => I2cError::Nack,
            }),
    {
        match f {
            Fault::Timeout => I2cError::Timeout,
            Fault::Aborted => I2cError::Nack,
        }
    }
}

/// An I2C bus backed by the controller at `base`.
#[derive(Clone, Copy, Debug, PartialEq, Eq, Structural)]
pub struct I2cBus {
    pub base: usize,
}

/// One operation of an I2C transaction: send these bytes, or read this
/// many.
pub enum I2cOperation {
    Write(Vec<u8>),
    Read(usize),
}

/// The register at offset `off` of a controller at `base`.
pub open spec fn reg(base: usize, off: usize) -> usize {
    (base + off) as usize
}

/// Wait until the bit(s) `mask` read `expected` in the status register,
/// giving up after `POLL_LIMIT` mismatching reads.
pub open spec fn status_poll(base: usize, mask: u32, expected: u32) -> HwOp {
    HwOp::Poll { addr: reg(base, I2C_STATUS), mask, expected, limit: POLL_LIMIT }
}

pub open spec fn target_ops(base: usize, addr: u8) -> Seq<HwOp> {
    seq![
        HwOp::Write { addr: reg(base, I2C_ENABLE), val: 0 },
        HwOp::Write { addr: reg(base, I2C_TAR), val: (addr as u32) & 0x7F },
        HwOp::Write { addr: reg(base, I2C_ENABLE), val: 1 },
    ]
}

/// The data/command word for byte `i` of an `n`-byte write: STOP after the last.
pub open spec fn write_word(b: u8, i: int, n: int) -> u32 {
    (b as u32) | (if i == n - 1 { DATACMD_STOP } else { 0 })
}

/// The data/command word for read `i` of `n`: STOP after the last.
pub open spec fn read_word(i: int, n: int) -> u32 {
    DATACMD_READ | (if i == n - 1 { DATACMD_STOP } else { 0 })
}

/// Send byte `i` of an I2C write.
pub open spec fn data_step(base: usize, data: Seq<u8>, i: int) -> Seq<HwOp> {
    seq![
        status_poll(base, STATUS_TFNF, STATUS_TFNF),
        HwOp::Write { addr: reg(base, I2C_DATACMD), val: write_word(data[i], i, data.len() as int) },
    ]
}

/// Send register-address byte `i` (no STOP).
pub open spec fn reg_step(base: usize, reg_bytes: Seq<u8>, i: int) -> Seq<HwOp> {
    seq![
        status_poll(base, STATUS_TFNF, STATUS_TFNF),
        HwOp::Write { addr: reg(base, I2C_DATACMD), val: reg_bytes[i] as u32 },
    ]
}

/// Issue read command `i` of `n`.
pub open spec fn read_cmd_step(base: usize, n: int, i: int) -> Seq<HwOp> {
    seq![
        status_poll(base, STATUS_TFNF, STATUS_TFNF),
        HwOp::Write { addr: reg(base, I2C_DATACMD), val: read_word(i, n) },
    ]
}

/// Collect one received byte.
pub open spec fn capture_step(base: usize) -> Seq<HwOp> {
    seq![
        status_poll(base, STATUS_RFNE, STATUS_RFNE),
        HwOp::Capture { addr: reg(base, I2C_DATACMD) },
    ]
}

pub open spec fn finish_ops(base: usize) -> Seq<HwOp> {
    seq![
        status_poll(base, STATUS_BUSY, 0),
        HwOp::AbortCheck { addr: reg(base, I2C_TX_ABRT), clear_addr: reg(base, I2C_CLR_TX_ABRT) },
    ]
}

/// The program of `write`: select the target, wait for the bus, send each
/// byte (STOP after the last), wait for the bus, check for an abort.
pub open spec fn write_ops(base: usize, addr: u8, data: Seq<u8>) -> Seq<HwOp> {
    target_ops(base, addr) + seq![status_poll(base, STATUS_BUSY, 0)]
        + ops_for(data.len() as int, |i: int| data_step(base, data, i))
        + finish_ops(base)
}

/// The program of `write_read`: select the target, send the register
/// address bytes, issue `n` reads (STOP after the last), capture the `n`
/// bytes received, wait for the bus, check for an abort.
pub open spec fn write_read_ops(base: usize, addr: u8, reg_bytes: Seq<u8>, n: int) -> Seq<HwOp> {
    target_ops(base, addr) + seq![status_poll(base, STATUS_BUSY, 0)]
        + ops_for(reg_bytes.len() as int, |i: int| reg_step(base, reg_bytes, i))
        + ops_for(n, |i: int| read_cmd_step(base, n, i))
        + ops_for(n, |i: int| capture_step(base))
        + finish_ops(base)
}

/// The program of one transaction operation: a write, or a read with no
/// register address sent first.
pub open spec fn operation_ops(base: usize, addr: u8, op: I2cOperation) -> Seq<HwOp> {
    match op {
        I2cOperation::Write(data) => write_ops(base, addr, data@),
        I2cOperation::Read(n) => write_read_ops(base, addr, Seq::empty(), n as int),
    }
}

/// The programs of the operations `ops`, one after another.
pub open spec fn transaction_ops(base: usize, addr: u8, ops: Seq<I2cOperation>) -> Seq<HwOp>
    decreases ops.len(),
{
    if ops.len() == 0 {
        Seq::empty()
    } else {
        transaction_ops(base, addr, ops.drop_last()) + operation_ops(base, addr, ops.last())
    }
}

/// The number of bytes the reads of `ops` ask for.
pub open spec fn read_total(ops: Seq<I2cOperation>) -> nat
    decreases ops.len(),
{
    if ops.len() == 0 {
        0
    } else {
        read_total(ops.drop_last()) + match ops.last() {
            I2cOperation::Read(n) => n as nat,
            I2cOperation::Write(_) => 0nat,
        }
    }
}

proof fn lemma_small_counts(base: usize, addr: u8, data: Seq<u8>, i: int, n: int)
    ensures
        capture_count(target_ops(base, addr)) == 0,
        capture_count(finish_ops(base)) == 0,
        capture_count(seq![status_poll(base, STATUS_BUSY, 0)]) == 0,
        capture_count(data_step(base, data, i)) == 0,
        capture_count(reg_step(base, data, i)) == 0,
        capture_count(read_cmd_step(base, n, i)) == 0,
        capture_count(capture_step(base)) == 1,
{
    reveal_with_fuel(capture_count, 4);
    assert(target_ops(base, addr).drop_last().drop_last().drop_last() =~= Seq::<HwOp>::empty());
    assert(finish_ops(base).drop_last().drop_last() =~= Seq::<HwOp>::empty());
    assert(seq![status_poll(base, STATUS_BUSY, 0)].drop_last() =~= Seq::<HwOp>::empty());
    assert(data_step(base, data, i).drop_last().drop_last() =~= Seq::<HwOp>::empty());
    assert(reg_step(base, data, i).drop_last().drop_last() =~= Seq::<HwOp>::empty());
    assert(read_cmd_step(base, n, i).drop_last().drop_last() =~= Seq::<HwOp>::empty());
    assert(capture_step(base).drop_last().drop_last() =~= Seq::<HwOp>::empty());
}

/// A write captures nothing, and a read of `n` bytes captures exactly `n`:
/// a write-read program that runs to its end yields the `n` bytes asked for.
pub proof fn lemma_read_yields_n_bytes(base: usize, addr: u8, data: Seq<u8>, reg_bytes: Seq<u8>, n: int)
    requires
        0 <= n,
    ensures
        capture_count(write_ops(base, addr, data)) == 0,
        capture_count(write_read_ops(base, addr, reg_bytes, n)) == n,
{
    let head = target_ops(base, addr) + seq![status_poll(base, STATUS_BUSY, 0)];
    lemma_small_counts(base, addr, data, 0, n);
    lemma_capture_count_concat(target_ops(base, addr), seq![status_poll(base, STATUS_BUSY, 0)]);
    assert forall|i: int| 0 <= i < data.len() implies capture_count(#[trigger] data_step(base, data, i)) == 0 by {
        lemma_small_counts(base, addr, data, i, n);
    }
    let fd = |i: int| data_step(base, data, i);
    lemma_capture_count_ops_for(data.len() as int, fd, 0);
    lemma_capture_count_concat(head, ops_for(data.len() as int, fd));
    lemma_capture_count_concat(head + ops_for(data.len() as int, fd), finish_ops(base));

    let fr = |i: int| reg_step(base, reg_bytes, i);
    assert forall|i: int| 0 <= i < reg_bytes.len() implies capture_count(#[trigger] fr(i)) == 0 by {
        lemma_small_counts(base, addr, reg_bytes, i, n);
    }
    let fc = |i: int| read_cmd_step(base, n, i);
    assert forall|i: int| 0 <= i < n implies capture_count(#[trigger] fc(i)) == 0 by {
        lemma_small_counts(base, addr, reg_bytes, i, n);
    }
    let fk = |i: int| capture_step(base);
    assert forall|i: int| 0 <= i < n implies capture_count(#[trigger] fk(i)) == 1 by {
        lemma_small_counts(base, addr, reg_bytes, i, n);
    }
    lemma_capture_count_ops_for(reg_bytes.len() as int, fr, 0);
    lemma_capture_count_ops_for(n, fc, 0);
    lemma_capture_count_ops_for(n, fk, 1);
    let a = head + ops_for(reg_bytes.len() as int, fr);
    let b = a + ops_for(n, fc);
    let c = b + ops_for(n, fk);
    lemma_capture_count_concat(head, ops_for(reg_bytes.len() as int, fr));
    lemma_capture_count_concat(a, ops_for(n, fc));
    lemma_capture_count_concat(b, ops_for(n, fk));
    lemma_capture_count_concat(c, finish_ops(base));
    assert(write_read_ops(base, addr, reg_bytes, n) == c + finish_ops(base));
}

/// A transaction that runs to its end yields exactly the bytes its reads
/// ask for, in order: writes capture nothing.
pub proof fn lemma_transaction_yields_reads(base: usize, addr: u8, ops: Seq<I2cOperation>)
    ensures
        capture_count(transaction_ops(base, addr, ops)) == read_total(ops),
    decreases ops.len(),
{
    if ops.len() > 0 {
        lemma_transaction_yields_reads(base, addr, ops.drop_last());
        lemma_capture_count_concat(transaction_ops(base, addr, ops.drop_last()), operation_ops(base, addr, ops.last()));
        match ops.last() {
            I2cOperation::Write(d) => {
                lemma_read_yields_n_bytes(base, addr, d@, Seq::empty(), 0);
            },
            I2cOperation::Read(n) => {
                lemma_read_yields_n_bytes(base, addr, Seq::empty(), Seq::empty(), n as int);
            },
        }
    } else {
        assert(capture_count(Seq::<HwOp>::empty()) == 0);
    }
}

/// The program of `init`: disable, master mode with restart and the speed
/// selected, SCL timing, clear pending interrupts, enable.
pub open spec fn init_ops(base: usize, fast_mode: bool) -> Seq<HwOp> {
    seq![
        HwOp::Write { addr: reg(base, I2C_ENABLE), val: 0 },
        HwOp::Write {
            addr: reg(base, I2C_CON),
            val: CON_MASTER | (if fast_mode { CON_SPEED_FAST } else { CON_SPEED_STD }) | CON_RESTART_EN | CON_SLAVE_DIS,
        },
    ] + (if fast_mode {
        seq![
            HwOp::Write { addr: reg(base, I2C_FSHCNT), val: 60 },
            HwOp::Write { addr: reg(base, I2C_FSLCNT), val: 65 },
        ]
    } else {
        seq![
            HwOp::Write { addr: reg(base, I2C_SSHCNT), val: 240 },
            HwOp::Write { addr: reg(base, I2C_SSLCNT), val: 260 },
        ]
    }) + seq![
        HwOp::Read { addr: reg(base, I2C_CLR_INT) },
        HwOp::Write { addr: reg(base, I2C_ENABLE), val: 1 },
    ]
}

impl I2cBus {
    /// Whether every register of the controller has an address.
    pub open spec fn regs_ok(&self) -> bool {
        self.base + I2C_TX_ABRT <= usize::MAX
    }

    /// Construct a new I2C bus from its MMIO base address.
    pub fn new(base: usize) -> (bus: Self)
        ensures
            bus.base == base,
    {
        I2cBus { base }
    }

    /// Initialise the controller as master in fast mode (400 kHz) or
    /// standard mode (100 kHz).
    pub fn init(&self, fast_mode: bool) -> (ops: Vec<HwOp>)
        requires
            self.regs_ok(),
        ensures
            ops@ == init_ops(self.base, fast_mode),
    {
        let mut ops: Vec<HwOp> = Vec::new();
        ops.push(mmio::write32(self.base + I2C_ENABLE, 0));
        let speed = if fast_mode { CON_SPEED_FAST } else { CON_SPEED_STD };
        let con = CON_MASTER | speed | CON_RESTART_EN | CON_SLAVE_DIS;
        ops.push(mmio::write32(self.base + I2C_CON, con));
        if fast_mode {
            ops.push(mmio::write32(self.base + I2C_FSHCNT, 60));
            ops.push(mmio::write32(self.base + I2C_FSLCNT, 65));
        } else {
            ops.push(mmio::write32(self.base + I2C_SSHCNT, 240));
            ops.push(mmio::write32(self.base + I2C_SSLCNT, 260));
        }
        ops.push(mmio::read32(self.base + I2C_CLR_INT));
        ops.push(mmio::write32(self.base + I2C_ENABLE, 1));
        assert(ops@ =~= init_ops(self.base, fast_mode));
        ops
    }

    /// Set the 7-bit target address (the controller is disabled meanwhile).
    pub fn set_target(&self, addr: u8) -> (ops: Vec<HwOp>)
        requires
            self.regs_ok(),
        ensures
            ops@ == target_ops(self.base, addr),
    {
        let mut ops: Vec<HwOp> = Vec::new();
        ops.push(mmio::write32(self.base + I2C_ENABLE, 0));
        ops.push(mmio::write32(self.base + I2C_TAR, addr as u32 & 0x7F));
        ops.push(mmio::write32(self.base + I2C_ENABLE, 1));
        ops
    }

    /// Wait for the bus to go idle (times out).
    pub fn wait_idle(&self) -> (op: HwOp)
        requires
            self.regs_ok(),
        ensures
            op == status_poll(self.base, STATUS_BUSY, 0),
    {
        HwOp::Poll { addr: self.base + I2C_STATUS, mask: STATUS_BUSY, expected: 0, limit: POLL_LIMIT }
    }

    /// Wait for room in the TX FIFO (times out).
    pub fn wait_tx_not_full(&self) -> (op: HwOp)
        requires
            self.regs_ok(),
        ensures
            op == status_poll(self.base, STATUS_TFNF, STATUS_TFNF),
    {
        HwOp::Poll { addr: self.base + I2C_STATUS, mask: STATUS_TFNF, expected: STATUS_TFNF, limit: POLL_LIMIT }
    }

    /// Wait for a received byte (times out).
    pub fn wait_rx_ready(&self) -> (op: HwOp)
        requires
            self.regs_ok(),
        ensures
            op == status_poll(self.base, STATUS_RFNE, STATUS_RFNE),
    {
        HwOp::Poll { addr: self.base + I2C_STATUS, mask: STATUS_RFNE, expected: STATUS_RFNE, limit: POLL_LIMIT }
    }

    /// Fail with a NACK if the transfer was aborted (and acknowledge the abort).
    pub fn check_abrt(&self) -> (op: HwOp)
        requires
            self.regs_ok(),
        ensures
            op == (HwOp::AbortCheck { addr: reg(self.base, I2C_TX_ABRT), clear_addr: reg(self.base, I2C_CLR_TX_ABRT) }),
    {
        HwOp::AbortCheck { addr: self.base + I2C_TX_ABRT, clear_addr: self.base + I2C_CLR_TX_ABRT }
    }

    fn finish(&self) -> (ops: Vec<HwOp>)
        requires
            self.regs_ok(),
        ensures
            ops@ == finish_ops(self.base),
    {
        let mut ops: Vec<HwOp> = Vec::new();
        ops.push(self.wait_idle());
        ops.push(self.check_abrt());
        ops
    }

    /// Write a buffer of bytes to the target.
    pub fn write(&self, addr: u8, data: &[u8]) -> (ops: Vec<HwOp>)
        requires
            self.regs_ok(),
        ensures
            ops@ == write_ops(self.base, addr, data@),
    {
        let mut ops = self.set_target(addr);
        ops.push(self.wait_idle());
        let ghost head = ops@;
        let mut i: usize = 0;
        while i < data.len()
            invariant
                self.regs_ok(),
                i <= data@.len(),
                head == target_ops(self.base, addr) + seq![status_poll(self.base, STATUS_BUSY, 0)],
                ops@ == head + ops_for(i as int, |k: int| data_step(self.base, data@, k)),
            decreases data@.len() - i,
        {
            let stop = if i == data.len() - 1 { DATACMD_STOP } else { 0 };
            ops.push(self.wait_tx_not_full());
            ops.push(mmio::write32(self.base + I2C_DATACMD, data[i] as u32 | stop));
            assert(ops@ =~= head + ops_for(i + 1, |k: int| data_step(self.base, data@, k)));
            i = i + 1;
        }
        extend_ops(&mut ops, self.finish());
        ops
    }

    /// Write the register address bytes `reg_bytes`, then read `n` bytes back;
    /// the bytes read are what the program captures.
    pub fn write_read(&self, addr: u8, reg_bytes: &[u8], n: usize) -> (ops: Vec<HwOp>)
        requires
            self.regs_ok(),
        ensures
            ops@ == write_read_ops(self.base, addr, reg_bytes@, n as int),
    {
        let mut ops = self.set_target(addr);
        ops.push(self.wait_idle());
        let ghost head = ops@;
        let mut i: usize = 0;
        while i < reg_bytes.len()
            invariant
                self.regs_ok(),
                i <= reg_bytes@.len(),
                head == target_ops(self.base, addr) + seq![status_poll(self.base, STATUS_BUSY, 0)],
                ops@ == head + ops_for(i as int, |k: int| reg_step(self.base, reg_bytes@, k)),
            decreases reg_bytes@.len() - i,
        {
            ops.push(self.wait_tx_not_full());
            ops.push(mmio::write32(self.base + I2C_DATACMD, reg_bytes[i] as u32));
            assert(ops@ =~= head + ops_for(i + 1, |k: int| reg_step(self.base, reg_bytes@, k)));
            i = i + 1;
        }
        let ghost head2 = ops@;
        let mut i: usize = 0;
        while i < n
            invariant
                self.regs_ok(),
                i <= n,
                head2 == head + ops_for(reg_bytes@.len() as int, |k: int| reg_step(self.base, reg_bytes@, k)),
                head == target_ops(self.base, addr) + seq![status_poll(self.base, STATUS_BUSY, 0)],
                ops@ == head2 + ops_for(i as int, |k: int| read_cmd_step(self.base, n as int, k)),
            decreases n - i,
        {
            let stop = if i == n - 1 { DATACMD_STOP } else { 0 };
            ops.push(self.wait_tx_not_full());
            ops.push(mmio::write32(self.base + I2C_DATACMD, DATACMD_READ | stop));
            assert(ops@ =~= head2 + ops_for(i + 1, |k: int| read_cmd_step(self.base, n as int, k)));
            i = i + 1;
        }
        let ghost head3 = ops@;
        let mut i: usize = 0;
        while i < n
            invariant
                self.regs_ok(),
                i <= n,
                head3 == head2 + ops_for(n as int, |k: int| read_cmd_step(self.base, n as int, k)),
                head2 == head + ops_for(reg_bytes@.len() as int, |k: int| reg_step(self.base, reg_bytes@, k)),
                head == target_ops(self.base, addr) + seq![status_poll(self.base, STATUS_BUSY, 0)],
                ops@ == head3 + ops_for(i as int, |k: int| capture_step(self.base)),
            decreases n - i,
        {
            ops.push(self.wait_rx_ready());
            ops.push(HwOp::Capture { addr: self.base + I2C_DATACMD });
            assert(ops@ =~= head3 + ops_for(i + 1, |k: int| capture_step(self.base)));
            i = i + 1;
        }
        extend_ops(&mut ops, self.finish());
        ops
    }

    /// Run the operations in order, as one program: each read is captured
    /// in turn, and the program stops at the first operation that fails,
    /// so the later ones do not run.
    pub fn transaction(&self, address: u8, operations: &[I2cOperation]) -> (ops: Vec<HwOp>)
        requires
            self.regs_ok(),
        ensures
            ops@ == transaction_ops(self.base, address, operations@),
    {
        let mut ops: Vec<HwOp> = Vec::new();
        let mut i: usize = 0;
        while i < operations.len()
            invariant
                self.regs_ok(),
                i <= operations@.len(),
                ops@ == transaction_ops(self.base, address, operations@.take(i as int)),
            decreases operations@.len() - i,
        {
            let more = match &operations[i] {
                I2cOperation::Write(data) => self.write(address, data.as_slice()),
                I2cOperation::Read(n) => self.write_read(address, &[], *n),
            };
            proof {
                assert(operations@.take(i + 1).drop_last() =~= operations@.take(i as int));
            }
            extend_ops(&mut ops, more);
            i = i + 1;
        }
        proof {
            assert(operations@.take(operations@.len() as int) =~= operations@);
        }
        ops
    }
}

/// What `write_read` puts on the bus, as the words written to the
/// data/command register in order: the register-address bytes exactly as
/// given, first to last, then one read command per byte to receive, the
/// last of them with STOP (0x100 = read, 0x300 = read and stop).
pub proof fn lemma_write_read_datacmd(base: usize, addr: u8, reg_bytes: Seq<u8>, n: int)
    requires
        base + I2C_TX_ABRT <= usize::MAX,
        0 <= n,
    ensures
        writes_to(write_read_ops(base, addr, reg_bytes, n), (base + I2C_DATACMD) as usize)
            == Seq::new(reg_bytes.len(), |k: int| reg_bytes[k] as u32)
                + Seq::new(n as nat, |k: int| if k == n - 1 { 0x300u32 } else { 0x100u32 }),
{
    let d = (base + I2C_DATACMD) as usize;
    let t = target_ops(base, addr) + seq![status_poll(base, STATUS_BUSY, 0)];
    let fr = |i: int| reg_step(base, reg_bytes, i);
    let fc = |i: int| read_cmd_step(base, n, i);
    let fp = |i: int| capture_step(base);
    let a = ops_for(reg_bytes.len() as int, fr);
    let b = ops_for(n, fc);
    let c = ops_for(n, fp);
    let f = finish_ops(base);
    assert(write_read_ops(base, addr, reg_bytes, n) == t + a + b + c + f);
    // The target selection and the status polls write elsewhere.
    assert(reg(base, I2C_ENABLE) != d && reg(base, I2C_TAR) != d);
    reveal_with_fuel(writes_to, 5);
    assert(writes_to(t, d) =~= Seq::<u32>::empty());
    assert(writes_to(f, d) =~= Seq::<u32>::empty());
    let g = |k: int| reg_bytes[k] as u32;
    assert forall|i: int| 0 <= i < reg_bytes.len() implies #[trigger] writes_to(fr(i), d) == seq![g(i)] by {
        reveal_with_fuel(writes_to, 3);
        assert(writes_to(fr(i), d) =~= seq![g(i)]);
    }
    lemma_writes_to_steps(reg_bytes.len() as int, fr, g, d);
    let h = |k: int| if k == n - 1 { 0x300u32 } else { 0x100u32 };
    assert((1u32 << 8u32) | (1u32 << 9u32) == 0x300u32 && (1u32 << 8u32) | 0u32 == 0x100u32) by (bit_vector);
    assert forall|i: int| 0 <= i < n implies #[trigger] writes_to(fc(i), d) == seq![h(i)] by {
        reveal_with_fuel(writes_to, 3);
        assert(read_word(i, n) == h(i));
        assert(writes_to(fc(i), d) =~= seq![h(i)]);
    }
    lemma_writes_to_steps(n, fc, h, d);
    assert forall|i: int| 0 <= i < n implies #[trigger] writes_to(fp(i), d) == Seq::<u32>::empty() by {
        reveal_with_fuel(writes_to, 3);
        assert(writes_to(fp(i), d) =~= Seq::<u32>::empty());
    }
    lemma_writes_to_none(n, fp, d);
    lemma_writes_to_concat(t, a, d);
    lemma_writes_to_concat(t + a, b, d);
    lemma_writes_to_concat(t + a + b, c, d);
    lemma_writes_to_concat(t + a + b + c, f, d);
    assert(Seq::new(reg_bytes.len(), |k: int| reg_bytes[k] as u32) =~= Seq::new(reg_bytes.len() as nat, g));
    assert(Seq::<u32>::empty() + Seq::new(reg_bytes.len() as nat, g) + Seq::new(n as nat, h) + Seq::<u32>::empty()
        + Seq::<u32>::empty() =~= Seq::new(reg_bytes.len() as nat, g) + Seq::new(n as nat, h));
}

/// What `write` puts on the bus: the data bytes in the order given, the
/// last one with STOP (bit 9), as the only words written to the
/// data/command register.
pub proof fn lemma_write_datacmd(base: usize, addr: u8, data: Seq<u8>)
    requires
        base + I2C_TX_ABRT <= usize::MAX,
    ensures
        writes_to(write_ops(base, addr, data), (base + I2C_DATACMD) as usize)
            == Seq::new(data.len(), |k: int| if k == data.len() - 1 { data[k] as u32 | 0x200u32 } else { data[k] as u32 }),
{
    let d = (base + I2C_DATACMD) as usize;
    let t = target_ops(base, addr) + seq![status_poll(base, STATUS_BUSY, 0)];
    let fd = |i: int| data_step(base, data, i);
    let a = ops_for(data.len() as int, fd);
    let f = finish_ops(base);
    assert(write_ops(base, addr, data) == t + a + f);
    assert(reg(base, I2C_ENABLE) != d && reg(base, I2C_TAR) != d);
    reveal_with_fuel(writes_to, 5);
    assert(writes_to(t, d) =~= Seq::<u32>::empty());
    assert(writes_to(f, d) =~= Seq::<u32>::empty());
    let g = |k: int| if k == data.len() - 1 { data[k] as u32 | 0x200u32 } else { data[k] as u32 };
    assert forall|i: int| 0 <= i < data.len() implies #[trigger] writes_to(fd(i), d) == seq![g(i)] by {
        reveal_with_fuel(writes_to, 3);
        let b = data[i] as u32;
        assert(b | 0u32 == b && (1u32 << 9u32) == 0x200u32) by (bit_vector);
        assert(write_word(data[i], i, data.len() as int) == g(i));
        assert(writes_to(fd(i), d) =~= seq![g(i)]);
    }
    lemma_writes_to_steps(data.len() as int, fd, g, d);
    lemma_writes_to_concat(t, a, d);
    lemma_writes_to_concat(t + a, f, d);
    assert(Seq::<u32>::empty() + Seq::new(data.len() as nat, g) + Seq::<u32>::empty() =~= Seq::new(data.len() as nat, g));
    assert(Seq::new(data.len(), |k: int| if k == data.len() - 1 { data[k] as u32 | 0x200u32 } else { data[k] as u32 })
        =~= Seq::new(data.len() as nat, g));
}

/// Every transfer addresses its target: the target register is written
/// once, with the 7-bit address.
pub proof fn lemma_transfers_address_target(base: usize, addr: u8, data: Seq<u8>, reg_bytes: Seq<u8>, n: int)
    requires
        base + I2C_TX_ABRT <= usize::MAX,
        0 <= n,
    ensures
        writes_to(write_ops(base, addr, data), (base + I2C_TAR) as usize) == seq![(addr as u32) % 128],
        writes_to(write_read_ops(base, addr, reg_bytes, n), (base + I2C_TAR) as usize) == seq![(addr as u32) % 128],
{
    let ta = (base + I2C_TAR) as usize;
    let t = target_ops(base, addr) + seq![status_poll(base, STATUS_BUSY, 0)];
    let f = finish_ops(base);
    let v = (addr as u32) & 0x7F;
    assert(v == (addr as u32) % 128) by (bit_vector)
        requires v == (addr as u32) & 0x7F;
    reveal_with_fuel(writes_to, 5);
    assert(reg(base, I2C_ENABLE) != ta && reg(base, I2C_DATACMD) != ta);
    assert(writes_to(t, ta) =~= seq![v]);
    assert(writes_to(f, ta) =~= Seq::<u32>::empty());
    let fd = |i: int| data_step(base, data, i);
    let fr = |i: int| reg_step(base, reg_bytes, i);
    let fc = |i: int| read_cmd_step(base, n, i);
    let fp = |i: int| capture_step(base);
    assert forall|i: int| 0 <= i < data.len() implies #[trigger] writes_to(fd(i), ta) == Seq::<u32>::empty() by {
        reveal_with_fuel(writes_to, 3);
    }
    assert forall|i: int| 0 <= i < reg_bytes.len() implies #[trigger] writes_to(fr(i), ta) == Seq::<u32>::empty() by {
        reveal_with_fuel(writes_to, 3);
    }
    assert forall|i: int| 0 <= i < n implies #[trigger] writes_to(fc(i), ta) == Seq::<u32>::empty() by {
        reveal_with_fuel(writes_to, 3);
    }
    assert forall|i: int| 0 <= i < n implies #[trigger] writes_to(fp(i), ta) == Seq::<u32>::empty() by {
        reveal_with_fuel(writes_to, 3);
    }
    let a = ops_for(data.len() as int, fd);
    let ra = ops_for(reg_bytes.len() as int, fr);
    let b = ops_for(n, fc);
    let c = ops_for(n, fp);
    lemma_writes_to_none(data.len() as int, fd, ta);
    lemma_writes_to_none(reg_bytes.len() as int, fr, ta);
    lemma_writes_to_none(n, fc, ta);
    lemma_writes_to_none(n, fp, ta);
    assert(write_ops(base, addr, data) == t + a + f);
    lemma_writes_to_concat(t, a, ta);
    lemma_writes_to_concat(t + a, f, ta);
    assert(write_read_ops(base, addr, reg_bytes, n) == t + ra + b + c + f);
    lemma_writes_to_concat(t, ra, ta);
    lemma_writes_to_concat(t + ra, b, ta);
    lemma_writes_to_concat(t + ra + b, c, ta);
    lemma_writes_to_concat(t + ra + b + c, f, ta);
    assert(seq![v] + Seq::<u32>::empty() + Seq::<u32>::empty() =~= seq![v]);
    assert(seq![v] + Seq::<u32>::empty() + Seq::<u32>::empty() + Seq::<u32>::empty() + Seq::<u32>::empty() =~= seq![v]);
}

} // verus!
