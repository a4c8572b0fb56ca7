//! Ping-pong DMA buffer for the audio pipeline: the DMA drains one half
//! while the CPU fills the other.
use vstd::prelude::*;

verus! {

/// Number of audio frames per half-buffer.
pub const FRAMES_PER_HALF: usize = 1024;

/// Size of one half-buffer in bytes (stereo, 32-bit samples).
pub const HALF_BUFFER_BYTES: usize = FRAMES_PER_HALF * 2 * 4;

/// Which half the DMA is currently reading from.
#[derive(Clone, Copy, Debug, PartialEq, Eq, Structural)]
pub enum HalfSelect {
    First,
    Second,
}

/// Offset of the half numbered `active` (0 or 1).
pub open spec fn half_offset(active: u8) -> int {
    if active == 0 { 0 } else { HALF_BUFFER_BYTES as int }
}

/// Offset of the half the CPU may fill while the DMA reads half `active`.
pub open spec fn writable_offset(active: u8) -> int {
    if active == 0 { HALF_BUFFER_BYTES as int } else { 0 }
}

/// A ping-pong (double) DMA buffer: `[ half A | half B ]`, placed at the
/// physical address `phys_base`.
pub struct DmaRingBuffer {
    data: Vec<u8>,
    active_half: u8,
    phys_base: usize,
}

impl DmaRingBuffer {
    /// All the bytes of both halves.
    pub closed spec fn bytes(&self) -> Seq<u8> {
        self.data@
    }

    /// The half the DMA is consuming: 0 for half A, 1 for half B.
    pub closed spec fn active(&self) -> u8 {
        self.active_half
    }

    pub closed spec fn phys(&self) -> usize {
        self.phys_base
    }

    pub open spec fn wf(&self) -> bool {
        &&& self.bytes().len() == 2 * HALF_BUFFER_BYTES
        &&& (self.active() == 0 || self.active() == 1)
        &&& self.phys() + 2 * HALF_BUFFER_BYTES <= usize::MAX
        &&& self.phys() % 32 == 0
    }

    /// A zeroed buffer at `phys_base` (32-byte aligned, as the DMA bursts
    /// need), with the DMA on half A.
    pub fn new(phys_base: usize) -> (b: Self)
        requires
            phys_base + 2 * HALF_BUFFER_BYTES <= usize::MAX,
            phys_base % 32 == 0,
        ensures
            b.wf(),
            b.active() == 0,
            b.phys() == phys_base,
            forall|i: int| 0 <= i < 2 * HALF_BUFFER_BYTES ==> #[trigger] b.bytes()[i] == 0,
    {
        let mut data: Vec<u8> = Vec::new();
        let mut k: usize = 0;
        while k < HALF_BUFFER_BYTES * 2
            invariant
                k <= HALF_BUFFER_BYTES * 2,
                data@.len() == k,
                forall|i: int| 0 <= i < k ==> #[trigger] data@[i] == 0,
            decreases HALF_BUFFER_BYTES * 2 - k,
        {
            data.push(0);
            k = k + 1;
        }
        DmaRingBuffer { data, active_half: 0, phys_base }
    }

    /// Offset of the half the CPU should fill next: the one the DMA is not reading.
    pub fn writable_half(&self) -> (offset: usize)
        requires
            self.wf(),
        ensures
            offset == writable_offset(self.active()),
    {
        let active = self.active_half;
        if active == 0 {
            HALF_BUFFER_BYTES
        } else {
            0
        }
    }

    /// Store byte `b` at position `i` of the writable half.
    pub fn write_writable(&mut self, i: usize, b: u8)
        requires
            old(self).wf(),
            i < HALF_BUFFER_BYTES,
        ensures
            final(self).wf(),
            final(self).active() == old(self).active(),
            final(self).phys() == old(self).phys(),
            final(self).bytes() == old(self).bytes().update(writable_offset(old(self).active()) + i, b),
    {
        let offset = self.writable_half();
        self.data.set(offset + i, b);
    }

    /// The bytes of the half being consumed by the DMA.
    pub fn active_half_slice(&self) -> (s: &[u8])
        requires
            self.wf(),
        ensures
            s@ == self.bytes().subrange(
                half_offset(self.active()),
                half_offset(self.active()) + HALF_BUFFER_BYTES,
            ),
    {
        let active = self.active_half;
        assert(HALF_BUFFER_BYTES == 8192);
        let offset = (active as usize) * HALF_BUFFER_BYTES;
        vstd::slice::slice_subrange(self.data.as_slice(), offset, offset + HALF_BUFFER_BYTES)
    }

    /// Swap the active half (called when the DMA finishes a half).
    pub fn swap(&mut self)
        requires
            old(self).wf(),
        ensures
            final(self).wf(),
            final(self).active() == 1 - old(self).active(),
            final(self).bytes() == old(self).bytes(),
            final(self).phys() == old(self).phys(),
    {
        let prev = self.active_half;
        let next = if prev == 0 { 1 } else { 0 };
        self.active_half = next;
    }

    /// Physical base address of half A (for DMA descriptor setup).
    pub fn half_a_phys(&self) -> (a: usize)
        requires
            self.wf(),
        ensures
            a == self.phys(),
            a % 32 == 0,
    {
        self.phys_base
    }

    /// Physical base address of half B.
    pub fn half_b_phys(&self) -> (a: usize)
        requires
            self.wf(),
        ensures
            a == self.phys() + HALF_BUFFER_BYTES,
            a % 32 == 0,
    {
        self.phys_base + HALF_BUFFER_BYTES
    }

    /// Record the physical address at which the DMA sees the buffer.
    pub fn set_phys_base(&mut self, phys_base: usize)
        requires
            old(self).wf(),
            phys_base + 2 * HALF_BUFFER_BYTES <= usize::MAX,
            phys_base % 32 == 0,
        ensures
            final(self).wf(),
            final(self).phys() == phys_base,
            final(self).bytes() == old(self).bytes(),
            final(self).active() == old(self).active(),
    {
        self.phys_base = phys_base;
    }

    /// Which half the DMA is currently consuming.
    pub fn current_active(&self) -> (h: HalfSelect)
        requires
            self.wf(),
        ensures
            h == (if self.active() == 0 { HalfSelect::First } else { HalfSelect::Second }),
    {
        if self.active_half == 0 {
            HalfSelect::First
        } else {
            HalfSelect::Second
        }
    }
}

/// Physical address of the entire buffer (the DMA descriptor's source):
/// the buffer starts with half A.
pub fn audio_buffer_phys(buf: &DmaRingBuffer) -> (a: usize)
    requires
        buf.wf(),
    ensures
        a == buf.phys(),
        a % 32 == 0,
{
    buf.half_a_phys()
}

/// The half the CPU writes is never the half the DMA reads: the two ranges
/// are disjoint, and together they make up the whole buffer.
pub proof fn lemma_halves_disjoint(active: u8)
    requires
        active == 0 || active == 1,
    ensures
        writable_offset(active) + HALF_BUFFER_BYTES <= half_offset(active)
            || half_offset(active) + HALF_BUFFER_BYTES <= writable_offset(active),
        writable_offset(active) + half_offset(active) == HALF_BUFFER_BYTES,
{
}

/// After a swap, the DMA reads the half the CPU just filled, and swapping
/// twice restores the original half.
pub proof fn lemma_swap_hands_over(active: u8)
    requires
        active == 0 || active == 1,
    ensures
        half_offset((1 - active) as u8) == writable_offset(active),
        (1 - (1 - active)) as u8 == active,
{
}

/// The active half after `n` swaps from half `active` (each `swap` sets
/// the active half to `1 - active`).
pub open spec fn active_after_swaps(active: u8, n: nat) -> u8
    decreases n,
{
    if n == 0 { active } else { (1 - active_after_swaps(active, (n - 1) as nat)) as u8 }
}

/// From a new buffer (DMA on half A), after `n` swaps the DMA is on half A
/// (`current_active` is `First`) exactly when `n` is even.
pub proof fn lemma_swap_parity(n: nat)
    ensures
        active_after_swaps(0, n) == if n % 2 == 0 { 0u8 } else { 1u8 },
    decreases n,
{
    if n > 0 {
        lemma_swap_parity((n - 1) as nat);
    }
}

/// Writing into the writable half leaves the half the DMA is reading untouched.
pub proof fn lemma_write_keeps_active(bytes: Seq<u8>, active: u8, i: int, b: u8, j: int)
    requires
        bytes.len() == 2 * HALF_BUFFER_BYTES,
        active == 0 || active == 1,
        0 <= i < HALF_BUFFER_BYTES,
        half_offset(active) <= j < half_offset(active) + HALF_BUFFER_BYTES,
    ensures
        bytes.update(writable_offset(active) + i, b)[j] == bytes[j],
{
}

} // verus!
