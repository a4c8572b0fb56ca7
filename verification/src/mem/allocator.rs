//! Buddy-system heap allocator.
//!
//! Free blocks are kept in one LIFO list per order; the block of order `o`
//! is `2^(o + MIN_ORDER)` bytes long and aligned to its own size.  The last
//! element of a list is its head.
use vstd::prelude::*;
use vstd::arithmetic::power2::{pow2, lemma_pow2_unfold, lemma_pow2_strictly_increases, lemma2_to64};
use vstd::bits::{lemma_usize_shl_is_mul, lemma_usize_pow2_no_overflow};

verus! {

/// Minimum block size = 32 bytes.
pub const MIN_ORDER: usize = 5;
/// Maximum order: blocks of up to 2^25 bytes.
pub const MAX_ORDER: usize = 25;
/// Number of distinct orders.
pub const ORDER_COUNT: usize = MAX_ORDER - MIN_ORDER + 1;

/// Size in bytes of a block of order `o`.
pub open spec fn bsz(o: int) -> int {
    pow2((o + MIN_ORDER) as nat) as int
}

/// The exec expression `1 << (o + MIN_ORDER)` computes `bsz(o)`.
pub proof fn lemma_block_bytes(o: usize)
    requires
        o < ORDER_COUNT,
    ensures
        (1usize << ((o + MIN_ORDER) as usize)) as int == bsz(o as int),
        bsz(o as int) >= 32,
        bsz(o as int) <= 0x200_0000,
{
    let k = (o + MIN_ORDER) as usize;
    lemma_usize_pow2_no_overflow(k as nat);
    lemma_usize_shl_is_mul(1, k);
    lemma_pow2_strictly_increases(5, 25);
    lemma2_to64();
    if k > 5 {
        lemma_pow2_strictly_increases(5, k as nat);
    }
    if k < 25 {
        lemma_pow2_strictly_increases(k as nat, 25);
    }
}

/// Blocks double in size from one order to the next.
pub proof fn lemma_bsz_double(o: int)
    requires
        0 <= o,
    ensures
        bsz(o + 1) == 2 * bsz(o),
        bsz(o) > 0,
{
    lemma_pow2_unfold((o + 1 + MIN_ORDER) as nat);
    vstd::arithmetic::power2::lemma_pow2_pos((o + MIN_ORDER) as nat);
}


/// Whether a block of order `o` fits in `remaining` bytes at `addr` and is
/// aligned there to its own size.
pub open spec fn fits(o: int, addr: int, remaining: int) -> bool {
    bsz(o) <= remaining && low_bits(addr as usize, (o + MIN_ORDER) as usize) == 0
}

/// The order that the heap split picks at `addr`: the largest order, from
/// `o` downwards, whose block fits and is aligned; 0 when none does.
pub open spec fn chosen_from(addr: int, remaining: int, o: int) -> int
    decreases o,
{
    if o <= 0 {
        0
    } else if fits(o, addr, remaining) {
        o
    } else {
        chosen_from(addr, remaining, o - 1)
    }
}

pub open spec fn chosen_order(addr: int, remaining: int) -> int {
    chosen_from(addr, remaining, ORDER_COUNT - 1)
}

/// The blocks, as (order, address) pairs in the order they are pushed, that
/// splitting `[addr, end)` into the largest aligned pieces that fit
/// produces; the split stops where no block fits (a tail shorter than the
/// smallest block).
pub open spec fn decomp(addr: int, end: int) -> Seq<(int, int)>
    decreases if addr < end { end - addr } else { 0 },
{
    if addr >= end {
        Seq::empty()
    } else {
        let o = chosen_order(addr, end - addr);
        if 0 <= o && fits(o, addr, end - addr) {
            proof {
                vstd::arithmetic::power2::lemma_pow2_pos((o + MIN_ORDER) as nat);
            }
            seq![(o, addr)] + decomp(addr + bsz(o), end)
        } else {
            Seq::empty()
        }
    }
}

/// A free list after pushing the block at `a`: the list is a chain of
/// blocks ending at the null address, so pushing the null address leaves
/// an empty list (the blocks below it are lost).
pub open spec fn push_node(s: Seq<usize>, a: usize) -> Seq<usize> {
    if a == 0 { Seq::empty() } else { s.push(a) }
}

/// The free lists after pushing `bs` in sequence.
pub open spec fn push_blocks(l: Seq<Seq<usize>>, bs: Seq<(int, int)>) -> Seq<Seq<usize>>
    decreases bs.len(),
{
    if bs.len() == 0 {
        l
    } else {
        let prev = push_blocks(l, bs.drop_last());
        let (o, a) = bs.last();
        prev.update(o, push_node(prev[o], a as usize))
    }
}

/// The smallest order, from `o` upwards, whose block holds `size` bytes.
pub open spec fn order_from(size: int, o: int) -> int
    decreases 64 - o,
{
    if o >= 64 || bsz(o) >= size {
        o
    } else {
        order_from(size, o + 1)
    }
}

/// The block size that a request of `size` bytes aligned to `align` needs.
pub open spec fn request_bytes(size: int, align: int) -> int {
    let m = if size >= align { size } else { align };
    if m >= 32 { m } else { 32 }
}

/// `s` without its head, if it has one.
pub open spec fn drop_head(s: Seq<usize>) -> Seq<usize> {
    if s.len() > 0 { s.drop_last() } else { s }
}

/// The first order from `o` upwards whose list has a non-null head.
pub open spec fn first_avail(l: Seq<Seq<usize>>, o: int) -> int
    decreases ORDER_COUNT - o,
{
    if o >= ORDER_COUNT {
        ORDER_COUNT as int
    } else if l[o].len() > 0 && l[o].last() != 0 {
        o
    } else {
        first_avail(l, o + 1)
    }
}

/// `s` without the occurrence of `x` nearest its head.
pub open spec fn remove_nearest(s: Seq<usize>, x: usize) -> Seq<usize>
    decreases s.len(),
{
    if s.len() == 0 {
        s
    } else if s.last() == x {
        s.drop_last()
    } else {
        remove_nearest(s.drop_last(), x).push(s.last())
    }
}

/// Coalescing a freed block of order `cur` at `addr` with free buddies:
/// the lists afterwards, the merged block's address and its order.
pub open spec fn coalesce(l: Seq<Seq<usize>>, addr: usize, cur: int) -> (Seq<Seq<usize>>, usize, int)
    decreases ORDER_COUNT - cur,
{
    if cur < 0 || cur >= ORDER_COUNT - 1 {
        (l, addr, cur)
    } else {
        let buddy = addr ^ (bsz(cur) as usize);
        if l[cur].contains(buddy) {
            coalesce(
                l.update(cur, remove_nearest(l[cur], buddy)),
                if buddy < addr { buddy } else { addr },
                cur + 1,
            )
        } else {
            (l, addr, cur)
        }
    }
}

/// The low `k` bits of an address.
pub open spec fn low_bits(x: usize, k: usize) -> usize {
    x & (((1usize << k) - 1usize) as usize)
}

/// Toggling bit `k` of an address moves it by exactly `2^k`.
pub proof fn lemma_xor_moves(x: usize, k: usize)
    requires
        k < 26,
    ensures
        (x ^ (1usize << k)) == x + (1usize << k) || (x ^ (1usize << k)) + (1usize << k) == x,
{
    assert((x ^ (1usize << k)) == x + (1usize << k) || (x ^ (1usize << k)) + (1usize << k) == x) by (bit_vector)
        requires k < 26usize;
}

/// The lower of two buddies of size `2^k` is aligned to `2^(k+1)`.
pub proof fn lemma_buddy_merge(x: usize, k: usize)
    requires
        k < 25,
        low_bits(x, k) == 0,
    ensures
        low_bits(if (x ^ (1usize << k)) < x { x ^ (1usize << k) } else { x }, (k + 1) as usize) == 0,
        low_bits(x ^ (1usize << k), k) == 0,
{
    let y = x ^ (1usize << k);
    assert(low_bits(if y < x { y } else { x }, (k + 1) as usize) == 0) by (bit_vector)
        requires
            k < 25usize,
            x & (((1usize << k) - 1usize) as usize) == 0,
            y == x ^ (1usize << k);
    assert(low_bits(y, k) == 0) by (bit_vector)
        requires
            k < 25usize,
            x & (((1usize << k) - 1usize) as usize) == 0,
            y == x ^ (1usize << k);
}

/// Inside a block aligned to `2^j`, bit `k < j` is clear, so the upper
/// half-buddy at level `k` is reached by adding `2^k`, and is aligned to `2^k`.
pub proof fn lemma_split_buddy(x: usize, k: usize, j: usize)
    requires
        k < j,
        j < 26,
        low_bits(x, j) == 0,
    ensures
        (x ^ (1usize << k)) == x + (1usize << k),
        low_bits(x, k) == 0,
{
    assert((x ^ (1usize << k)) == x + (1usize << k)) by (bit_vector)
        requires
            k < j,
            j < 26usize,
            x & (((1usize << j) - 1usize) as usize) == 0;
    assert(low_bits(x, k) == 0) by (bit_vector)
        requires
            k < j,
            j < 26usize,
            x & (((1usize << j) - 1usize) as usize) == 0;
}

proof fn lemma_remove_nearest_at(s: Seq<usize>, x: usize, j: int)
    requires
        0 <= j < s.len(),
        s[j] == x,
        forall|k: int| j < k < s.len() ==> s[k] != x,
    ensures
        remove_nearest(s, x) == s.remove(j),
    decreases s.len(),
{
    if s.last() == x {
        assert(j == s.len() - 1);
        assert(s.drop_last() =~= s.remove(j));
    } else {
        lemma_remove_nearest_at(s.drop_last(), x, j);
        assert(s.drop_last().remove(j).push(s.last()) =~= s.remove(j));
    }
}

proof fn lemma_remove_nearest_absent(s: Seq<usize>, x: usize)
    requires
        !s.contains(x),
    ensures
        remove_nearest(s, x) == s,
    decreases s.len(),
{
    if s.len() > 0 {
        assert(s.last() == s[s.len() - 1]);
        assert(!s.drop_last().contains(x)) by {
            if s.drop_last().contains(x) {
                let k = choose|k: int| 0 <= k < s.drop_last().len() && s.drop_last()[k] == x;
                assert(s[k] == x);
            }
        }
        lemma_remove_nearest_absent(s.drop_last(), x);
        assert(s.drop_last().push(s.last()) =~= s);
    }
}

/// Heap state of the buddy allocator.
pub struct BuddyInner {
    free_lists: Vec<Vec<usize>>,
    heap_start: usize,
    heap_size: usize,
    initialised: bool,
}

impl BuddyInner {
    /// The free lists, one sequence of block addresses per order.
    pub closed spec fn lists(&self) -> Seq<Seq<usize>> {
        self.free_lists@.map_values(|l: Vec<usize>| l@)
    }

    pub closed spec fn spec_heap_start(&self) -> usize {
        self.heap_start
    }

    pub closed spec fn spec_heap_size(&self) -> usize {
        self.heap_size
    }

    pub closed spec fn spec_initialised(&self) -> bool {
        self.initialised
    }

    /// Structural well-formedness: one list per order, and no block runs
    /// past the end of the address space.
    pub open spec fn wf(&self) -> bool {
        &&& self.lists().len() == ORDER_COUNT
        &&& forall|o: int, i: int|
            0 <= o < ORDER_COUNT && 0 <= i < self.lists()[o].len()
                ==> #[trigger] self.lists()[o][i] + bsz(o) <= usize::MAX
    }

    /// A healthy heap: every free block lies in the heap, is not the null
    /// address, is aligned to its size and overlaps no other, and no two
    /// free buddies sit unmerged.
    pub open spec fn healthy(&self) -> bool {
        &&& lists_ok(self.lists(), self.spec_heap_start() as int, self.spec_heap_size() as int)
        &&& coalesced(self.lists())
    }

    /// An empty, uninitialised allocator.
    pub fn new() -> (r: Self)
        ensures
            r.wf(),
            r.spec_heap_start() == 0,
            r.spec_heap_size() == 0,
            !r.spec_initialised(),
            forall|o: int| 0 <= o < ORDER_COUNT ==> (#[trigger] r.lists()[o]).len() == 0,
            r.healthy(),
    {
        let mut free_lists: Vec<Vec<usize>> = Vec::new();
        let mut k: usize = 0;
        while k < ORDER_COUNT
            invariant
                k <= ORDER_COUNT,
                free_lists@.len() == k,
                forall|o: int| 0 <= o < k ==> (#[trigger] free_lists@[o])@.len() == 0,
            decreases ORDER_COUNT - k,
        {
            free_lists.push(Vec::new());
            k = k + 1;
        }
        let r = BuddyInner { free_lists, heap_start: 0, heap_size: 0, initialised: false };
        assert forall|o: int| 0 <= o < ORDER_COUNT implies (#[trigger] r.lists()[o]).len() == 0 by {
            assert(r.lists()[o] == r.free_lists@[o]@);
        }
        r
    }

    /// Push a block onto the free list for `order`.  The list ends at the
    /// null address, so pushing address 0 empties it.
    pub fn push_free(&mut self, order: usize, addr: usize)
        requires
            old(self).wf(),
            order < ORDER_COUNT,
            addr + bsz(order as int) <= usize::MAX,
        ensures
            final(self).wf(),
            final(self).lists() == old(self).lists().update(order as int, push_node(old(self).lists()[order as int], addr)),
            final(self).spec_heap_start() == old(self).spec_heap_start(),
            final(self).spec_heap_size() == old(self).spec_heap_size(),
            final(self).spec_initialised() == old(self).spec_initialised(),
    {
        if addr == 0 {
            self.free_lists.set(order, Vec::new());
        } else {
            self.free_lists[order].push(addr);
        }
        assert(self.lists() =~= old(self).lists().update(order as int, push_node(old(self).lists()[order as int], addr)));
    }

    /// Pop a block from the free list for `order`; 0 when the list is empty.
    pub fn pop_free(&mut self, order: usize) -> (r: usize)
        requires
            old(self).wf(),
            order < ORDER_COUNT,
        ensures
            final(self).wf(),
            old(self).lists()[order as int].len() == 0 ==> r == 0 && final(self).lists() == old(self).lists(),
            old(self).lists()[order as int].len() > 0 ==> r == old(self).lists()[order as int].last()
                && final(self).lists() == old(self).lists().update(order as int, old(self).lists()[order as int].drop_last()),
            final(self).spec_heap_start() == old(self).spec_heap_start(),
            final(self).spec_heap_size() == old(self).spec_heap_size(),
            final(self).spec_initialised() == old(self).spec_initialised(),
    {
        let r = match self.free_lists[order].pop() {
            Some(a) => a,
            None => 0,
        };
        proof {
            if old(self).lists()[order as int].len() == 0 {
                assert(self.lists() =~= old(self).lists());
            } else {
                assert(self.lists() =~= old(self).lists().update(order as int, old(self).lists()[order as int].drop_last()));
                assert forall|o: int, i: int|
                    0 <= o < ORDER_COUNT && 0 <= i < self.lists()[o].len()
                        implies #[trigger] self.lists()[o][i] + bsz(o) <= usize::MAX by {
                    if o != order {
                        assert(self.lists()[o] == old(self).lists()[o]);
                    } else {
                        assert(self.lists()[o][i] == old(self).lists()[o][i]);
                    }
                }
            }
        }
        r
    }
}


impl BuddyInner {
    /// Remove the occurrence of `addr` nearest the head of the free list for
    /// `order`.  Returns true if the address was found.
    pub fn remove_free(&mut self, order: usize, addr: usize) -> (found: bool)
        requires
            old(self).wf(),
            order < ORDER_COUNT,
        ensures
            final(self).wf(),
            found == old(self).lists()[order as int].contains(addr),
            final(self).lists() == old(self).lists().update(
                order as int,
                remove_nearest(old(self).lists()[order as int], addr),
            ),
            final(self).spec_heap_start() == old(self).spec_heap_start(),
            final(self).spec_heap_size() == old(self).spec_heap_size(),
            final(self).spec_initialised() == old(self).spec_initialised(),
    {
        let ghost l = old(self).lists();
        let ghost s = l[order as int];
        assert(s == self.free_lists@[order as int]@);
        let n = self.free_lists[order].len();
        let mut i = n;
        while i > 0
            invariant
                self.wf(),
                self.lists() == l,
                l == old(self).lists(),
                s == l[order as int],
                self.heap_start == old(self).heap_start,
                self.heap_size == old(self).heap_size,
                self.initialised == old(self).initialised,
                order < ORDER_COUNT,
                i <= n,
                n == s.len(),
                s == self.free_lists@[order as int]@,
                forall|k: int| i <= k < n ==> s[k] != addr,
            decreases i,
        {
            if self.free_lists[order][i - 1] == addr {
                self.free_lists[order].remove(i - 1);
                proof {
                    lemma_remove_nearest_at(s, addr, (i - 1) as int);
                    assert(s.contains(addr));
                    assert(self.lists() =~= l.update(order as int, s.remove((i - 1) as int)));
                    assert forall|o: int, j: int|
                        0 <= o < ORDER_COUNT && 0 <= j < self.lists()[o].len()
                            implies #[trigger] self.lists()[o][j] + bsz(o) <= usize::MAX by {
                        if o != order {
                            assert(self.lists()[o] == l[o]);
                        } else {
                            if j < i - 1 {
                                assert(self.lists()[o][j] == l[o][j]);
                            } else {
                                assert(self.lists()[o][j] == l[o][j + 1]);
                            }
                        }
                    }
                }
                return true;
            }
            i = i - 1;
        }
        proof {
            assert(!s.contains(addr)) by {
                if s.contains(addr) {
                    let k = choose|k: int| 0 <= k < s.len() && s[k] == addr;
                }
            }
            lemma_remove_nearest_absent(s, addr);
            assert(l.update(order as int, s) =~= l);
        }
        false
    }

    /// Find the largest order whose block fits in `remaining` bytes and is
    /// aligned at `addr`; 0 when none does.
    pub fn largest_order(&self, addr: usize, remaining: usize) -> (order: usize)
        ensures
            order < ORDER_COUNT,
            order as int == chosen_order(addr as int, remaining as int),
    {
        let mut order: usize = ORDER_COUNT - 1;
        loop
            invariant
                order < ORDER_COUNT,
                chosen_order(addr as int, remaining as int) == chosen_from(addr as int, remaining as int, order as int),
            decreases order,
        {
            proof {
                lemma_block_bytes(order);
            }
            let size: usize = 1usize << (order + MIN_ORDER);
            if size <= remaining && (addr & (size - 1)) == 0 {
                return order;
            }
            if order == 0 {
                return 0;
            }
            order = order - 1;
        }
    }
}

/// Convert a size to a buddy order index: the smallest order whose block
/// holds `size` bytes.
pub fn size_to_order(size: usize) -> (order: usize)
    requires
        size as int <= usize::MAX as int / 2 + 1,
    ensures
        order as int == order_from(size as int, 0),
        bsz(order as int) >= size,
        order == 0 || bsz(order - 1) < size,
{
    let mut order: usize = 0;
    let mut s: usize = 1usize << MIN_ORDER;
    proof {
        lemma_block_bytes(0);
    }
    while s < size
        invariant
            s as int == bsz(order as int),
            order < 64,
            size as int <= usize::MAX as int / 2 + 1,
            order_from(size as int, order as int) == order_from(size as int, 0),
            order == 0 || bsz(order - 1) < size,
        decreases 64 - order,
    {
        proof {
            lemma_bsz_double(order as int);
            if order + MIN_ORDER > 63 {
                vstd::arithmetic::power2::lemma_pow2_strictly_increases(63, (order + MIN_ORDER) as nat);
                vstd::bits::lemma_u64_pow2_no_overflow(63);
                lemma2_to64();
                vstd::arithmetic::power2::lemma2_to64_rest();
            }
            if order + MIN_ORDER == 63 {
                lemma2_to64();
                vstd::arithmetic::power2::lemma2_to64_rest();
            }
        }
        s = s * 2;
        order = order + 1;
    }
    order
}


/// Blocks grow with their order.
pub proof fn lemma_bsz_mono(a: int, b: int)
    requires
        0 <= a <= b,
    ensures
        bsz(a) <= bsz(b),
{
    if a < b {
        lemma_pow2_strictly_increases((a + MIN_ORDER) as nat, (b + MIN_ORDER) as nat);
    }
}

/// The free list of order `o` after `alloc` has searched from `order`,
/// found its block at order `f` (or nothing, when `f == ORDER_COUNT`),
/// returned `r` and pushed the split-off upper halves.
pub open spec fn after_alloc(l: Seq<Seq<usize>>, order: int, f: int, r: usize, o: int) -> Seq<usize> {
    if o < order || o > f {
        l[o]
    } else if o == f {
        l[o].drop_last()
    } else if f < ORDER_COUNT {
        drop_head(l[o]).push((r + bsz(o)) as usize)
    } else {
        drop_head(l[o])
    }
}

/// What `alloc_block` does to the free lists `l`, searching from `order`:
/// it returns `r` and leaves the lists `n`.
pub open spec fn alloc_result(l: Seq<Seq<usize>>, order: int, r: usize, n: Seq<Seq<usize>>) -> bool {
    let f = first_avail(l, order);
    &&& (r == 0) == (f >= ORDER_COUNT)
    &&& f < ORDER_COUNT ==> r == l[f].last()
    &&& n.len() == ORDER_COUNT
    &&& forall|o: int| 0 <= o < ORDER_COUNT ==> #[trigger] n[o] == after_alloc(l, order, f, r, o)
}

impl BuddyInner {
    /// Allocate a block of at least `size` bytes aligned to `align`
    /// (the fields of a `Layout`).  Returns 0 when out of memory.
    #[verifier::loop_isolation(false)]
    pub fn alloc_block(&mut self, size: usize, align: usize) -> (r: usize)
        requires
            old(self).wf(),
            request_bytes(size as int, align as int) <= usize::MAX as int / 2 + 1,
        ensures
            final(self).wf(),
            final(self).spec_heap_start() == old(self).spec_heap_start(),
            final(self).spec_heap_size() == old(self).spec_heap_size(),
            final(self).spec_initialised() == old(self).spec_initialised(),
            alloc_result(
                old(self).lists(),
                order_from(request_bytes(size as int, align as int), 0),
                r,
                final(self).lists(),
            ),
            old(self).healthy() ==> final(self).healthy(),
            old(self).healthy() && r != 0 ==> block_ok(
                old(self).spec_heap_start() as int,
                old(self).spec_heap_size() as int,
                order_from(request_bytes(size as int, align as int), 0),
                r,
            ) && free_of(final(self).lists(), order_from(request_bytes(size as int, align as int), 0), r as int),
            bsz(order_from(request_bytes(size as int, align as int), 0)) >= size as int,
            bsz(order_from(request_bytes(size as int, align as int), 0)) >= align as int,
            old(self).healthy() && r != 0 && is_pow2(align as int) ==> r as int % align as int == 0,
    {
        let ghost l = old(self).lists();
        let m = if size >= align { size } else { align };
        let req = if m >= (1usize << MIN_ORDER) { m } else { 1usize << MIN_ORDER };
        assert(req as int == request_bytes(size as int, align as int)) by {
            assert((1usize << MIN_ORDER) == 32) by (bit_vector);
        }
        let order = size_to_order(req);
        proof {
            lemma_order_from_covers(req as int, 0);
        }
        let mut o = order;
        while o < ORDER_COUNT
            invariant
                self.wf(),
                l == old(self).lists(),
                self.heap_start == old(self).heap_start,
                self.heap_size == old(self).heap_size,
                self.initialised == old(self).initialised,
                order <= o,
                order < ORDER_COUNT ==> o <= ORDER_COUNT,
                order >= ORDER_COUNT ==> o == order,
                first_avail(l, order as int) == first_avail(l, o as int),
                forall|k: int| 0 <= k < ORDER_COUNT
                    ==> #[trigger] self.lists()[k] == if order <= k < o { drop_head(l[k]) } else { l[k] },
            decreases ORDER_COUNT - o,
        {
            let ghost before = self.lists();
            let blk = self.pop_free(o);
            if blk != 0 {
                let ghost lp = self.lists();
                assert(l[o as int].len() > 0 && l[o as int].last() != 0);
                assert(first_avail(l, o as int) == o);
                assert(blk + bsz(o as int) <= usize::MAX) by {
                    assert(before[o as int][before[o as int].len() - 1] == blk);
                }
                let mut current = o;
                while current > order
                    invariant
                        self.wf(),
                        order <= current <= o,
                        o < ORDER_COUNT,
                        blk + bsz(o as int) <= usize::MAX,
                        self.heap_start == old(self).heap_start,
                        self.heap_size == old(self).heap_size,
                        self.initialised == old(self).initialised,
                        lp.len() == ORDER_COUNT,
                        forall|k: int| 0 <= k < ORDER_COUNT
                            ==> #[trigger] self.lists()[k] == if current <= k < o {
                                lp[k].push((blk + bsz(k)) as usize)
                            } else {
                                lp[k]
                            },
                    decreases current,
                {
                    current = current - 1;
                    proof {
                        lemma_block_bytes(current);
                        lemma_bsz_double(current as int);
                        lemma_bsz_mono(current as int + 1, o as int);
                    }
                    let buddy = blk + (1usize << (current + MIN_ORDER));
                    self.push_free(current, buddy);
                }
                proof {
                    assert(before[o as int] == l[o as int]);
                    assert(blk == l[o as int].last());
                    assert forall|k: int| 0 <= k < ORDER_COUNT implies #[trigger] self.lists()[k]
                        == after_alloc(l, order as int, o as int, blk, k) by {
                        if order <= k < o {
                            assert(lp[k] == before[k]);
                            assert(lp[k] == drop_head(l[k]));
                        } else if k == o {
                            assert(lp[k] == l[k].drop_last());
                        } else {
                            assert(lp[k] == before[k]);
                        }
                    }
                    if old(self).healthy() {
                        assert(alloc_result(l, order as int, blk, self.lists()));
                        lemma_alloc_lists(l, self.heap_start as int, self.heap_size as int, order as int, blk, self.lists());
                        if is_pow2(align as int) {
                            lemma_alloc_aligned(self.heap_start as int, self.heap_size as int, size, align, blk);
                        }
                    }
                }
                return blk;
            }
            proof {
                assert(!(l[o as int].len() > 0 && l[o as int].last() != 0));
                assert forall|k: int| 0 <= k < ORDER_COUNT implies #[trigger] self.lists()[k]
                    == if order <= k < o + 1 { drop_head(l[k]) } else { l[k] } by {
                    if k == o {
                        if l[k].len() > 0 {
                            assert(before[k] == l[k]);
                        }
                    }
                }
            }
            o = o + 1;
        }
        proof {
            assert forall|k: int| 0 <= k < ORDER_COUNT implies #[trigger] self.lists()[k]
                == after_alloc(l, order as int, ORDER_COUNT as int, 0, k) by {
            }
            if old(self).healthy() {
                assert(alloc_result(l, order as int, 0, self.lists()));
                lemma_alloc_lists(l, self.heap_start as int, self.heap_size as int, order as int, 0, self.lists());
            }
        }
        0
    }
}


impl BuddyInner {
    /// Free a block previously returned by `alloc_block` for the same `size`
    /// and `align`, merging it with free buddies as far as possible.
    pub fn dealloc(&mut self, ptr: usize, size: usize, align: usize)
        requires
            old(self).wf(),
            request_bytes(size as int, align as int) <= usize::MAX as int / 2 + 1,
            order_from(request_bytes(size as int, align as int), 0) < ORDER_COUNT,
            ptr + bsz(order_from(request_bytes(size as int, align as int), 0)) <= usize::MAX,
        ensures
            final(self).wf(),
            final(self).spec_heap_start() == old(self).spec_heap_start(),
            final(self).spec_heap_size() == old(self).spec_heap_size(),
            final(self).spec_initialised() == old(self).spec_initialised(),
            final(self).lists() == freed_lists(
                old(self).lists(),
                ptr,
                order_from(request_bytes(size as int, align as int), 0),
            ),
            old(self).healthy() && block_ok(
                old(self).spec_heap_start() as int,
                old(self).spec_heap_size() as int,
                order_from(request_bytes(size as int, align as int), 0),
                ptr,
            ) && free_of(old(self).lists(), order_from(request_bytes(size as int, align as int), 0), ptr as int)
                ==> final(self).healthy(),
    {
        let ghost l = old(self).lists();
        let m = if size >= align { size } else { align };
        let req = if m >= (1usize << MIN_ORDER) { m } else { 1usize << MIN_ORDER };
        assert(req as int == request_bytes(size as int, align as int)) by {
            assert((1usize << MIN_ORDER) == 32) by (bit_vector);
        }
        let order = size_to_order(req);
        let ghost target = coalesce(l, ptr, order as int);
        let mut addr = ptr;
        let mut current_order = order;
        let mut done = false;
        while current_order < ORDER_COUNT - 1 && !done
            invariant
                self.wf(),
                current_order < ORDER_COUNT,
                addr + bsz(current_order as int) <= usize::MAX,
                self.heap_start == old(self).heap_start,
                self.heap_size == old(self).heap_size,
                self.initialised == old(self).initialised,
                !done ==> coalesce(self.lists(), addr, current_order as int) == target,
                done ==> (self.lists(), addr, current_order as int) == target,
            decreases ORDER_COUNT - current_order, if done { 0int } else { 1int },
        {
            proof {
                lemma_block_bytes(current_order);
                lemma_xor_moves(addr, (current_order + MIN_ORDER) as usize);
                lemma_bsz_double(current_order as int);
            }
            let block_size: usize = 1usize << (current_order + MIN_ORDER);
            let buddy = addr ^ block_size;
            let ghost before = self.lists();
            if self.remove_free(current_order, buddy) {
                proof {
                    let i = choose|i: int| 0 <= i < before[current_order as int].len()
                        && before[current_order as int][i] == buddy;
                    assert(before[current_order as int][i] + bsz(current_order as int) <= usize::MAX);
                }
                addr = if buddy < addr { buddy } else { addr };
                current_order = current_order + 1;
            } else {
                proof {
                    lemma_remove_nearest_absent(before[current_order as int], buddy);
                    assert(self.lists() =~= before);
                }
                done = true;
            }
        }
        let ghost merged = (self.lists(), addr, current_order as int);
        assert(merged == target);
        self.push_free(current_order, addr);
        proof {
            if old(self).healthy() && block_ok(self.heap_start as int, self.heap_size as int, order as int, ptr)
                && free_of(l, order as int, ptr as int) {
                lemma_dealloc_lists(l, self.heap_start as int, self.heap_size as int, ptr, order as int);
            }
        }
    }
}


/// Every block is a whole number of 32-byte units.
pub proof fn lemma_bsz_units(o: int)
    requires
        0 <= o,
    ensures
        bsz(o) == 32 * pow2(o as nat),
{
    vstd::arithmetic::power2::lemma_pow2_adds(o as nat, MIN_ORDER as nat);
    lemma2_to64();
    let p = pow2(o as nat);
    assert(p * pow2(5) == p * 32);
}

/// The chosen order is at most `o`, and its block fits unless it is 0.
pub proof fn lemma_chosen_fits(addr: int, remaining: int, o: int)
    requires
        0 <= o,
    ensures
        0 <= chosen_from(addr, remaining, o) <= o,
        chosen_from(addr, remaining, o) == 0 || fits(chosen_from(addr, remaining, o), addr, remaining),
    decreases o,
{
    if o > 0 && !fits(o, addr, remaining) {
        lemma_chosen_fits(addr, remaining, o - 1);
    }
}

impl BuddyInner {
    /// Initialise with the heap region `[start, start + size)`: the region is
    /// split, from its start, into the largest blocks that fit and are
    /// aligned, and each is pushed onto its free list.
    pub fn init(&mut self, start: usize, size: usize)
        requires
            old(self).wf(),
            start + size <= usize::MAX,
        ensures
            final(self).wf(),
            final(self).spec_heap_start() == start,
            final(self).spec_heap_size() == size,
            final(self).spec_initialised(),
            final(self).lists() == push_blocks(old(self).lists(), decomp(start as int, start + size)),
    {
        self.heap_start = start;
        self.heap_size = size;
        self.initialised = true;

        let ghost l0 = old(self).lists();
        let mut addr = start;
        let end = start + size;
        let ghost mut done: Seq<(int, int)> = Seq::empty();
        assert(decomp(start as int, end as int) == done + decomp(addr as int, end as int));
        assert(self.lists() == push_blocks(l0, done));
        let mut stop = false;
        while addr < end && !stop
            invariant
                self.wf(),
                self.heap_start == start,
                self.heap_size == size,
                self.initialised,
                end == start + size,
                start <= addr <= end,
                self.lists() == push_blocks(l0, done),
                decomp(start as int, end as int) == done + decomp(addr as int, end as int),
                stop ==> decomp(addr as int, end as int) == Seq::<(int, int)>::empty(),
            decreases end - addr, if stop { 0int } else { 1int },
        {
            let remaining = end - addr;
            let order = self.largest_order(addr, remaining);
            proof {
                lemma_block_bytes(order);
                lemma_chosen_fits(addr as int, remaining as int, ORDER_COUNT - 1);
            }
            let bs = 1usize << (order + MIN_ORDER);
            if bs > remaining || addr & (bs - 1) != 0 {
                proof {
                    assert(!fits(order as int, addr as int, remaining as int));
                    assert(decomp(addr as int, end as int) =~= Seq::<(int, int)>::empty());
                }
                stop = true;
            } else {
                proof {
                    let o = order as int;
                    assert(fits(o, addr as int, remaining as int));
                    let next = addr + bsz(o);
                    assert(decomp(addr as int, end as int) == seq![(o, addr as int)] + decomp(next, end as int));
                    assert(done + decomp(addr as int, end as int) =~= done.push((o, addr as int)) + decomp(next, end as int));
                    assert(done.push((o, addr as int)).drop_last() =~= done);
                    done = done.push((o, addr as int));
                }
                self.push_free(order, addr);
                addr = addr + bs;
            }
        }
        proof {
            if !stop {
                assert(decomp(addr as int, end as int) =~= Seq::<(int, int)>::empty());
            }
            assert(done + Seq::<(int, int)>::empty() =~= done);
        }
    }
}

/// A heap allocator initialised with the region `[heap_start, heap_start + heap_size)`.
pub fn init(heap_start: usize, heap_size: usize) -> (a: BuddyInner)
    requires
        heap_start + heap_size <= usize::MAX,
    ensures
        a.wf(),
        a.spec_heap_start() == heap_start,
        a.spec_heap_size() == heap_size,
        a.spec_initialised(),
        a.lists() == push_blocks(Seq::new(ORDER_COUNT as nat, |o: int| Seq::<usize>::empty()),
            decomp(heap_start as int, heap_start + heap_size)),
        a.healthy(),
{
    let mut a = BuddyInner::new();
    assert forall|o: int| 0 <= o < ORDER_COUNT implies #[trigger] a.lists()[o] =~= Seq::<usize>::empty() by {}
    assert(a.lists() =~= Seq::new(ORDER_COUNT as nat, |o: int| Seq::<usize>::empty()));
    a.init(heap_start, heap_size);
    proof {
        if heap_start == 0 {
            lemma_init_at_null(heap_size as int);
        } else if heap_start % 32 == 0 {
            lemma_init_lists(heap_start as int, heap_size as int);
        } else {
            lemma_init_unaligned(heap_start as int, heap_start + heap_size);
            assert(a.lists() =~= Seq::new(ORDER_COUNT as nat, |o: int| Seq::<usize>::empty()));
        }
    }
    a
}


// ── Invariants of a healthy heap ────────────────────────────────────────────

/// A block of order `o` at `a` is not the null address, lies inside the
/// heap and is aligned to its size.
pub open spec fn block_ok(start: int, size: int, o: int, a: usize) -> bool {
    &&& 0 < a
    &&& start <= a
    &&& a + bsz(o) <= start + size
    &&& low_bits(a, (o + MIN_ORDER) as usize) == 0
}

/// The blocks `(o1, a1)` and `(o2, a2)` do not overlap.
pub open spec fn apart(o1: int, a1: int, o2: int, a2: int) -> bool {
    a1 + bsz(o1) <= a2 || a2 + bsz(o2) <= a1
}

/// Every free block lies in the heap, is aligned, and no two overlap.
pub open spec fn lists_ok(l: Seq<Seq<usize>>, start: int, size: int) -> bool {
    &&& l.len() == ORDER_COUNT
    &&& forall|o: int, i: int|
        0 <= o < ORDER_COUNT && 0 <= i < l[o].len() ==> block_ok(start, size, o, #[trigger] l[o][i])
    &&& forall|o1: int, i1: int, o2: int, i2: int|
        0 <= o1 < ORDER_COUNT && 0 <= i1 < l[o1].len() && 0 <= o2 < ORDER_COUNT && 0 <= i2 < l[o2].len()
            && (o1 != o2 || i1 != i2)
            ==> apart(o1, #[trigger] l[o1][i1] as int, o2, #[trigger] l[o2][i2] as int)
}

/// The block `(o, a)` overlaps no free block.
pub open spec fn free_of(l: Seq<Seq<usize>>, o: int, a: int) -> bool {
    forall|o2: int, i2: int|
        0 <= o2 < ORDER_COUNT && 0 <= i2 < l[o2].len() ==> apart(o, a, o2, #[trigger] l[o2][i2] as int)
}

/// No free block below the top order has its buddy free beside it.
pub open spec fn coalesced(l: Seq<Seq<usize>>) -> bool {
    forall|o: int, i: int|
        0 <= o < ORDER_COUNT - 1 && 0 <= i < l[o].len()
            ==> !l[o].contains(#[trigger] l[o][i] ^ (bsz(o) as usize))
}

proof fn lemma_push_ok(l: Seq<Seq<usize>>, start: int, size: int, o: int, a: usize)
    requires
        lists_ok(l, start, size),
        0 <= o < ORDER_COUNT,
        block_ok(start, size, o, a),
        free_of(l, o, a as int),
    ensures
        lists_ok(l.update(o, l[o].push(a)), start, size),
{
    let n = l.update(o, l[o].push(a));
    assert forall|o1: int, i1: int|
        0 <= o1 < ORDER_COUNT && 0 <= i1 < n[o1].len() implies block_ok(start, size, o1, #[trigger] n[o1][i1]) by {
        if o1 == o && i1 == l[o].len() {
        } else {
            assert(n[o1][i1] == l[o1][i1]);
        }
    }
    assert forall|o1: int, i1: int, o2: int, i2: int|
        0 <= o1 < ORDER_COUNT && 0 <= i1 < n[o1].len() && 0 <= o2 < ORDER_COUNT && 0 <= i2 < n[o2].len()
            && (o1 != o2 || i1 != i2)
        implies apart(o1, #[trigger] n[o1][i1] as int, o2, #[trigger] n[o2][i2] as int) by {
        let new1 = o1 == o && i1 == l[o].len();
        let new2 = o2 == o && i2 == l[o].len();
        if new1 {
            assert(n[o2][i2] == l[o2][i2]);
            assert(apart(o, a as int, o2, l[o2][i2] as int));
        } else if new2 {
            assert(n[o1][i1] == l[o1][i1]);
            assert(apart(o, a as int, o1, l[o1][i1] as int));
        } else {
            assert(n[o1][i1] == l[o1][i1]);
            assert(n[o2][i2] == l[o2][i2]);
        }
    }
}

proof fn lemma_remove_ok(l: Seq<Seq<usize>>, start: int, size: int, o: int, j: int)
    requires
        lists_ok(l, start, size),
        0 <= o < ORDER_COUNT,
        0 <= j < l[o].len(),
    ensures
        lists_ok(l.update(o, l[o].remove(j)), start, size),
        forall|o2: int, a: int| free_of(l, o2, a) ==> free_of(l.update(o, l[o].remove(j)), o2, a),
{
    let n = l.update(o, l[o].remove(j));
    let idx = |o1: int, i1: int| if o1 == o && i1 >= j { i1 + 1 } else { i1 };
    assert forall|o1: int, i1: int|
        0 <= o1 < ORDER_COUNT && 0 <= i1 < n[o1].len() implies n[o1][i1] == l[o1][idx(o1, i1)]
            && 0 <= idx(o1, i1) < l[o1].len() by {
    }
    assert forall|o1: int, i1: int|
        0 <= o1 < ORDER_COUNT && 0 <= i1 < n[o1].len() implies block_ok(start, size, o1, #[trigger] n[o1][i1]) by {
        assert(n[o1][i1] == l[o1][idx(o1, i1)]);
    }
    assert forall|o1: int, i1: int, o2: int, i2: int|
        0 <= o1 < ORDER_COUNT && 0 <= i1 < n[o1].len() && 0 <= o2 < ORDER_COUNT && 0 <= i2 < n[o2].len()
            && (o1 != o2 || i1 != i2)
        implies apart(o1, #[trigger] n[o1][i1] as int, o2, #[trigger] n[o2][i2] as int) by {
        assert(n[o1][i1] == l[o1][idx(o1, i1)]);
        assert(n[o2][i2] == l[o2][idx(o2, i2)]);
    }
    assert forall|o2: int, a: int| free_of(l, o2, a) implies free_of(n, o2, a) by {
        assert forall|o3: int, i3: int| 0 <= o3 < ORDER_COUNT && 0 <= i3 < n[o3].len()
            implies apart(o2, a, o3, #[trigger] n[o3][i3] as int) by {
            assert(n[o3][i3] == l[o3][idx(o3, i3)]);
        }
    }
}


proof fn lemma_first_avail_skip(l: Seq<Seq<usize>>, k: int, c: int)
    requires
        k <= c < first_avail(l, k),
        c < ORDER_COUNT,
    ensures
        !(l[c].len() > 0 && l[c].last() != 0),
    decreases c - k,
{
    if c > k {
        lemma_first_avail_skip(l, k + 1, c);
    }
}

proof fn lemma_first_avail_range(l: Seq<Seq<usize>>, k: int)
    ensures
        k <= first_avail(l, k) || k > ORDER_COUNT,
        first_avail(l, k) <= ORDER_COUNT || k > ORDER_COUNT,
        first_avail(l, k) < ORDER_COUNT ==> l[first_avail(l, k)].len() > 0 && l[first_avail(l, k)].last() != 0,
    decreases ORDER_COUNT - k,
{
    if k < ORDER_COUNT && !(l[k].len() > 0 && l[k].last() != 0) {
        lemma_first_avail_range(l, k + 1);
    }
}

/// The lists while the block `r` of order `f` is being split down to `c`.
pub open spec fn split_lists(l1: Seq<Seq<usize>>, r: usize, c: int, f: int) -> Seq<Seq<usize>> {
    Seq::new(ORDER_COUNT as nat, |k: int| if c <= k < f { l1[k].push((r + bsz(k)) as usize) } else { l1[k] })
}

proof fn lemma_split_ok(l1: Seq<Seq<usize>>, start: int, size: int, r: usize, c: int, f: int)
    requires
        lists_ok(l1, start, size),
        0 <= c <= f < ORDER_COUNT,
        block_ok(start, size, f, r),
        free_of(l1, f, r as int),
    ensures
        lists_ok(split_lists(l1, r, c, f), start, size),
        free_of(split_lists(l1, r, c, f), c, r as int),
    decreases f - c,
{
    if c == f {
        assert(split_lists(l1, r, c, f) =~= l1);
    } else {
        lemma_split_ok(l1, start, size, r, c + 1, f);
        let prev = split_lists(l1, r, c + 1, f);
        let b = (r + bsz(c)) as usize;
        lemma_block_bytes(c as usize);
        lemma_block_bytes(f as usize);
        lemma_bsz_double(c);
        lemma_bsz_mono(c + 1, f);
        lemma_split_buddy(r, (c + MIN_ORDER) as usize, (f + MIN_ORDER) as usize);
        lemma_buddy_merge(r, (c + MIN_ORDER) as usize);
        assert(block_ok(start, size, c, b));
        assert forall|o2: int, i2: int| 0 <= o2 < ORDER_COUNT && 0 <= i2 < prev[o2].len()
            implies apart(c, b as int, o2, #[trigger] prev[o2][i2] as int) by {
            assert(apart(c + 1, r as int, o2, prev[o2][i2] as int));
        }
        lemma_push_ok(prev, start, size, c, b);
        let next = prev.update(c, prev[c].push(b));
        assert(split_lists(l1, r, c, f) =~= next);
        assert forall|o2: int, i2: int| 0 <= o2 < ORDER_COUNT && 0 <= i2 < next[o2].len()
            implies apart(c, r as int, o2, #[trigger] next[o2][i2] as int) by {
            if o2 == c && i2 == prev[c].len() {
            } else {
                assert(next[o2][i2] == prev[o2][i2]);
                assert(apart(c + 1, r as int, o2, prev[o2][i2] as int));
            }
        }
    }
}

/// Allocation on a healthy heap keeps it healthy and coalesced, and either returns null, when every
/// list of a sufficient order is empty, or a block of the requested order
/// that lies in the heap, is aligned to its size and overlaps no free block.
pub proof fn lemma_alloc_lists(l: Seq<Seq<usize>>, start: int, size: int, order: int, r: usize, n: Seq<Seq<usize>>)
    requires
        lists_ok(l, start, size),
        0 <= order,
        alloc_result(l, order, r, n),
    ensures
        lists_ok(n, start, size),
        r != 0 ==> order < ORDER_COUNT && block_ok(start, size, order, r) && free_of(n, order, r as int),
        r == 0 ==> forall|c: int| order <= c < ORDER_COUNT ==> #[trigger] l[c].len() == 0,
        coalesced(l) ==> coalesced(n),
{
    let f = first_avail(l, order);
    lemma_first_avail_range(l, order);
    assert forall|c: int| order <= c < ORDER_COUNT && c < f implies #[trigger] l[c].len() == 0 by {
        lemma_first_avail_skip(l, order, c);
        if l[c].len() > 0 {
            assert(block_ok(start, size, c, l[c][l[c].len() - 1]));
        }
    }
    if f >= ORDER_COUNT {
        assert(n =~= l);
    } else {
        let j = l[f].len() - 1;
        assert(block_ok(start, size, f, l[f][j]));
        lemma_remove_ok(l, start, size, f, j);
        let l1 = l.update(f, l[f].remove(j));
        assert(l[f].remove(j) =~= l[f].drop_last());
        assert forall|o2: int, i2: int| 0 <= o2 < ORDER_COUNT && 0 <= i2 < l1[o2].len()
            implies apart(f, r as int, o2, #[trigger] l1[o2][i2] as int) by {
            assert(l1[o2][i2] == l[o2][i2]);
        }
        lemma_split_ok(l1, start, size, r, order, f);
        assert forall|k: int| 0 <= k < ORDER_COUNT implies #[trigger] n[k] == split_lists(l1, r, order, f)[k] by {
            if order <= k < f {
                assert(l[k] =~= drop_head(l[k]));
            }
        }
        assert(n =~= split_lists(l1, r, order, f));
        lemma_block_bytes(order as usize);
        lemma_bsz_mono(order, f);
        assert(block_ok(start, size, order, r)) by {
            if order < f {
                lemma_split_buddy(r, (order + MIN_ORDER) as usize, (f + MIN_ORDER) as usize);
            }
        }
        if coalesced(l) {
            assert forall|o: int, i: int| 0 <= o < ORDER_COUNT - 1 && 0 <= i < n[o].len()
                implies !n[o].contains(#[trigger] n[o][i] ^ (bsz(o) as usize)) by {
                if order <= o < f {
                    let b = (r + bsz(o)) as usize;
                    lemma_block_bytes(o as usize);
                    lemma_split_buddy(r, (o + MIN_ORDER) as usize, (f + MIN_ORDER) as usize);
                    let k = (o + MIN_ORDER) as usize;
                    assert(b == r ^ (1usize << k));
                    assert((r ^ (1usize << k)) ^ (1usize << k) == r) by (bit_vector);
                    assert(n[o] =~= seq![b]);
                    lemma_bsz_double(o);
                } else if o == f {
                    assert(n[o][i] == l[o][i]);
                    if n[o].contains(n[o][i] ^ (bsz(o) as usize)) {
                        let w = choose|w: int| 0 <= w < n[o].len() && n[o][w] == n[o][i] ^ (bsz(o) as usize);
                        assert(l[o][w] == n[o][w]);
                        assert(l[o].contains(l[o][i] ^ (bsz(o) as usize)));
                    }
                } else {
                    assert(n[o] == l[o]);
                }
            }
        }
    }
}


proof fn lemma_remove_nearest_index(s: Seq<usize>, x: usize) -> (j: int)
    requires
        s.contains(x),
    ensures
        0 <= j < s.len(),
        s[j] == x,
        remove_nearest(s, x) == s.remove(j),
    decreases s.len(),
{
    if s.last() == x {
        assert(s.drop_last() =~= s.remove(s.len() - 1));
        s.len() - 1
    } else {
        let k = choose|k: int| 0 <= k < s.len() && s[k] == x;
        assert(s.drop_last()[k] == x);
        let j = lemma_remove_nearest_index(s.drop_last(), x);
        assert(s.drop_last().remove(j).push(s.last()) =~= s.remove(j));
        j
    }
}

proof fn lemma_remove_frees(l: Seq<Seq<usize>>, start: int, size: int, o: int, j: int)
    requires
        lists_ok(l, start, size),
        0 <= o < ORDER_COUNT,
        0 <= j < l[o].len(),
    ensures
        free_of(l.update(o, l[o].remove(j)), o, l[o][j] as int),
        coalesced(l) ==> coalesced(l.update(o, l[o].remove(j))),
{
    let n = l.update(o, l[o].remove(j));
    let idx = |o1: int, i1: int| if o1 == o && i1 >= j { i1 + 1 } else { i1 };
    assert forall|o3: int, i3: int| 0 <= o3 < ORDER_COUNT && 0 <= i3 < n[o3].len()
        implies apart(o, l[o][j] as int, o3, #[trigger] n[o3][i3] as int) by {
        assert(n[o3][i3] == l[o3][idx(o3, i3)]);
    }
    if coalesced(l) {
        assert forall|o1: int, i1: int| 0 <= o1 < ORDER_COUNT - 1 && 0 <= i1 < n[o1].len()
            implies !n[o1].contains(#[trigger] n[o1][i1] ^ (bsz(o1) as usize)) by {
            assert(n[o1][i1] == l[o1][idx(o1, i1)]);
            if n[o1].contains(n[o1][i1] ^ (bsz(o1) as usize)) {
                let w = choose|w: int| 0 <= w < n[o1].len() && n[o1][w] == n[o1][i1] ^ (bsz(o1) as usize);
                assert(n[o1][w] == l[o1][idx(o1, w)]);
                assert(l[o1].contains(l[o1][idx(o1, i1)] ^ (bsz(o1) as usize)));
            }
        }
    }
}

/// The final lists after freeing the block of order `cur` at `addr`.
pub open spec fn freed_lists(l: Seq<Seq<usize>>, addr: usize, cur: int) -> Seq<Seq<usize>> {
    let m = coalesce(l, addr, cur);
    m.0.update(m.2, push_node(m.0[m.2], m.1))
}

/// Freeing a block that lies in the heap, is aligned to its size and
/// overlaps no free block keeps a healthy heap healthy, and keeps a
/// coalesced heap coalesced.
pub proof fn lemma_dealloc_lists(l: Seq<Seq<usize>>, start: int, size: int, addr: usize, cur: int)
    requires
        lists_ok(l, start, size),
        0 <= cur < ORDER_COUNT,
        block_ok(start, size, cur, addr),
        free_of(l, cur, addr as int),
    ensures
        lists_ok(freed_lists(l, addr, cur), start, size),
        coalesced(l) ==> coalesced(freed_lists(l, addr, cur)),
    decreases ORDER_COUNT - cur,
{
    lemma_block_bytes(cur as usize);
    lemma_bsz_double(cur);
    let k = (cur + MIN_ORDER) as usize;
    let buddy = addr ^ (bsz(cur) as usize);
    if cur < ORDER_COUNT - 1 && l[cur].contains(buddy) {
        let j = lemma_remove_nearest_index(l[cur], buddy);
        lemma_remove_ok(l, start, size, cur, j);
        lemma_remove_frees(l, start, size, cur, j);
        let l2 = l.update(cur, remove_nearest(l[cur], buddy));
        assert(l2 == l.update(cur, l[cur].remove(j)));
        assert(block_ok(start, size, cur, l[cur][j]));
        lemma_xor_moves(addr, k);
        lemma_buddy_merge(addr, k);
        let m = if buddy < addr { buddy } else { addr };
        lemma_block_bytes((cur + 1) as usize);
        assert(block_ok(start, size, cur + 1, m));
        assert forall|o2: int, i2: int| 0 <= o2 < ORDER_COUNT && 0 <= i2 < l2[o2].len()
            implies apart(cur + 1, m as int, o2, #[trigger] l2[o2][i2] as int) by {
            lemma_bsz_double(o2);
            assert(apart(cur, addr as int, o2, l2[o2][i2] as int));
            assert(apart(cur, buddy as int, o2, l2[o2][i2] as int));
        }
        lemma_dealloc_lists(l2, start, size, m, cur + 1);
    } else {
        assert(coalesce(l, addr, cur) == (l, addr, cur));
        lemma_push_ok(l, start, size, cur, addr);
        if coalesced(l) {
            let n = l.update(cur, l[cur].push(addr));
            assert forall|o: int, i: int| 0 <= o < ORDER_COUNT - 1 && 0 <= i < n[o].len()
                implies !n[o].contains(#[trigger] n[o][i] ^ (bsz(o) as usize)) by {
                if o == cur {
                    lemma_block_bytes(o as usize);
                    let bs = bsz(o) as usize;
                    assert((addr ^ bs) != addr) by (bit_vector)
                        requires bs == 1usize << k, k < 26usize;
                    if n[o].contains(n[o][i] ^ bs) {
                        let w = choose|w: int| 0 <= w < n[o].len() && n[o][w] == n[o][i] ^ bs;
                        let e = n[o][i];
                        assert((e ^ bs) ^ bs == e) by (bit_vector);
                        assert((e ^ bs) != e) by (bit_vector)
                            requires bs == 1usize << k, k < 26usize;
                        if i == l[o].len() {
                            assert(l[o][w] == addr ^ bs);
                            assert(l[o].contains(buddy));
                        } else if w == l[o].len() {
                            assert(e == addr ^ bs);
                            assert(l[o][i] == buddy);
                            assert(l[o].contains(buddy));
                        } else {
                            assert(l[o][w] == l[o][i] ^ bs);
                            assert(l[o].contains(l[o][i] ^ bs));
                        }
                    }
                } else {
                    assert(n[o] == l[o]);
                }
            }
        }
    }
}

/// Allocated memory is never handed out twice: on a heap whose free blocks
/// are not null, lie in it, are aligned and pairwise disjoint, if no live
/// allocation `(order, address)` in `live`
/// overlaps a free block, then the block that `alloc` returns overlaps none
/// of them, and they still overlap no free block afterwards.
pub proof fn lemma_alloc_avoids_live(
    l: Seq<Seq<usize>>,
    start: int,
    size: int,
    order: int,
    r: usize,
    n: Seq<Seq<usize>>,
    live: Seq<(int, int)>,
)
    requires
        lists_ok(l, start, size),
        0 <= order,
        alloc_result(l, order, r, n),
        forall|j: int| 0 <= j < live.len() ==> 0 <= (#[trigger] live[j]).0 && free_of(l, live[j].0, live[j].1),
    ensures
        r != 0 ==> forall|j: int| 0 <= j < live.len() ==> apart(order, r as int, (#[trigger] live[j]).0, live[j].1),
        forall|j: int| 0 <= j < live.len() ==> free_of(n, (#[trigger] live[j]).0, live[j].1),
{
    let f = first_avail(l, order);
    lemma_first_avail_range(l, order);
    assert forall|c: int| order <= c < ORDER_COUNT && c < f implies #[trigger] l[c].len() == 0 by {
        lemma_first_avail_skip(l, order, c);
        if l[c].len() > 0 {
            assert(block_ok(start, size, c, l[c][l[c].len() - 1]));
        }
    }
    if f >= ORDER_COUNT {
        assert(n =~= l);
    } else {
        let top = l[f].len() - 1;
        assert(r == l[f][top]);
        lemma_bsz_mono(order, f);
        assert forall|j: int| 0 <= j < live.len() implies apart(order, r as int, (#[trigger] live[j]).0, live[j].1) by {
            assert(apart(live[j].0, live[j].1, f, l[f][top] as int));
        }
        assert forall|j: int| 0 <= j < live.len() implies free_of(n, (#[trigger] live[j]).0, live[j].1) by {
            let (lo, la) = live[j];
            assert(apart(lo, la, f, r as int));
            assert forall|o2: int, i2: int| 0 <= o2 < ORDER_COUNT && 0 <= i2 < n[o2].len()
                implies apart(lo, la, o2, #[trigger] n[o2][i2] as int) by {
                if order <= o2 < f {
                    assert(l[o2].len() == 0);
                    assert(n[o2] == drop_head(l[o2]).push((r + bsz(o2)) as usize));
                    assert(n[o2][i2] == (r + bsz(o2)) as usize);
                    lemma_bsz_double(o2);
                    lemma_bsz_mono(o2 + 1, f);
                    lemma_block_bytes(o2 as usize);
                    assert(block_ok(start, size, f, r));
                    lemma_split_buddy(r, (o2 + MIN_ORDER) as usize, (f + MIN_ORDER) as usize);
                } else if o2 == f {
                    assert(n[o2][i2] == l[o2][i2]);
                } else {
                    assert(n[o2][i2] == l[o2][i2]);
                }
            }
        }
    }
}

/// Freeing one allocation leaves every other live allocation clear of the
/// free blocks: if `(lo, la)` overlaps neither a free block nor the block
/// being freed, it overlaps no free block after the free (with any merging
/// of buddies).
pub proof fn lemma_dealloc_keeps_live(
    l: Seq<Seq<usize>>,
    start: int,
    size: int,
    addr: usize,
    cur: int,
    lo: int,
    la: int,
)
    requires
        lists_ok(l, start, size),
        0 <= cur < ORDER_COUNT,
        block_ok(start, size, cur, addr),
        free_of(l, cur, addr as int),
        0 <= lo,
        free_of(l, lo, la),
        apart(cur, addr as int, lo, la),
    ensures
        free_of(freed_lists(l, addr, cur), lo, la),
    decreases ORDER_COUNT - cur,
{
    lemma_block_bytes(cur as usize);
    lemma_bsz_double(cur);
    lemma_bsz_double(lo);
    let k = (cur + MIN_ORDER) as usize;
    let buddy = addr ^ (bsz(cur) as usize);
    if cur < ORDER_COUNT - 1 && l[cur].contains(buddy) {
        let j = lemma_remove_nearest_index(l[cur], buddy);
        lemma_remove_ok(l, start, size, cur, j);
        lemma_remove_frees(l, start, size, cur, j);
        let l2 = l.update(cur, remove_nearest(l[cur], buddy));
        assert(l2 == l.update(cur, l[cur].remove(j)));
        assert(block_ok(start, size, cur, l[cur][j]));
        lemma_xor_moves(addr, k);
        lemma_buddy_merge(addr, k);
        let m = if buddy < addr { buddy } else { addr };
        lemma_block_bytes((cur + 1) as usize);
        assert(block_ok(start, size, cur + 1, m));
        assert forall|o2: int, i2: int| 0 <= o2 < ORDER_COUNT && 0 <= i2 < l2[o2].len()
            implies apart(cur + 1, m as int, o2, #[trigger] l2[o2][i2] as int) by {
            lemma_bsz_double(o2);
            assert(apart(cur, addr as int, o2, l2[o2][i2] as int));
            assert(apart(cur, buddy as int, o2, l2[o2][i2] as int));
        }
        let idx = |o1: int, i1: int| if o1 == cur && i1 >= j { i1 + 1 } else { i1 };
        assert forall|o2: int, i2: int| 0 <= o2 < ORDER_COUNT && 0 <= i2 < l2[o2].len()
            implies apart(lo, la, o2, #[trigger] l2[o2][i2] as int) by {
            assert(l2[o2][i2] == l[o2][idx(o2, i2)]);
        }
        assert(apart(lo, la, cur, l[cur][j] as int));
        assert(apart(cur + 1, m as int, lo, la));
        lemma_dealloc_keeps_live(l2, start, size, m, cur + 1, lo, la);
    } else {
        assert(coalesce(l, addr, cur) == (l, addr, cur));
        let n = l.update(cur, l[cur].push(addr));
        assert(freed_lists(l, addr, cur) == n);
        assert forall|o2: int, i2: int| 0 <= o2 < ORDER_COUNT && 0 <= i2 < n[o2].len()
            implies apart(lo, la, o2, #[trigger] n[o2][i2] as int) by {
            if !(o2 == cur && i2 == l[cur].len()) {
                assert(n[o2][i2] == l[o2][i2]);
            }
        }
    }
}

/// Freeing, with the same request, a block that was just allocated from a
/// healthy, coalesced heap restores the free lists exactly.
pub proof fn lemma_alloc_dealloc_lists(l: Seq<Seq<usize>>, start: int, size: int, order: int, r: usize, n: Seq<Seq<usize>>)
    requires
        lists_ok(l, start, size),
        coalesced(l),
        0 <= order,
        alloc_result(l, order, r, n),
        r != 0,
    ensures
        freed_lists(n, r, order) == l,
{
    let f = first_avail(l, order);
    lemma_first_avail_range(l, order);
    assert forall|c: int| order <= c < ORDER_COUNT && c < f implies #[trigger] l[c].len() == 0 by {
        lemma_first_avail_skip(l, order, c);
        if l[c].len() > 0 {
            assert(block_ok(start, size, c, l[c][l[c].len() - 1]));
        }
    }
    let l1 = l.update(f, l[f].drop_last());
    assert(n =~= split_lists(l1, r, order, f)) by {
        assert forall|k: int| 0 <= k < ORDER_COUNT implies #[trigger] n[k] == split_lists(l1, r, order, f)[k] by {
            if order <= k < f {
                assert(l[k] =~= drop_head(l[k]));
            }
        }
    }
    assert(block_ok(start, size, f, r)) by {
        assert(r == l[f][l[f].len() - 1]);
    }
    lemma_roundtrip_step(l1, r, order, f);
    // at the top order the block's buddy is not free
    let bs = bsz(f) as usize;
    if f < ORDER_COUNT - 1 {
        assert(!l[f].contains(l[f][l[f].len() - 1] ^ bs));
        if l1[f].contains(r ^ bs) {
            let w = choose|w: int| 0 <= w < l1[f].len() && l1[f][w] == r ^ bs;
            assert(l[f][w] == r ^ bs);
        }
    }
    assert(coalesce(l1, r, f) == (l1, r, f));
    assert(l1[f].push(r) =~= l[f]);
    assert(l1.update(f, l1[f].push(r)) =~= l);
}

proof fn lemma_roundtrip_step(l1: Seq<Seq<usize>>, r: usize, c: int, f: int)
    requires
        0 <= c <= f < ORDER_COUNT,
        l1.len() == ORDER_COUNT,
        forall|k: int| c <= k < f ==> #[trigger] l1[k].len() == 0,
        low_bits(r, (f + MIN_ORDER) as usize) == 0,
    ensures
        coalesce(split_lists(l1, r, c, f), r, c) == coalesce(l1, r, f),
    decreases f - c,
{
    if c == f {
        assert(split_lists(l1, r, c, f) =~= l1);
    } else {
        let cur = split_lists(l1, r, c, f);
        lemma_block_bytes(c as usize);
        let k = (c + MIN_ORDER) as usize;
        lemma_split_buddy(r, k, (f + MIN_ORDER) as usize);
        let b = (r + bsz(c)) as usize;
        assert(cur[c] =~= seq![b]);
        assert(cur[c][0] == b);
        assert(r ^ (bsz(c) as usize) == b);
        assert(remove_nearest(cur[c], b) =~= Seq::<usize>::empty());
        assert(l1[c] =~= Seq::<usize>::empty());
        assert forall|k: int| 0 <= k < ORDER_COUNT implies #[trigger] cur.update(c, remove_nearest(cur[c], b))[k]
            == split_lists(l1, r, c + 1, f)[k] by {
        }
        assert(cur.update(c, remove_nearest(cur[c], b)) =~= split_lists(l1, r, c + 1, f));
        assert(!(b < r));
        lemma_roundtrip_step(l1, r, c + 1, f);
    }
}


proof fn lemma_push_blocks_concat(l: Seq<Seq<usize>>, a: Seq<(int, int)>, b: Seq<(int, int)>)
    ensures
        push_blocks(l, a + b) == push_blocks(push_blocks(l, a), b),
    decreases b.len(),
{
    if b.len() == 0 {
        assert(a + b =~= a);
    } else {
        assert((a + b).drop_last() =~= a + b.drop_last());
        assert((a + b).last() == b.last());
        lemma_push_blocks_concat(l, a, b.drop_last());
    }
}

proof fn lemma_chosen_ge(addr: int, remaining: int, top: int, k: int)
    requires
        0 <= k <= top,
        fits(k, addr, remaining),
    ensures
        chosen_from(addr, remaining, top) >= k,
    decreases top,
{
    if top > 0 && !fits(top, addr, remaining) {
        lemma_chosen_ge(addr, remaining, top - 1, k);
    }
}

/// Every free block was chosen, at its address, as the largest piece that fits before `end`.
pub open spec fn greedy_blocks(l: Seq<Seq<usize>>, end: int) -> bool {
    forall|o: int, i: int| 0 <= o < ORDER_COUNT && 0 <= i < l[o].len()
        ==> chosen_order(#[trigger] l[o][i] as int, end - l[o][i]) == o
}

/// Every address in `[lo, hi)` lies in some free block.
pub open spec fn covers(l: Seq<Seq<usize>>, lo: int, hi: int) -> bool {
    forall|p: int| lo <= p < hi ==> #[trigger] covered(l, p)
}

/// The address `p` lies in some free block.
pub open spec fn covered(l: Seq<Seq<usize>>, p: int) -> bool {
    exists|o: int, i: int| 0 <= o < ORDER_COUNT && 0 <= i < l[o].len() && #[trigger] l[o][i] <= p < l[o][i] + bsz(o)
}

proof fn lemma_low_buddy(x: usize, k: usize)
    requires
        k < 25,
        low_bits(x, k) == 0,
    ensures
        ((x ^ (1usize << k)) == x + (1usize << k) && low_bits(x, (k + 1) as usize) == 0)
            || ((x ^ (1usize << k)) + (1usize << k) == x && low_bits(x ^ (1usize << k), (k + 1) as usize) == 0),
{
    assert(((x ^ (1usize << k)) == x + (1usize << k) && x & (((1usize << ((k + 1) as usize)) - 1usize) as usize) == 0)
        || ((x ^ (1usize << k)) + (1usize << k) == x
            && (x ^ (1usize << k)) & (((1usize << ((k + 1) as usize)) - 1usize) as usize) == 0)) by (bit_vector)
        requires
            k < 25usize,
            x & (((1usize << k) - 1usize) as usize) == 0;
}

proof fn lemma_greedy_coalesced(l: Seq<Seq<usize>>, start: int, end: int)
    requires
        lists_ok(l, start, end - start),
        greedy_blocks(l, end),
    ensures
        coalesced(l),
{
    assert forall|o: int, i: int| 0 <= o < ORDER_COUNT - 1 && 0 <= i < l[o].len()
        implies !l[o].contains(#[trigger] l[o][i] ^ (bsz(o) as usize)) by {
        let e = l[o][i];
        let bs = bsz(o) as usize;
        if l[o].contains(e ^ bs) {
            let w = choose|w: int| 0 <= w < l[o].len() && l[o][w] == e ^ bs;
            let k = (o + MIN_ORDER) as usize;
            lemma_block_bytes(o as usize);
            lemma_block_bytes((o + 1) as usize);
            lemma_bsz_double(o);
            assert(block_ok(start, end - start, o, e));
            assert(block_ok(start, end - start, o, l[o][w]));
            lemma_low_buddy(e, k);
            let m = if (e ^ bs) == e + bs { e } else { e ^ bs };
            assert(fits(o + 1, m as int, end - m));
            lemma_chosen_ge(m as int, end - m, ORDER_COUNT - 1, o + 1);
            if m == e {
                assert(chosen_order(l[o][i] as int, end - l[o][i]) == o);
            } else {
                assert(chosen_order(l[o][w] as int, end - l[o][w]) == o);
            }
        }
    }
}

proof fn lemma_init_blocks(l: Seq<Seq<usize>>, start: int, end: int, addr: int)
    requires
        0 < start <= addr <= end <= usize::MAX,
        start % 32 == 0,
        addr % 32 == 0,
        lists_ok(l, start, end - start),
        greedy_blocks(l, end),
        covers(l, start, addr),
        forall|o: int, i: int| 0 <= o < ORDER_COUNT && 0 <= i < l[o].len() ==> #[trigger] l[o][i] + bsz(o) <= addr,
    ensures
        lists_ok(push_blocks(l, decomp(addr, end)), start, end - start),
        greedy_blocks(push_blocks(l, decomp(addr, end)), end),
        covers(push_blocks(l, decomp(addr, end)), start, end - (end - start) % 32),
    decreases end - addr,
{
    if addr >= end {
        assert(decomp(addr, end) =~= Seq::<(int, int)>::empty());
        assert forall|p: int| start <= p < end - (end - start) % 32 implies #[trigger] covered(l, p) by {
            assert(covered(l, p));
        }
    } else if end - addr < 32 {
        let o = chosen_order(addr, end - addr);
        lemma_chosen_fits(addr, end - addr, ORDER_COUNT - 1);
        lemma_block_bytes(0);
        lemma_bsz_units(0);
        lemma_bsz_units(o);
        lemma2_to64();
        if o > 0 {
            vstd::arithmetic::power2::lemma_pow2_strictly_increases(0, o as nat);
        }
        assert(!fits(o, addr, end - addr));
        assert(decomp(addr, end) =~= Seq::<(int, int)>::empty());
        vstd::arithmetic::div_mod::lemma_fundamental_div_mod_converse(end - start, 32, (addr - start) / 32, end - addr);
        assert forall|p: int| start <= p < end - (end - start) % 32 implies #[trigger] covered(l, p) by {
            assert(covered(l, p));
        }
    } else {
        let o = chosen_order(addr, end - addr);
        lemma_chosen_fits(addr, end - addr, ORDER_COUNT - 1);
        lemma_block_bytes(0);
        lemma_bsz_units(0);
        lemma2_to64();
        let a = addr as usize;
        assert(a as int == addr);
        assert(a % 32 == 0);
        assert(low_bits(a, 5) == 0) by {
            assert(a % 32 == 0 ==> a & (((1usize << 5usize) - 1usize) as usize) == 0) by (bit_vector);
        }
        assert(fits(0, addr, end - addr));
        assert(fits(o, addr, end - addr));
        assert(decomp(addr, end) == seq![(o, addr)] + decomp(addr + bsz(o), end));
        lemma_block_bytes(o as usize);
        lemma_bsz_units(o);
        assert(block_ok(start, end - start, o, a));
        assert forall|o2: int, i2: int| 0 <= o2 < ORDER_COUNT && 0 <= i2 < l[o2].len()
            implies apart(o, a as int, o2, #[trigger] l[o2][i2] as int) by {
        }
        lemma_push_ok(l, start, end - start, o, a);
        let l2 = l.update(o, l[o].push(a));
        assert(push_node(l[o], a) == l[o].push(a));
        let next = addr + bsz(o);
        assert(decomp(addr, end) == seq![(o, addr)] + decomp(next, end));
        lemma_push_blocks_concat(l, seq![(o, addr)], decomp(next, end));
        assert(seq![(o, addr)].drop_last() =~= Seq::<(int, int)>::empty());
        assert(push_blocks(l, seq![(o, addr)].drop_last()) == l);
        assert(push_blocks(l, seq![(o, addr)]) == l2);
        assert forall|o2: int, i2: int| 0 <= o2 < ORDER_COUNT && 0 <= i2 < l2[o2].len()
            implies chosen_order(#[trigger] l2[o2][i2] as int, end - l2[o2][i2]) == o2 by {
            if !(o2 == o && i2 == l[o].len()) {
                assert(l2[o2][i2] == l[o2][i2]);
            }
        }
        assert forall|p: int| start <= p < next implies #[trigger] covered(l2, p) by {
            if p < addr {
                assert(covered(l, p));
                let (o3, i3) = choose|o3: int, i3: int|
                    0 <= o3 < ORDER_COUNT && 0 <= i3 < l[o3].len() && #[trigger] l[o3][i3] <= p < l[o3][i3] + bsz(o3);
                assert(l2[o3][i3] == l[o3][i3]);
            } else {
                assert(l2[o][l[o].len() as int] == a);
            }
        }
        assert forall|o2: int, i2: int| 0 <= o2 < ORDER_COUNT && 0 <= i2 < l2[o2].len()
            implies #[trigger] l2[o2][i2] + bsz(o2) <= next by {
            if !(o2 == o && i2 == l[o].len()) {
                assert(l2[o2][i2] == l[o2][i2]);
            }
        }
        lemma_init_blocks(l2, start, end, next);
    }
}

/// Initialising an empty allocator with a heap whose start is a non-null
/// multiple of 32 yields a healthy, coalesced heap: its free blocks lie in
/// the heap, are aligned to their size and pairwise disjoint, and cover
/// every byte of the heap but a tail shorter than the smallest block.
pub proof fn lemma_init_lists(start: int, size: int)
    requires
        0 < start,
        0 <= size,
        start + size <= usize::MAX,
        start % 32 == 0,
    ensures
        ({
            let l = push_blocks(Seq::new(ORDER_COUNT as nat, |o: int| Seq::<usize>::empty()), decomp(start, start + size));
            &&& lists_ok(l, start, size)
            &&& coalesced(l)
            &&& covers(l, start, start + size - size % 32)
        }),
{
    let e = Seq::new(ORDER_COUNT as nat, |o: int| Seq::<usize>::empty());
    lemma_init_blocks(e, start, start + size, start);
    let l = push_blocks(e, decomp(start, start + size));
    lemma_greedy_coalesced(l, start, start + size);
}

/// A heap whose start is not a multiple of 32 has no aligned block at its
/// start, so splitting it yields no block at all.
pub proof fn lemma_init_unaligned(start: int, end: int)
    requires
        0 <= start <= usize::MAX,
        start % 32 != 0,
    ensures
        decomp(start, end) == Seq::<(int, int)>::empty(),
{
    if start < end {
        let o = chosen_order(start, end - start);
        lemma_chosen_fits(start, end - start, ORDER_COUNT - 1);
        if 0 <= o && fits(o, start, end - start) {
            let a = start as usize;
            let k = (o + MIN_ORDER) as usize;
            assert(5 <= k);
            assert(low_bits(a, k) == 0);
            assert(a & (((1usize << k) - 1usize) as usize) == 0 && 5 <= k && k < 64 ==> a % 32 == 0) by (bit_vector);
        }
    }
}

/// Initialising an empty allocator with a heap at the null address loses
/// the first block (pushing address 0 leaves its list empty); the blocks
/// after it are those of the heap that starts where the first one ends, so
/// the heap is still healthy and coalesced.
pub proof fn lemma_init_at_null(size: int)
    requires
        0 <= size <= usize::MAX,
    ensures
        ({
            let l = push_blocks(Seq::new(ORDER_COUNT as nat, |o: int| Seq::<usize>::empty()), decomp(0, size));
            &&& lists_ok(l, 0, size)
            &&& coalesced(l)
            &&& size >= 32 ==> {
                let b = bsz(chosen_order(0, size));
                &&& decomp(0, size) == seq![(chosen_order(0, size), 0int)] + decomp(b, size)
                &&& covers(l, b, size - size % 32)
            }
        }),
{
    let e = Seq::new(ORDER_COUNT as nat, |o: int| Seq::<usize>::empty());
    let l = push_blocks(e, decomp(0, size));
    if size >= 32 {
        let o = chosen_order(0, size);
        lemma_chosen_fits(0, size, ORDER_COUNT - 1);
        lemma_block_bytes(0);
        lemma_bsz_units(0);
        lemma2_to64();
        assert(low_bits(0usize, 5) == 0) by (bit_vector);
        assert(fits(0, 0, size));
        assert(fits(o, 0, size));
        lemma_block_bytes(o as usize);
        lemma_bsz_units(o);
        let b = bsz(o);
        assert(b % 32 == 0) by (nonlinear_arith)
            requires b == 32 * pow2(o as nat);
        assert(decomp(0, size) == seq![(o, 0int)] + decomp(b, size));
        lemma_push_blocks_concat(e, seq![(o, 0int)], decomp(b, size));
        assert(seq![(o, 0int)].drop_last() =~= Seq::<(int, int)>::empty());
        assert(push_blocks(e, Seq::<(int, int)>::empty()) == e);
        assert(push_node(e[o], 0usize) =~= Seq::<usize>::empty());
        assert(push_blocks(e, seq![(o, 0int)]) == e.update(o, push_node(e[o], 0usize)));
        assert(e.update(o, Seq::<usize>::empty()) =~= e);
        assert(l == push_blocks(e, decomp(b, size)));
        lemma_init_lists(b, size - b);
        assert((size - b) % 32 == size % 32) by (nonlinear_arith)
            requires b % 32 == 0, 0 < b <= size;
    } else {
        lemma_chosen_fits(0, size, ORDER_COUNT - 1);
        let o = chosen_order(0, size);
        lemma_block_bytes(0);
        lemma_bsz_units(0);
        lemma_bsz_units(o);
        lemma2_to64();
        if o > 0 {
            vstd::arithmetic::power2::lemma_pow2_strictly_increases(0, o as nat);
        }
        if size > 0 {
            assert(!fits(o, 0, size));
        }
        assert(decomp(0, size) =~= Seq::<(int, int)>::empty());
        assert(l =~= e);
    }
}

/// `a` is a power of two (as a `Layout`'s alignment is).
pub open spec fn is_pow2(a: int) -> bool {
    exists|k: nat| a == pow2(k)
}

/// The block size that `order_from` picks holds the size asked for.
pub proof fn lemma_order_from_covers(size: int, o: int)
    requires
        0 <= o,
        size <= 0x1_0000_0000_0000_0000,
    ensures
        order_from(size, o) >= o,
        bsz(order_from(size, o)) >= size,
    decreases 64 - o,
{
    if o >= 64 {
        lemma2_to64();
        vstd::arithmetic::power2::lemma2_to64_rest();
        lemma_pow2_strictly_increases(64, (o + MIN_ORDER) as nat);
    } else if bsz(o) < size {
        lemma_order_from_covers(size, o + 1);
    }
}

/// An address whose low `j` bits are clear is a multiple of every power of
/// two up to `2^j`.
pub proof fn lemma_aligned_to_pow2(r: usize, j: nat, a: int)
    requires
        j < 32,
        low_bits(r, j as usize) == 0,
        is_pow2(a),
        a <= pow2(j),
    ensures
        r as int % a == 0,
{
    let k = choose|k: nat| a == pow2(k);
    if k > j {
        lemma_pow2_strictly_increases(j, k);
    }
    lemma_usize_pow2_no_overflow(j);
    lemma_usize_shl_is_mul(1, j as usize);
    vstd::arithmetic::power2::lemma_pow2_pos(j);
    vstd::arithmetic::power2::lemma_pow2_pos(k);
    vstd::bits::lemma_usize_low_bits_mask_is_mod(r, j);
    assert((1usize << (j as usize)) as int == pow2(j));
    assert(r as int % (pow2(j) as int) == 0);
    vstd::arithmetic::power2::lemma_pow2_adds(k, (j - k) as nat);
    assert(pow2(j) == a * pow2((j - k) as nat));
    vstd::arithmetic::div_mod::lemma_fundamental_div_mod(r as int, pow2(j) as int);
    let q = r as int / pow2(j) as int;
    assert(r as int == (q * pow2((j - k) as nat)) * a) by (nonlinear_arith)
        requires r as int == pow2(j) * q + 0, pow2(j) == a * pow2((j - k) as nat);
    vstd::arithmetic::div_mod::lemma_mod_multiples_basic(q * pow2((j - k) as nat), a);
}

/// What an allocation request gets: for any `size` and power-of-two
/// `align`, a block returned for the request is a multiple of `align`, and
/// its order's block holds at least `size` bytes, at least `align` bytes
/// and at least the 32-byte minimum.
pub proof fn lemma_alloc_aligned(start: int, heap_size: int, size: usize, align: usize, r: usize)
    requires
        is_pow2(align as int),
        request_bytes(size as int, align as int) <= usize::MAX as int / 2 + 1,
        block_ok(start, heap_size, order_from(request_bytes(size as int, align as int), 0), r),
        order_from(request_bytes(size as int, align as int), 0) < ORDER_COUNT,
    ensures
        r as int % align as int == 0,
        bsz(order_from(request_bytes(size as int, align as int), 0)) >= size,
        bsz(order_from(request_bytes(size as int, align as int), 0)) >= align,
        bsz(order_from(request_bytes(size as int, align as int), 0)) >= 32,
        r + size <= start + heap_size,
{
    let o = order_from(request_bytes(size as int, align as int), 0);
    lemma_order_from_covers(request_bytes(size as int, align as int), 0);
    lemma_aligned_to_pow2(r, (o + MIN_ORDER) as nat, align as int);
}

} // verus!
