//! A size-class ("bin") heap allocator over a fixed `[start, end)` window.
use vstd::prelude::*;

verus! {

/// The smallest block handed out by the allocator.
pub const FIRST_BIN_SIZE: usize = 8;

/// The number of size classes.
pub const BIN_COUNT: usize = 64;

/// `n` is a power of two.
pub open spec fn is_pow2(n: nat) -> bool
    decreases n,
{
    if n == 0 {
        false
    } else if n == 1 {
        true
    } else {
        n % 2 == 0 && is_pow2(n / 2)
    }
}

/// The largest power of two that is at most `n`, for `n >= 1`.
pub open spec fn floor_pow2(n: nat) -> nat
    decreases n,
{
    if n <= 1 {
        1
    } else {
        2 * floor_pow2(n / 2)
    }
}

/// The size of the blocks of size class `k`: `8 * 2^k`.
pub open spec fn block_size(k: nat) -> nat
    decreases k,
{
    if k == 0 {
        8
    } else {
        2 * block_size((k - 1) as nat)
    }
}

/// The size class that serves a request of `size` bytes: the smallest `k`
/// with `block_size(k) >= size`.
pub open spec fn bin_of(size: nat) -> nat
    decreases size,
{
    if size <= 8 {
        0
    } else {
        1 + bin_of(((size + 1) / 2) as nat)
    }
}

/// The block size that serves a request of `size` bytes.
pub open spec fn spec_bin_size(size: nat) -> nat {
    block_size(bin_of(size))
}

/// `addr` rounded up to a multiple of `align`.
pub open spec fn spec_align_up(addr: nat, align: nat) -> nat
    recommends
        align > 0,
{
    ((addr + align - 1) as nat / align) * align
}

/// `addr` rounded down to a multiple of `align`.
pub open spec fn spec_align_down(addr: nat, align: nat) -> nat
    recommends
        align > 0,
{
    (addr / align) * align
}

pub proof fn lemma_block_size_pos(k: nat)
    ensures
        block_size(k) >= 8,
    decreases k,
{
    if k > 0 {
        lemma_block_size_pos((k - 1) as nat);
    }
}

pub proof fn lemma_block_size_mono(i: nat, j: nat)
    requires
        i <= j,
    ensures
        block_size(i) <= block_size(j),
    decreases j - i,
{
    if i < j {
        lemma_block_size_mono(i, (j - 1) as nat);
        lemma_block_size_pos((j - 1) as nat);
    }
}

/// `bin_of(size)` is the smallest class whose blocks hold `size` bytes.
pub proof fn lemma_bin_of_fits(size: nat)
    ensures
        block_size(bin_of(size)) >= size,
        bin_of(size) == 0 || block_size((bin_of(size) - 1) as nat) < size,
    decreases size,
{
    if size > 8 {
        let t = ((size + 1) / 2) as nat;
        lemma_bin_of_fits(t);
        if bin_of(t) > 0 {
            assert(block_size(bin_of(t)) == 2 * block_size((bin_of(t) - 1) as nat));
        }
    }
}

/// The class that fits is unique.
pub proof fn lemma_bin_unique(size: nat, k: nat)
    requires
        block_size(k) >= size,
        k == 0 || block_size((k - 1) as nat) < size,
    ensures
        k == bin_of(size),
{
    lemma_bin_of_fits(size);
    let b = bin_of(size);
    if k < b {
        lemma_block_size_mono(k, (b - 1) as nat);
    } else if k > b {
        lemma_block_size_mono(b, (k - 1) as nat);
    }
}

/// Classes past 60 have blocks larger than any 64-bit address space.
pub proof fn lemma_block_size_limit(k: nat)
    requires
        block_size(k) < 0x1_0000_0000_0000_0000,
    ensures
        k <= 60,
{
    if k > 60 {
        lemma_block_size_pow2(61);
        vstd::arithmetic::power2::lemma2_to64_rest();
        lemma_block_size_mono(61, k);
    }
}

proof fn lemma_block_size_pow2(k: nat)
    ensures
        block_size(k) == 8 * vstd::arithmetic::power2::pow2(k),
    decreases k,
{
    if k > 0 {
        vstd::arithmetic::power2::lemma_pow2_unfold(k);
        lemma_block_size_pow2((k - 1) as nat);
    } else {
        vstd::arithmetic::power2::lemma2_to64();
    }
}

/// Returns `true` if and only if `n` is a power of two.
pub fn is_power_of_two(n: usize) -> (r: bool)
    ensures
        r == is_pow2(n as nat),
{
    if n == 0 {
        return false;
    }
    let mut m: usize = n;
    while m > 1 && m % 2 == 0
        invariant
            m >= 1,
            is_pow2(m as nat) == is_pow2(n as nat),
        decreases m,
    {
        m = m / 2;
    }
    m == 1
}

/// Returns the largest power of two at most `num`, or 0 when `num < 2`.
pub fn previous_power_of_two(num: usize) -> (r: usize)
    ensures
        num < 2 ==> r == 0,
        num >= 2 ==> r as nat == floor_pow2(num as nat),
{
    if num < 2 {
        return 0;
    }
    let mut p: usize = 1;
    let mut rest: usize = num;
    while rest > 1
        invariant
            1 <= rest <= num,
            p >= 1,
            p * rest <= num,
            p * floor_pow2(rest as nat) == floor_pow2(num as nat),
        decreases rest,
    {
        let half = rest / 2;
        assert(floor_pow2(rest as nat) == 2 * floor_pow2(half as nat));
        assert(p * 2 * half <= p * rest) by (nonlinear_arith)
            requires
                half * 2 <= rest,
                p >= 1,
        ;
        assert(p * floor_pow2(rest as nat) == (p * 2) * floor_pow2(half as nat)) by (nonlinear_arith)
            requires
                floor_pow2(rest as nat) == 2 * floor_pow2(half as nat),
        ;
        assert(p * 2 <= p * 2 * half) by (nonlinear_arith)
            requires
                half >= 1,
                p >= 1,
        ;
        p = p * 2;
        rest = half;
    }
    p
}

/// Returns the size of the block that serves a request of `size` bytes:
/// `max(8, size.next_power_of_two())`.
pub fn bin_size(size: usize) -> (r: usize)
    requires
        size <= usize::MAX / 2 + 1,
    ensures
        r as nat == spec_bin_size(size as nat),
{
    let (_, block) = size_class(size);
    block
}

/// Returns the size class (bin number) that serves a request of `size`
/// bytes: 0 for `size <= 8`, else `log2(size.next_power_of_two()) - 3`.
pub fn size_to_bin_number(size: usize) -> (r: usize)
    requires
        size <= usize::MAX / 2 + 1,
    ensures
        r as nat == bin_of(size as nat),
        r <= 60,
{
    let (k, _) = size_class(size);
    k
}

fn size_class(size: usize) -> (r: (usize, usize))
    requires
        size <= usize::MAX / 2 + 1,
    ensures
        r.0 as nat == bin_of(size as nat),
        r.1 as nat == block_size(r.0 as nat),
        r.0 <= 60,
{
    let mut k: usize = 0;
    let mut block: usize = FIRST_BIN_SIZE;
    while block < size
        invariant
            size <= usize::MAX / 2 + 1,
            block as nat == block_size(k as nat),
            block >= 8,
            k <= 60,
            k == 0 || block_size((k - 1) as nat) < size,
        decreases usize::MAX - block,
    {
        block = block * 2;
        k = k + 1;
        proof {
            lemma_block_size_limit(k as nat);
        }
    }
    proof {
        lemma_bin_unique(size as nat, k as nat);
    }
    (k, block)
}

/// Returns `true` if `addr` is a multiple of `align`.
pub fn has_alignment(addr: usize, align: usize) -> (r: bool)
    requires
        align > 0,
    ensures
        r == (addr % align == 0),
{
    addr % align == 0
}

/// Aligns `addr` downwards to the nearest multiple of `align`.
pub fn align_down(addr: usize, align: usize) -> (r: usize)
    requires
        is_pow2(align as nat),
    ensures
        r as nat == spec_align_down(addr as nat, align as nat),
        r <= addr,
        r % align == 0,
{
    proof {
        vstd::arithmetic::div_mod::lemma_fundamental_div_mod(addr as int, align as int);
        vstd::arithmetic::div_mod::lemma_mod_multiples_basic((addr / align) as int, align as int);
        vstd::arithmetic::mul::lemma_mul_is_commutative((addr / align) as int, align as int);
    }
    addr / align * align
}

/// Aligns `addr` upwards to the nearest multiple of `align`.
pub fn align_up(addr: usize, align: usize) -> (r: usize)
    requires
        is_pow2(align as nat),
        addr + align - 1 <= usize::MAX,
    ensures
        r as nat == spec_align_up(addr as nat, align as nat),
        r >= addr,
        r % align == 0,
{
    let x: usize = addr + (align - 1);
    proof {
        vstd::arithmetic::div_mod::lemma_fundamental_div_mod(x as int, align as int);
        vstd::arithmetic::div_mod::lemma_mod_multiples_basic((x / align) as int, align as int);
    }
    x / align * align
}

/// `floor_pow2(n)` is a power of two that is at most `n`.
proof fn lemma_floor_pow2(n: nat) -> (e: nat)
    requires
        n >= 1,
    ensures
        floor_pow2(n) == vstd::arithmetic::power2::pow2(e),
        floor_pow2(n) <= n,
    decreases n,
{
    if n <= 1 {
        vstd::arithmetic::power2::lemma2_to64();
        0
    } else {
        let e = lemma_floor_pow2(n / 2);
        vstd::arithmetic::power2::lemma_pow2_unfold(e + 1);
        e + 1
    }
}

/// A power of two that fits in a `usize` is at most half the address space.
proof fn lemma_pow2_fits(e: nat)
    requires
        vstd::arithmetic::power2::pow2(e) <= usize::MAX,
    ensures
        vstd::arithmetic::power2::pow2(e) <= usize::MAX / 2 + 1,
{
    vstd::arithmetic::power2::lemma2_to64();
    vstd::arithmetic::power2::lemma2_to64_rest();
    if usize::MAX == 0xffff_ffff {
        if e > 31 {
            if e > 32 {
                vstd::arithmetic::power2::lemma_pow2_strictly_increases(32, e);
            }
        }
    } else {
        if e > 63 {
            if e > 64 {
                vstd::arithmetic::power2::lemma_pow2_strictly_increases(64, e);
            }
        }
    }
    if e < 31 || (usize::MAX != 0xffff_ffff && e < 63) {
        let top: nat = if usize::MAX == 0xffff_ffff { 31 } else { 63 };
        vstd::arithmetic::power2::lemma_pow2_strictly_increases(e, top);
    }
}

/// The reasons an allocation can fail.
#[derive(Clone, Copy, Debug, PartialEq, Eq, Structural)]
pub enum AllocErr {
    /// The window has no room left for the request.
    Exhausted,
    /// The request is larger than the largest block.
    Unsupported,
}

/// The size and alignment of an allocation request.
#[derive(Clone, Copy, Debug, PartialEq, Eq, Structural)]
pub struct Layout {
    pub size: usize,
    pub align: usize,
}

impl Layout {
    /// A request is valid when its size is positive and its alignment is a
    /// power of two.
    pub open spec fn valid(self) -> bool {
        self.size > 0 && is_pow2(self.align as nat)
    }

    /// Returns a layout of `size` bytes aligned to `align`, or `None` unless
    /// `size > 0` and `align` is a power of two.
    pub fn from_size_align(size: usize, align: usize) -> (r: Option<Layout>)
        ensures
            r is Some <==> (size > 0 && is_pow2(align as nat)),
            r matches Some(l) ==> l.size == size && l.align == align,
    {
        if size > 0 && is_power_of_two(align) {
            Some(Layout { size, align })
        } else {
            None
        }
    }

    pub fn size(&self) -> (r: usize)
        ensures
            r == self.size,
    {
        self.size
    }

    pub fn align(&self) -> (r: usize)
        ensures
            r == self.align,
    {
        self.align
    }
}

/// The abstract state of the allocator: one free list per size class (head
/// first), the bump pointer, the end of the window and the largest block.
pub struct HeapState {
    pub bins: Seq<Seq<usize>>,
    pub max_bin_size: nat,
    pub start: nat,
    pub current: nat,
    pub end: nat,
}

impl HeapState {
    pub open spec fn wf(self) -> bool {
        &&& self.bins.len() == BIN_COUNT
        &&& self.start <= self.current <= self.end <= usize::MAX
        &&& self.max_bin_size <= usize::MAX / 2 + 1
        &&& forall|k: int, i: int|
            0 <= k < BIN_COUNT && 0 <= i < self.bins[k].len() ==> self.start <= #[trigger] self.bins[k][i]
                && self.bins[k][i] + block_size(k as nat) <= self.end
    }
}

/// The index of the first address of `list` that is a multiple of `align`.
pub open spec fn first_aligned(list: Seq<usize>, align: nat) -> Option<int>
    decreases list.len(),
{
    if list.len() == 0 {
        None
    } else if list[0] as nat % align == 0 {
        Some(0)
    } else {
        match first_aligned(list.drop_first(), align) {
            Some(i) => Some(i + 1),
            None => None,
        }
    }
}

/// What `allocate(l)` does in state `s`: the new state and the result.
pub open spec fn spec_alloc(s: HeapState, l: Layout) -> (HeapState, Result<usize, AllocErr>) {
    if l.size > s.max_bin_size {
        (s, Err(AllocErr::Unsupported))
    } else {
        let k = bin_of(l.size as nat) as int;
        match first_aligned(s.bins[k], l.align as nat) {
            Some(i) => (
                HeapState { bins: s.bins.update(k, s.bins[k].remove(i)), ..s },
                Ok(s.bins[k][i]),
            ),
            None => {
                let start = spec_align_up(s.current, l.align as nat);
                if start + block_size(k as nat) <= s.end {
                    (HeapState { current: start + block_size(k as nat), ..s }, Ok(start as usize))
                } else {
                    (s, Err(AllocErr::Exhausted))
                }
            },
        }
    }
}

/// What `dealloc(p, l)` does in state `s`: `p` goes to the head of its list.
pub open spec fn spec_dealloc(s: HeapState, p: usize, l: Layout) -> HeapState {
    let k = bin_of(l.size as nat) as int;
    HeapState { bins: s.bins.update(k, seq![p] + s.bins[k]), ..s }
}

proof fn lemma_first_aligned(list: Seq<usize>, align: nat, i: int)
    requires
        align > 0,
        0 <= i <= list.len(),
        forall|j: int| 0 <= j < i ==> #[trigger] list[j] as nat % align != 0,
    ensures
        i < list.len() && list[i] as nat % align == 0 ==> first_aligned(list, align) == Some(i),
        i == list.len() ==> first_aligned(list, align) is None,
    decreases list.len(),
{
    if list.len() > 0 && i > 0 {
        assert(list[0] as nat % align != 0);
        let rest = list.drop_first();
        assert forall|j: int| 0 <= j < i - 1 implies #[trigger] rest[j] as nat % align != 0 by {
            assert(rest[j] == list[j + 1]);
        }
        lemma_first_aligned(rest, align, i - 1);
        if i < list.len() {
            assert(rest[i - 1] == list[i]);
        }
    }
}

proof fn lemma_first_aligned_found(list: Seq<usize>, align: nat)
    requires
        align > 0,
    ensures
        first_aligned(list, align) matches Some(i) ==> 0 <= i < list.len() && list[i] as nat
            % align == 0,
    decreases list.len(),
{
    if list.len() > 0 {
        lemma_first_aligned_found(list.drop_first(), align);
    }
}

/// An allocation succeeds only with an address that is aligned as asked and
/// whose block lies inside the window; the state stays well formed.
pub proof fn lemma_alloc_sound(s: HeapState, l: Layout)
    requires
        s.wf(),
        l.valid(),
    ensures
        spec_alloc(s, l).0.wf(),
        spec_alloc(s, l).1 matches Ok(p) ==> p as nat % l.align as nat == 0 && s.start <= p && p
            + spec_bin_size(l.size as nat) <= s.end,
{
    lemma_pow2_pos(l.align as nat);
    if l.size <= s.max_bin_size {
        let k = bin_of(l.size as nat) as int;
        lemma_bin_of_fits(l.size as nat);
        lemma_bin_of_bound_max(l.size as nat);
        lemma_first_aligned_found(s.bins[k], l.align as nat);
        match first_aligned(s.bins[k], l.align as nat) {
            Some(i) => {
                let t = spec_alloc(s, l).0;
                assert forall|k2: int, j: int|
                    0 <= k2 < BIN_COUNT && 0 <= j < t.bins[k2].len() implies t.start <= #[trigger] t.bins[k2][j]
                    && t.bins[k2][j] + block_size(k2 as nat) <= t.end by {
                    if k2 == k {
                        if j < i {
                            assert(t.bins[k2][j] == s.bins[k][j]);
                        } else {
                            assert(t.bins[k2][j] == s.bins[k][j + 1]);
                        }
                    }
                }
            },
            None => {
                let a = l.align as nat;
                let x = (s.current + a - 1) as nat;
                vstd::arithmetic::div_mod::lemma_fundamental_div_mod(x as int, a as int);
                vstd::arithmetic::div_mod::lemma_mod_multiples_basic((x / a) as int, a as int);
                let q = x / a;
                let rr = x % a;
                assert(x == a * q + rr);
                assert(rr < a);
                assert(q * a == a * q) by (nonlinear_arith);
                assert(q * a >= s.current);
            },
        }
    }
}

/// The last block class that a window-sized request can reach.
proof fn lemma_bin_of_bound_max(size: nat)
    requires
        size <= usize::MAX / 2 + 1,
    ensures
        bin_of(size) < BIN_COUNT,
{
    lemma_bin_of_fits(size);
    if bin_of(size) > 0 {
        lemma_block_size_limit((bin_of(size) - 1) as nat);
    }
}

proof fn lemma_pow2_pos(n: nat)
    requires
        is_pow2(n),
    ensures
        n > 0,
{
}

/// Freeing a block and asking again for the same layout gives the very same
/// block back, and leaves the allocator as it was before the free.
pub proof fn lemma_dealloc_then_alloc(s: HeapState, p: usize, l: Layout)
    requires
        s.wf(),
        l.valid(),
        l.size <= s.max_bin_size,
        p as nat % l.align as nat == 0,
    ensures
        spec_alloc(spec_dealloc(s, p, l), l) == (s, Ok::<usize, AllocErr>(p)),
{
    let k = bin_of(l.size as nat) as int;
    let t = spec_dealloc(s, p, l);
    lemma_bin_of_bound_max(l.size as nat);
    assert(t.bins[k] == seq![p] + s.bins[k]);
    assert(t.bins[k][0] == p);
    assert(first_aligned(t.bins[k], l.align as nat) == Some(0int));
    assert(t.bins[k].remove(0) =~= s.bins[k]);
    assert(t.bins.update(k, t.bins[k].remove(0)) =~= s.bins);
}

/// A size-class allocator over the window `[start, end)`.
pub struct Allocator {
    bins: Vec<Vec<usize>>,
    max_bin_size: usize,
    unallocated_start: usize,
    unallocated_current: usize,
    unallocated_end: usize,
}

impl View for Allocator {
    type V = HeapState;

    closed spec fn view(&self) -> HeapState {
        HeapState {
            bins: self.bins@.map_values(|b: Vec<usize>| b@),
            max_bin_size: self.max_bin_size as nat,
            start: self.unallocated_start as nat,
            current: self.unallocated_current as nat,
            end: self.unallocated_end as nat,
        }
    }
}

impl Allocator {
    /// The abstract state is well formed.
    pub open spec fn wf(&self) -> bool {
        self@.wf()
    }

    /// Creates an allocator that hands out memory from `[start, end)`; its
    /// largest block is the largest power of two that fits in the window.
    pub fn new(start: usize, end: usize) -> (r: Allocator)
        requires
            start <= end,
        ensures
            r.wf(),
            r@.start == start,
            r@.current == start,
            r@.end == end,
            r@.max_bin_size == (if end - start < 2 { 0 } else { floor_pow2((end - start) as nat) }),
            forall|k: int| 0 <= k < BIN_COUNT ==> r@.bins[k].len() == 0,
    {
        let mut bins: Vec<Vec<usize>> = Vec::new();
        let mut i: usize = 0;
        while i < BIN_COUNT
            invariant
                i <= BIN_COUNT,
                bins@.len() == i,
                forall|k: int| 0 <= k < i ==> (#[trigger] bins@[k])@.len() == 0,
            decreases BIN_COUNT - i,
        {
            bins.push(Vec::new());
            i = i + 1;
        }
        let max_bin_size = previous_power_of_two(end - start);
        proof {
            if end - start >= 2 {
                let e = lemma_floor_pow2((end - start) as nat);
                lemma_pow2_fits(e);
            }
        }
        let r = Allocator { bins, max_bin_size, unallocated_start: start, unallocated_current: start, unallocated_end: end };
        assert forall|k: int| 0 <= k < BIN_COUNT implies r@.bins[k].len() == 0 by {
            assert(r@.bins[k] == r.bins@[k]@);
        }
        r
    }

    /// Allocates a block for `layout`: the first address of the class's free
    /// list that is aligned as asked, else a fresh block carved from the
    /// unallocated part of the window.
    pub fn allocate(&mut self, layout: Layout) -> (r: Result<usize, AllocErr>)
        requires
            old(self).wf(),
            layout.valid(),
        ensures
            final(self).wf(),
            (final(self)@, r) == spec_alloc(old(self)@, layout),
            r matches Ok(p) ==> p as nat % layout.align as nat == 0 && old(self)@.start <= p && p + spec_bin_size(
                layout.size as nat,
            ) <= old(self)@.end,
            old(self)@.end <= usize::MAX,
    {
        proof {
            lemma_alloc_sound(self@, layout);
            lemma_pow2_pos(layout.align as nat);
        }
        if layout.size > self.max_bin_size {
            return Err(AllocErr::Unsupported);
        }
        let (k, block) = size_class(layout.size);
        proof {
            lemma_bin_of_bound_max(layout.size as nat);
        }
        let ghost old_view = self@;
        let mut i: usize = 0;
        let n = self.bins[k].len();
        while i < n
            invariant
                self@ == old_view,
                old(self)@ == old_view,
                self.wf(),
                k < BIN_COUNT,
                k as nat == bin_of(layout.size as nat),
                block as nat == block_size(k as nat),
                layout.size <= old_view.max_bin_size,
                layout.valid(),
                n == self.bins@[k as int]@.len(),
                i <= n,
                layout.align > 0,
                forall|j: int| 0 <= j < i ==> #[trigger] self.bins@[k as int]@[j] as nat % layout.align as nat != 0,
            decreases n - i,
        {
            let addr = self.bins[k][i];
            if has_alignment(addr, layout.align) {
                proof {
                    assert(self@.bins[k as int] == self.bins@[k as int]@);
                    lemma_first_aligned(self@.bins[k as int], layout.align as nat, i as int);
                }
                let ghost old_bins = self.bins@;
                let mut list = self.bins.remove(k);
                list.remove(i);
                let ghost new_list = list@;
                self.bins.insert(k, list);
                proof {
                    assert(self.bins@ =~= old_bins.update(k as int, self.bins@[k as int]));
                    assert(new_list =~= old_view.bins[k as int].remove(i as int));
                    assert(self@.bins =~= old_view.bins.update(k as int, old_view.bins[k as int].remove(i as int)));
                    assert(addr == old_view.bins[k as int][i as int]);
                    assert(first_aligned(old_view.bins[k as int], layout.align as nat) == Some(i as int));
                    lemma_alloc_sound(old_view, layout);
                }
                return Ok(addr);
            }
            i = i + 1;
        }
        proof {
            assert(self@.bins[k as int] == self.bins@[k as int]@);
            lemma_first_aligned(self@.bins[k as int], layout.align as nat, i as int);
        }
        let current = self.unallocated_current;
        let rem = current % layout.align;
        let gap: usize = if rem == 0 { 0 } else { layout.align - rem };
        proof {
            let a = layout.align as int;
            let x = current + a - 1;
            vstd::arithmetic::div_mod::lemma_fundamental_div_mod(current as int, a);
            let q = current as int / a;
            if rem == 0 {
                assert(x == a * q + (a - 1));
                vstd::arithmetic::div_mod::lemma_div_multiples_vanish_fancy(q, a - 1, a);
                assert(x / a == q);
                assert((x / a) * a == current) by (nonlinear_arith)
                    requires
                        x / a == q,
                        current == a * q + rem,
                        rem == 0,
                ;
            } else {
                assert(x == a * (q + 1) + (rem - 1)) by (nonlinear_arith)
                    requires
                        x == current + a - 1,
                        current == a * q + rem,
                ;
                vstd::arithmetic::div_mod::lemma_div_multiples_vanish_fancy(q + 1, rem - 1, a);
                assert(x / a == q + 1);
                assert((x / a) * a == current + gap) by (nonlinear_arith)
                    requires
                        x / a == q + 1,
                        current == a * q + rem,
                        gap == a - rem,
                ;
            }
            assert(spec_align_up(current as nat, a as nat) == current + gap);
        }
        if gap > self.unallocated_end || current > self.unallocated_end - gap {
            return Err(AllocErr::Exhausted);
        }
        let start = current + gap;
        if block > self.unallocated_end || start > self.unallocated_end - block {
            return Err(AllocErr::Exhausted);
        }
        self.unallocated_current = start + block;
        Ok(start)
    }

    /// Returns the block at `ptr`, allocated for `layout`, to the head of its
    /// class's free list.
    pub fn dealloc(&mut self, ptr: usize, layout: Layout)
        requires
            old(self).wf(),
            layout.valid(),
            layout.size <= old(self)@.max_bin_size,
            old(self)@.start <= ptr,
            ptr + spec_bin_size(layout.size as nat) <= old(self)@.end,
        ensures
            final(self).wf(),
            final(self)@ == spec_dealloc(old(self)@, ptr, layout),
    {
        let (k, _) = size_class(layout.size);
        proof {
            lemma_bin_of_bound_max(layout.size as nat);
        }
        let ghost old_view = self@;
        let ghost old_bins = self.bins@;
        let mut list = self.bins.remove(k);
        list.insert(0, ptr);
        let ghost new_list = list@;
        self.bins.insert(k, list);
        proof {
            assert(self.bins@ =~= old_bins.update(k as int, self.bins@[k as int]));
            assert(new_list =~= seq![ptr] + old_view.bins[k as int]);
            assert(self@.bins =~= old_view.bins.update(k as int, seq![ptr] + old_view.bins[k as int]));
            assert forall|k2: int, j: int|
                0 <= k2 < BIN_COUNT && 0 <= j < self@.bins[k2].len() implies self@.start <= #[trigger] self@.bins[k2][j]
                && self@.bins[k2][j] + block_size(k2 as nat) <= self@.end by {
                if k2 == k && j > 0 {
                    assert(self@.bins[k2][j] == old_view.bins[k2][j - 1]);
                }
            }
        }
    }
}

} // verus!
