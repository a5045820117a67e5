//! The kernel heap: a first-fit list of free regions.
use vstd::prelude::*;
use vstd::arithmetic::div_mod::{lemma_fundamental_div_mod, lemma_mod_bound, lemma_mod_multiples_basic};
use vstd::arithmetic::mul::{lemma_mul_basics, lemma_mul_is_commutative, lemma_mul_is_distributive_add};

verus! {

/// The capacity of the free list.
pub const MAX_FREES: usize = 4090;

/// A free region of `size` bytes starting at `addr`.
#[derive(Clone, Copy, Debug, PartialEq, Eq, Structural)]
pub struct FreeMemoryInfo {
    pub addr: usize,
    pub size: usize,
}

/// `size` rounded up to a multiple of `align`.
pub open spec fn aligned_size_spec(size: int, align: int) -> int {
    align * (size / align + if size % align > 0 {
        1int
    } else {
        0int
    })
}

/// The bytes taken for a request of `size` bytes aligned to `align`: `size`
/// rounded up to a multiple of `align`.
pub fn aligned_size(size: usize, align: usize) -> (r: usize)
    requires
        align > 0,
        aligned_size_spec(size as int, align as int) <= usize::MAX,
    ensures
        r == aligned_size_spec(size as int, align as int),
        r % align == 0,
        size <= r < size + align,
{
    proof {
        let s = size as int;
        let a = align as int;
        let q = s / a;
        let c: int = if s % a > 0 { 1 } else { 0 };
        lemma_fundamental_div_mod(s, a);
        lemma_mod_bound(s, a);
        lemma_mod_multiples_basic(q + c, a);
        lemma_mul_is_commutative(a, q + c);
        lemma_mul_is_distributive_add(a, q, c);
        lemma_mul_basics(a);
    }
    align * ((size / align) + if size % align > 0 {
        1
    } else {
        0
    })
}

/// Whether two regions share a byte.
pub open spec fn overlap(a_addr: int, a_size: int, b_addr: int, b_size: int) -> bool {
    a_addr < b_addr + b_size && b_addr < a_addr + a_size
}

/// Every region of the list lies in the address space.
pub open spec fn regions_fit(free: Seq<FreeMemoryInfo>) -> bool {
    forall|i: int| 0 <= i < free.len() ==> #[trigger] free[i].addr + free[i].size <= usize::MAX
}

/// No two regions of the list share a byte.
pub open spec fn regions_disjoint(free: Seq<FreeMemoryInfo>) -> bool {
    forall|i: int, j: int|
        0 <= i < free.len() && 0 <= j < free.len() && i != j ==> !overlap(
            #[trigger] free[i].addr as int,
            free[i].size as int,
            #[trigger] free[j].addr as int,
            free[j].size as int,
        )
}

/// The index of the first region that holds `need` bytes; the length of the
/// list where none does.
pub open spec fn first_fit(free: Seq<FreeMemoryInfo>, need: int) -> int
    decreases free.len(),
{
    if free.len() == 0 {
        0
    } else if free[0].size >= need {
        0
    } else {
        1 + first_fit(free.drop_first(), need)
    }
}

/// The free list after a request of `need` bytes, and the address handed out
/// (`None` where no region holds `need` bytes). The block is cut from the
/// front of the first region that holds it; a region used up leaves the list.
pub open spec fn alloc_spec(free: Seq<FreeMemoryInfo>, need: int) -> (Seq<FreeMemoryInfo>, Option<int>) {
    let i = first_fit(free, need);
    if i >= free.len() {
        (free, None)
    } else {
        let f = free[i];
        if f.size - need == 0 {
            (free.remove(i), Some(f.addr as int))
        } else {
            (
                free.update(i, FreeMemoryInfo { addr: (f.addr + need) as usize, size: (f.size - need) as usize }),
                Some(f.addr as int),
            )
        }
    }
}

pub proof fn lemma_first_fit(free: Seq<FreeMemoryInfo>, need: int)
    ensures
        0 <= first_fit(free, need) <= free.len(),
        forall|j: int| 0 <= j < first_fit(free, need) ==> #[trigger] free[j].size < need,
        first_fit(free, need) < free.len() ==> free[first_fit(free, need)].size >= need,
    decreases free.len(),
{
    if free.len() > 0 && free[0].size < need {
        lemma_first_fit(free.drop_first(), need);
        assert forall|j: int| 0 <= j < first_fit(free, need) implies #[trigger] free[j].size < need by {
            if j > 0 {
                assert(free[j] == free.drop_first()[j - 1]);
            }
        }
    }
}

/// The kernel heap allocator: the list of free regions, first fit.
pub struct KernelAllocator {
    free: Vec<FreeMemoryInfo>,
}

impl View for KernelAllocator {
    type V = Seq<FreeMemoryInfo>;

    /// The free regions, in the order in which requests search them.
    closed spec fn view(&self) -> Seq<FreeMemoryInfo> {
        self.free@
    }
}

impl KernelAllocator {
    /// Every region lies in the address space.
    #[verifier::type_invariant]
    spec fn regions_in_address_space(self) -> bool {
        regions_fit(self.free@)
    }

    /// The allocator before its heap is known: the full list of empty regions
    /// at address 0.
    pub fn new() -> (a: KernelAllocator)
        ensures
            a@.len() == MAX_FREES,
            forall|i: int| 0 <= i < MAX_FREES ==> #[trigger] a@[i] == (FreeMemoryInfo { addr: 0, size: 0 }),
            regions_fit(a@),
            regions_disjoint(a@),
    {
        let mut free: Vec<FreeMemoryInfo> = Vec::new();
        for i in 0..MAX_FREES
            invariant
                free@.len() == i,
                forall|k: int| 0 <= k < i ==> #[trigger] free@[k] == (FreeMemoryInfo { addr: 0, size: 0 }),
        {
            free.push(FreeMemoryInfo { addr: 0, size: 0 });
        }
        KernelAllocator { free }
    }

    /// Makes the heap from `heap_start` up to `heap_end` the one free region.
    pub fn init(&mut self, heap_start: usize, heap_end: usize)
        requires
            heap_start <= heap_end,
        ensures
            final(self)@ == seq![FreeMemoryInfo { addr: heap_start, size: (heap_end - heap_start) as usize }],
            regions_fit(final(self)@),
            regions_disjoint(final(self)@),
    {
        let mut free: Vec<FreeMemoryInfo> = Vec::new();
        free.push(FreeMemoryInfo { addr: heap_start, size: heap_end - heap_start });
        self.free = free;
        assert(self.free@ =~= seq![FreeMemoryInfo { addr: heap_start, size: (heap_end - heap_start) as usize }]);
    }

    /// Hands out a block of `size` bytes rounded up to a multiple of `align`,
    /// cut from the front of the first free region that holds it; 0 where none
    /// does. The address of the block is the start of that region and is not
    /// itself aligned to `align`.
    pub fn allocate(&mut self, size: usize, align: usize) -> (addr: usize)
        requires
            align > 0,
            aligned_size_spec(size as int, align as int) <= usize::MAX,
        ensures
            final(self)@ == alloc_spec(old(self)@, aligned_size_spec(size as int, align as int)).0,
            addr == match alloc_spec(old(self)@, aligned_size_spec(size as int, align as int)).1 {
                Some(x) => x,
                None => 0,
            },
            regions_fit(final(self)@),
            regions_disjoint(old(self)@) ==> regions_disjoint(final(self)@),
    {
        proof {
            use_type_invariant(&*self);
        }
        let need = aligned_size(size, align);
        let n = self.free.len();
        let ghost before = self.free@;
        proof {
            lemma_first_fit(before, need as int);
            lemma_alloc_keeps(before, need as int);
        }
        let ghost fit = first_fit(before, need as int);
        let mut i: usize = 0;
        while i < n && self.free[i].size < need
            invariant
                n == before.len(),
                self.free@ == before,
                fit == first_fit(before, need as int),
                0 <= fit <= n,
                i <= fit,
                forall|j: int| 0 <= j < fit ==> #[trigger] before[j].size < need,
                fit < n ==> before[fit].size >= need,
            decreases n - i,
        {
            i = i + 1;
        }
        if i == n {
            return 0;
        }
        assert(i == fit);
        let f = self.free[i];
        assert(f.addr + f.size <= usize::MAX);
        let rest = FreeMemoryInfo { addr: f.addr + need, size: f.size - need };
        let mut free: Vec<FreeMemoryInfo> = Vec::new();
        std::mem::swap(&mut free, &mut self.free);
        if rest.size == 0 {
            free.remove(i);
            assert(free@ == before.remove(i as int));
        } else {
            free.set(i, rest);
            assert(free@ == before.update(i as int, rest));
        }
        self.free = free;
        f.addr
    }

    /// Frees a block. Freed blocks do not return to the free list: the list is
    /// unchanged. A full list cannot take the record of a freed block.
    pub fn dealloc(&mut self, ptr: usize, size: usize)
        requires
            old(self)@.len() < MAX_FREES,
        ensures
            final(self)@ == old(self)@,
    {
    }
}

/// A request keeps every region in the address space and keeps the regions
/// apart.
pub proof fn lemma_alloc_keeps(free: Seq<FreeMemoryInfo>, need: int)
    requires
        regions_fit(free),
        need >= 0,
    ensures
        regions_fit(alloc_spec(free, need).0),
        regions_disjoint(free) ==> regions_disjoint(alloc_spec(free, need).0),
{
    lemma_first_fit(free, need);
    let i = first_fit(free, need);
    if i < free.len() {
        let f = free[i];
        let after = alloc_spec(free, need).0;
        if f.size - need == 0 {
            assert forall|j: int| 0 <= j < after.len() implies #[trigger] after[j].addr + after[j].size
                <= usize::MAX by {
                if j >= i {
                    assert(after[j] == free[j + 1]);
                }
            }
            if regions_disjoint(free) {
                assert forall|j: int, k: int|
                    0 <= j < after.len() && 0 <= k < after.len() && j != k implies !overlap(
                    #[trigger] after[j].addr as int,
                    after[j].size as int,
                    #[trigger] after[k].addr as int,
                    after[k].size as int,
                ) by {
                    let jj = if j < i { j } else { j + 1 };
                    let kk = if k < i { k } else { k + 1 };
                    assert(after[j] == free[jj]);
                    assert(after[k] == free[kk]);
                }
            }
        } else {
            assert forall|j: int| 0 <= j < after.len() implies #[trigger] after[j].addr + after[j].size
                <= usize::MAX by {
                if j != i {
                    assert(after[j] == free[j]);
                }
            }
            if regions_disjoint(free) {
                assert forall|j: int, k: int|
                    0 <= j < after.len() && 0 <= k < after.len() && j != k implies !overlap(
                    #[trigger] after[j].addr as int,
                    after[j].size as int,
                    #[trigger] after[k].addr as int,
                    after[k].size as int,
                ) by {
                    assert(!overlap(free[j].addr as int, free[j].size as int, free[k].addr as int, free[k].size as int));
                }
            }
        }
    }
}

/// A block handed out lies inside a region that was free, and shares no
/// byte with any region that stays free.
pub proof fn lemma_alloc_block_leaves_free_list(free: Seq<FreeMemoryInfo>, need: int)
    requires
        regions_fit(free),
        regions_disjoint(free),
        need >= 0,
        alloc_spec(free, need).1 is Some,
    ensures
        ({
            let (after, a) = alloc_spec(free, need);
            let addr = a->0;
            &&& exists|i: int| 0 <= i < free.len() && free[i].addr == addr && addr + need <= free[i].addr + free[i].size
            &&& forall|j: int| 0 <= j < after.len() ==> !overlap(addr, need, #[trigger] after[j].addr as int, after[j].size as int)
        }),
{
    lemma_first_fit(free, need);
    let i = first_fit(free, need);
    let f = free[i];
    let after = alloc_spec(free, need).0;
    assert(free[i].addr == f.addr);
    if f.size - need == 0 {
        assert forall|j: int| 0 <= j < after.len() implies !overlap(f.addr as int, need, #[trigger] after[j].addr as int, after[j].size as int) by {
            let jj = if j < i { j } else { j + 1 };
            assert(after[j] == free[jj]);
            assert(!overlap(free[i].addr as int, free[i].size as int, free[jj].addr as int, free[jj].size as int));
        }
    } else {
        assert forall|j: int| 0 <= j < after.len() implies !overlap(f.addr as int, need, #[trigger] after[j].addr as int, after[j].size as int) by {
            if j != i {
                assert(after[j] == free[j]);
                assert(!overlap(free[i].addr as int, free[i].size as int, free[j].addr as int, free[j].size as int));
            }
        }
    }
}

/// Two blocks handed out one after the other never share a byte.
pub proof fn lemma_allocations_disjoint(free: Seq<FreeMemoryInfo>, need1: int, need2: int)
    requires
        regions_fit(free),
        regions_disjoint(free),
        need1 >= 0,
        need2 >= 0,
        alloc_spec(free, need1).1 is Some,
        alloc_spec(alloc_spec(free, need1).0, need2).1 is Some,
    ensures
        !overlap(
            alloc_spec(free, need1).1->0,
            need1,
            alloc_spec(alloc_spec(free, need1).0, need2).1->0,
            need2,
        ),
{
    let s1 = alloc_spec(free, need1).0;
    let a1 = alloc_spec(free, need1).1->0;
    lemma_alloc_keeps(free, need1);
    lemma_alloc_block_leaves_free_list(free, need1);
    lemma_alloc_block_leaves_free_list(s1, need2);
    let a2 = alloc_spec(s1, need2).1->0;
    let i = choose|i: int| 0 <= i < s1.len() && s1[i].addr == a2 && a2 + need2 <= s1[i].addr + s1[i].size;
    assert(!overlap(a1, need1, s1[i].addr as int, s1[i].size as int));
}

/// The number of free bytes in the list.
pub open spec fn free_total(free: Seq<FreeMemoryInfo>) -> int
    decreases free.len(),
{
    if free.len() == 0 {
        0
    } else {
        free_total(free.drop_last()) + free.last().size
    }
}

pub proof fn lemma_free_total_update(free: Seq<FreeMemoryInfo>, i: int, v: FreeMemoryInfo)
    requires
        0 <= i < free.len(),
    ensures
        free_total(free.update(i, v)) == free_total(free) - free[i].size + v.size,
    decreases free.len(),
{
    let u = free.update(i, v);
    if i < free.len() - 1 {
        assert(u.drop_last() =~= free.drop_last().update(i, v));
        lemma_free_total_update(free.drop_last(), i, v);
    } else {
        assert(u.drop_last() =~= free.drop_last());
    }
}

pub proof fn lemma_free_total_remove(free: Seq<FreeMemoryInfo>, i: int)
    requires
        0 <= i < free.len(),
    ensures
        free_total(free.remove(i)) == free_total(free) - free[i].size,
    decreases free.len(),
{
    let r = free.remove(i);
    if i < free.len() - 1 {
        assert(r.drop_last() =~= free.drop_last().remove(i));
        assert(r.last() == free.last());
        lemma_free_total_remove(free.drop_last(), i);
    } else {
        assert(r =~= free.drop_last());
    }
}

/// A request that is served takes exactly the rounded-up size out of the
/// free bytes; one that is not served leaves the list as it was. The list
/// never grows.
pub proof fn lemma_alloc_free_total(free: Seq<FreeMemoryInfo>, need: int)
    requires
        regions_fit(free),
        need >= 0,
    ensures
        alloc_spec(free, need).0.len() <= free.len(),
        alloc_spec(free, need).1 is Some ==> free_total(alloc_spec(free, need).0) == free_total(free) - need,
        alloc_spec(free, need).1 is None ==> alloc_spec(free, need).0 == free,
{
    lemma_first_fit(free, need);
    let i = first_fit(free, need);
    if i < free.len() {
        let f = free[i];
        if f.size - need == 0 {
            lemma_free_total_remove(free, i);
        } else {
            lemma_free_total_update(
                free,
                i,
                FreeMemoryInfo { addr: (f.addr + need) as usize, size: (f.size - need) as usize },
            );
        }
    }
}

/// A request is refused only when no free region holds the rounded-up size.
/// Otherwise it is served at the start of the first region that holds it.
pub proof fn lemma_alloc_first_fit(free: Seq<FreeMemoryInfo>, need: int)
    requires
        need >= 0,
    ensures
        alloc_spec(free, need).1 is None <==> (forall|i: int| 0 <= i < free.len() ==> #[trigger] free[i].size < need),
        alloc_spec(free, need).1 matches Some(a) ==> exists|i: int|
            0 <= i < free.len() && #[trigger] free[i].size >= need && a == free[i].addr && (forall|j: int|
                0 <= j < i ==> #[trigger] free[j].size < need),
{
    lemma_first_fit(free, need);
    let k = first_fit(free, need);
    if k < free.len() {
        assert(free[k].size >= need);
    }
}

} // verus!
