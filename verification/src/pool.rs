//! Pre-allocated buffer pool: fixed-size slots handed out from a free list kept as a
//! LIFO stack threaded through an index array.

use vstd::prelude::*;

verus! {

/// A handle to a pooled buffer: the index of its slot.
#[derive(Debug, Clone, Copy, PartialEq, Eq, Structural)]
pub struct PoolHandle(u32);

impl View for PoolHandle {
    type V = u32;

    closed spec fn view(&self) -> u32 {
        self.0
    }
}

impl PoolHandle {
    /// The slot index.
    pub fn index(&self) -> (i: usize)
        ensures
            i == self@,
    {
        self.0 as usize
    }
}

/// Marks the end of the free list.
pub const END_OF_LIST: u32 = 0xffff_ffff;

/// The slot the free list starts at: the first free slot, or the end marker.
pub open spec fn stack_head(free: Seq<u32>) -> u32 {
    if free.len() == 0 {
        END_OF_LIST
    } else {
        free[0]
    }
}

/// Allocation from a free stack: the top slot, and the stack without it (nothing, when
/// the stack is empty).
pub open spec fn after_allocate(free: Seq<u32>) -> (Option<u32>, Seq<u32>) {
    if free.len() == 0 {
        (None, free)
    } else {
        (Some(free[0]), free.skip(1))
    }
}

/// Deallocation onto a free stack: the slot goes on top.
pub open spec fn after_deallocate(free: Seq<u32>, slot: u32) -> Seq<u32> {
    seq![slot] + free
}

/// Fixed-size buffer pool.
pub struct BufferPool {
    storage: Vec<u8>,
    slot_size: usize,
    capacity: u32,
    free_list: Vec<u32>,
    free_head: u32,
    free: Ghost<Seq<u32>>,
}

impl BufferPool {
    /// The free slots, the one `allocate` hands out next first.
    pub closed spec fn free_slots(&self) -> Seq<u32> {
        self.free@
    }

    /// The bytes of every slot, slot after slot.
    pub closed spec fn spec_storage(&self) -> Seq<u8> {
        self.storage@
    }

    pub closed spec fn spec_slot_size(&self) -> usize {
        self.slot_size
    }

    pub closed spec fn spec_capacity(&self) -> u32 {
        self.capacity
    }

    /// The free list is a stack of distinct slots threaded through `free_list`: `free_head`
    /// names the first, each names the next, and the last names the end marker. (A pool
    /// of no slots starts its list at slot 0, which does not exist.)
    pub closed spec fn wf(&self) -> bool {
        let free = self.free@;
        &&& self.storage@.len() == self.slot_size * self.capacity
        &&& self.free_list@.len() == self.capacity
        &&& self.capacity < END_OF_LIST
        &&& forall|i: int| 0 <= i < free.len() ==> #[trigger] free[i] < self.capacity
        &&& forall|i: int, j: int| 0 <= i < j < free.len() ==> free[i] != free[j]
        &&& forall|i: int|
            0 <= i < free.len() ==> self.free_list@[#[trigger] free[i] as int] == stack_head(
                free.skip(i + 1),
            )
        &&& if self.capacity == 0 {
            self.free_head == 0 && free.len() == 0
        } else {
            self.free_head == stack_head(free)
        }
    }

    /// A pool of `capacity` slots of `slot_size` bytes, zeroed; every slot is free and
    /// they are handed out in index order.
    pub fn new(slot_size: usize, capacity: u32) -> (p: Self)
        requires
            slot_size * capacity <= usize::MAX,
            capacity < END_OF_LIST,
        ensures
            p.wf(),
            p.spec_slot_size() == slot_size,
            p.spec_capacity() == capacity,
            p.spec_storage() == Seq::new((slot_size * capacity) as nat, |i: int| 0u8),
            p.free_slots() == Seq::new(capacity as nat, |i: int| i as u32),
    {
        let total_bytes = slot_size * capacity as usize;
        let mut storage: Vec<u8> = vec![0u8; total_bytes];
        let page_size: usize = 4096;
        let mut i: usize = 0;
        while i < total_bytes
            invariant
                i <= total_bytes,
                page_size == 4096,
                storage@ == Seq::new(total_bytes as nat, |k: int| 0u8),
            decreases total_bytes - i,
        {
            storage.set(i, 0);
            assert(storage@ =~= Seq::new(total_bytes as nat, |k: int| 0u8));
            if total_bytes - i <= page_size {
                break;
            }
            i = i + page_size;
        }
        let mut free_list: Vec<u32> = Vec::new();
        let mut k: u32 = 0;
        while k < capacity
            invariant
                k <= capacity,
                capacity < END_OF_LIST,
                free_list@.len() == k,
                forall|j: int| 0 <= j < k ==> #[trigger] free_list@[j] == if j + 1 < capacity {
                    (j + 1) as u32
                } else {
                    END_OF_LIST
                },
            decreases capacity - k,
        {
            if k + 1 < capacity {
                free_list.push(k + 1);
            } else {
                free_list.push(END_OF_LIST);
            }
            k = k + 1;
        }
        let ghost free = Seq::new(capacity as nat, |i: int| i as u32);
        let p = BufferPool {
            storage,
            slot_size,
            capacity,
            free_list,
            free_head: 0,
            free: Ghost(free),
        };
        assert forall|i: int| 0 <= i < free.len() implies p.free_list@[#[trigger] free[i] as int]
            == stack_head(free.skip(i + 1)) by {
            if i + 1 < capacity {
                assert(free.skip(i + 1)[0] == free[i + 1]);
            }
        }
        p
    }

    /// Take a free slot: the most recently freed one (initially the lowest index), or
    /// `None` when every slot is in use (always, for a pool of no slots).
    pub fn allocate(&mut self) -> (r: Option<PoolHandle>)
        requires
            old(self).wf(),
        ensures
            final(self).wf(),
            after_allocate(old(self).free_slots()) == (
                match r {
                    Some(h) => Some(h@),
                    None => None::<u32>,
                },
                final(self).free_slots(),
            ),
            final(self).spec_storage() == old(self).spec_storage(),
            final(self).spec_slot_size() == old(self).spec_slot_size(),
            final(self).spec_capacity() == old(self).spec_capacity(),
    {
        if self.capacity == 0 {
            return None;
        }
        let head = self.free_head;
        if head == END_OF_LIST {
            return None;
        }
        let next = self.free_list[head as usize];
        self.free_head = next;
        let ghost old_free = self.free@;
        proof {
            self.free = Ghost(old_free.skip(1));
            assert forall|i: int| 0 <= i < old_free.skip(1).len() implies self.free_list@[
                #[trigger] old_free.skip(1)[i] as int] == stack_head(old_free.skip(1).skip(i + 1)) by {
                assert(old_free.skip(1)[i] == old_free[i + 1]);
                assert(old_free.skip(1).skip(i + 1) =~= old_free.skip(i + 2));
            }
            assert forall|i: int, j: int| 0 <= i < j < old_free.skip(1).len() implies old_free.skip(1)[i]
                != old_free.skip(1)[j] by {
                assert(old_free.skip(1)[i] == old_free[i + 1]);
                assert(old_free.skip(1)[j] == old_free[j + 1]);
            }
        }
        Some(PoolHandle(head))
    }

    /// Return a slot to the pool; it is the next one `allocate` hands out. The handle
    /// must name a slot of this pool that is currently in use.
    pub fn deallocate(&mut self, handle: PoolHandle)
        requires
            old(self).wf(),
            handle@ < old(self).spec_capacity(),
            !old(self).free_slots().contains(handle@),
        ensures
            final(self).wf(),
            final(self).free_slots() == after_deallocate(old(self).free_slots(), handle@),
            final(self).spec_storage() == old(self).spec_storage(),
            final(self).spec_slot_size() == old(self).spec_slot_size(),
            final(self).spec_capacity() == old(self).spec_capacity(),
    {
        let head = self.free_head;
        let ghost old_free = self.free@;
        let ghost new_free = seq![handle.0] + old_free;
        self.free_list.set(handle.0 as usize, head);
        self.free_head = handle.0;
        proof {
            self.free = Ghost(new_free);
            assert forall|i: int| 0 <= i < new_free.len() implies self.free_list@[
                #[trigger] new_free[i] as int] == stack_head(new_free.skip(i + 1)) by {
                if i == 0 {
                    assert(new_free.skip(1) =~= old_free);
                } else {
                    assert(new_free[i] == old_free[i - 1]);
                    assert(new_free[i] != handle.0);
                    assert(new_free.skip(i + 1) =~= old_free.skip(i));
                }
            }
            assert forall|i: int, j: int| 0 <= i < j < new_free.len() implies new_free[i]
                != new_free[j] by {
                if i == 0 {
                    assert(new_free[j] == old_free[j - 1]);
                } else {
                    assert(new_free[i] == old_free[i - 1]);
                    assert(new_free[j] == old_free[j - 1]);
                }
            }
        }
    }

    /// The bytes of slot `handle`, for writing.
    pub fn get_mut(&mut self, handle: PoolHandle) -> (r: &mut [u8])
        requires
            old(self).wf(),
            handle@ < old(self).spec_capacity(),
        ensures
            r@ == old(self).spec_storage().subrange(
                handle@ * old(self).spec_slot_size(),
                (handle@ + 1) * old(self).spec_slot_size(),
            ),
            final(r)@.len() == r@.len() ==> final(self).wf(),
            final(self).spec_storage() == old(self).spec_storage().take(handle@ * old(self).spec_slot_size())
                + final(r)@ + old(self).spec_storage().skip((handle@ + 1) * old(self).spec_slot_size()),
            final(self).free_slots() == old(self).free_slots(),
            final(self).spec_slot_size() == old(self).spec_slot_size(),
            final(self).spec_capacity() == old(self).spec_capacity(),
    {
        let ghost h = handle.0 as int;
        let ghost sz = self.slot_size as int;
        let blen = self.storage.len();
        proof {
            vstd::arithmetic::mul::lemma_mul_inequality(h + 1, self.capacity as int, sz);
            vstd::arithmetic::mul::lemma_mul_is_distributive_add_other_way(sz, h, 1);
            vstd::arithmetic::mul::lemma_mul_is_commutative(sz, self.capacity as int);
            assert(h * sz + sz <= blen);
        }
        let offset = handle.0 as usize * self.slot_size;
        let slot = self.slot_size;
        let all = self.storage.as_mut_slice();
        let (_, rest) = all.split_at_mut(offset);
        let (mid, _) = rest.split_at_mut(slot);
        mid
    }

    /// The bytes of slot `handle`.
    pub fn get(&self, handle: PoolHandle) -> (r: &[u8])
        requires
            self.wf(),
            handle@ < self.spec_capacity(),
        ensures
            r@ == self.spec_storage().subrange(
                handle@ * self.spec_slot_size(),
                (handle@ + 1) * self.spec_slot_size(),
            ),
    {
        let ghost h = handle.0 as int;
        let ghost sz = self.slot_size as int;
        let blen = self.storage.len();
        proof {
            vstd::arithmetic::mul::lemma_mul_inequality(h + 1, self.capacity as int, sz);
            vstd::arithmetic::mul::lemma_mul_is_distributive_add_other_way(sz, h, 1);
            vstd::arithmetic::mul::lemma_mul_is_commutative(sz, self.capacity as int);
            assert(h * sz + sz <= blen);
        }
        let offset = handle.0 as usize * self.slot_size;
        let all = self.storage.as_slice();
        &all[offset..offset + self.slot_size]
    }

    /// The slot size in bytes.
    pub fn slot_size(&self) -> (n: usize)
        ensures
            n == self.spec_slot_size(),
    {
        self.slot_size
    }

    /// The number of slots.
    pub fn capacity(&self) -> (n: u32)
        ensures
            n == self.spec_capacity(),
    {
        self.capacity
    }
}

/// The free slots of a pool are distinct slots of the pool.
pub proof fn lemma_free_slots_distinct(p: BufferPool)
    requires
        p.wf(),
    ensures
        forall|i: int| 0 <= i < p.free_slots().len() ==> #[trigger] p.free_slots()[i] < p.spec_capacity(),
        forall|i: int, j: int|
            0 <= i < j < p.free_slots().len() ==> p.free_slots()[i] != p.free_slots()[j],
{
}

/// Last in, first out: a slot given back is the next one handed out, and the free stack
/// is then as it was before.
pub proof fn lemma_deallocate_then_allocate(free: Seq<u32>, slot: u32)
    ensures
        after_allocate(after_deallocate(free, slot)) == (Some(slot), free),
{
    assert((seq![slot] + free).skip(1) =~= free);
}

/// A fresh pool of `capacity` slots hands them out in index order: after `k` allocations
/// the `k`-th hands out slot `k` (so the first `capacity` allocations are distinct and in
/// range), and once all are out the next allocation gives `None`.
pub proof fn lemma_fresh_allocations(capacity: u32, k: int)
    requires
        0 <= k <= capacity,
    ensures
        ({
            let fresh = Seq::new(capacity as nat, |i: int| i as u32);
            &&& k < capacity ==> after_allocate(fresh.skip(k)) == (Some(k as u32), fresh.skip(k + 1))
            &&& k == capacity ==> after_allocate(fresh.skip(k)) == (None::<u32>, fresh.skip(k))
        }),
{
    let fresh = Seq::new(capacity as nat, |i: int| i as u32);
    if k < capacity {
        assert(fresh.skip(k)[0] == k as u32);
        assert(fresh.skip(k).skip(1) =~= fresh.skip(k + 1));
    } else {
        assert(fresh.skip(k).len() == 0);
    }
}

/// The free stack after giving back the handles `hs`, in order.
pub open spec fn after_deallocate_all(free: Seq<u32>, hs: Seq<u32>) -> Seq<u32>
    decreases hs.len(),
{
    if hs.len() == 0 {
        free
    } else {
        after_deallocate_all(after_deallocate(free, hs[0]), hs.skip(1))
    }
}

/// Giving back every handle that is out frees every slot: when each slot below `capacity`
/// is free or among the handles `hs`, every one is free afterwards.
pub proof fn lemma_deallocate_all(free: Seq<u32>, hs: Seq<u32>, capacity: u32)
    requires
        forall|s: u32| s < capacity ==> free.contains(s) || hs.contains(s),
    ensures
        forall|s: u32| s < capacity ==> #[trigger] after_deallocate_all(free, hs).contains(s),
    decreases hs.len(),
{
    if hs.len() > 0 {
        let f2 = after_deallocate(free, hs[0]);
        assert forall|s: u32| s < capacity implies f2.contains(s) || hs.skip(1).contains(s) by {
            if free.contains(s) {
                let i = choose|i: int| 0 <= i < free.len() && free[i] == s;
                assert(f2[i + 1] == s);
            } else {
                let i = choose|i: int| 0 <= i < hs.len() && hs[i] == s;
                if i == 0 {
                    assert(f2[0] == s);
                } else {
                    assert(hs.skip(1)[i - 1] == s);
                }
            }
        }
        lemma_deallocate_all(f2, hs.skip(1), capacity);
        assert(after_deallocate_all(free, hs) == after_deallocate_all(f2, hs.skip(1)));
    } else {
        assert forall|s: u32| s < capacity implies #[trigger] after_deallocate_all(free, hs).contains(s) by {
            assert(free.contains(s) || hs.contains(s));
            if hs.contains(s) {
                let i = choose|i: int| 0 <= i < hs.len() && hs[i] == s;
            }
        }
    }
}

/// A slot handed out is no longer free (the free slots of a pool are distinct).
pub proof fn lemma_allocated_not_free(p: BufferPool)
    requires
        p.wf(),
    ensures
        after_allocate(p.free_slots()).0 matches Some(slot) ==> !after_allocate(
            p.free_slots(),
        ).1.contains(slot),
{
    let free = p.free_slots();
    if free.len() > 0 {
        if free.skip(1).contains(free[0]) {
            let j = choose|j: int| 0 <= j < free.skip(1).len() && free.skip(1)[j] == free[0];
            assert(free[j + 1] == free[0]);
        }
    }
}

/// Tiered buffer pool: small (up to 256 bytes), medium (up to 4 KiB) and large (up to
/// 64 KiB) slots.
pub struct TieredPool {
    pub small: BufferPool,
    pub medium: BufferPool,
    pub large: BufferPool,
}

impl TieredPool {
    /// The three tiers are well formed and have slots.
    pub open spec fn wf(&self) -> bool {
        &&& self.small.wf() && self.small.spec_capacity() > 0
        &&& self.medium.wf() && self.medium.spec_capacity() > 0
        &&& self.large.wf() && self.large.spec_capacity() > 0
    }

    /// 1 Mi small slots of 256 bytes, 256 Ki medium slots of 4 KiB and 16 Ki large slots
    /// of 64 KiB.
    pub fn new() -> (p: Self)
        ensures
            p.wf(),
            p.small.spec_slot_size() == 256 && p.small.spec_capacity() == 1048576,
            p.medium.spec_slot_size() == 4096 && p.medium.spec_capacity() == 262144,
            p.large.spec_slot_size() == 65536 && p.large.spec_capacity() == 16384,
            p.small.free_slots().len() == 1048576,
            p.medium.free_slots().len() == 262144,
            p.large.free_slots().len() == 16384,
    {
        TieredPool {
            small: BufferPool::new(256, 1_048_576),
            medium: BufferPool::new(4096, 262_144),
            large: BufferPool::new(65_536, 16_384),
        }
    }

    /// Allocate from the smallest tier whose slots hold `size` bytes; `None` when that
    /// tier is exhausted or `size` exceeds 64 KiB.
    pub fn allocate(&mut self, size: usize) -> (r: Option<(PoolHandle, &BufferPool)>)
        requires
            old(self).wf(),
        ensures
            final(self).wf(),
            size <= 256 ==> after_allocate(old(self).small.free_slots()) == (
                match r {
                    Some(x) => Some(x.0@),
                    None => None::<u32>,
                },
                final(self).small.free_slots(),
            ) && final(self).medium == old(self).medium && final(self).large == old(self).large,
            256 < size <= 4096 ==> after_allocate(old(self).medium.free_slots()) == (
                match r {
                    Some(x) => Some(x.0@),
                    None => None::<u32>,
                },
                final(self).medium.free_slots(),
            ) && final(self).small == old(self).small && final(self).large == old(self).large,
            4096 < size <= 65536 ==> after_allocate(old(self).large.free_slots()) == (
                match r {
                    Some(x) => Some(x.0@),
                    None => None::<u32>,
                },
                final(self).large.free_slots(),
            ) && final(self).small == old(self).small && final(self).medium == old(self).medium,
            size > 65536 ==> r is None && *final(self) == *old(self),
    {
        if size <= 256 {
            match self.small.allocate() {
                Some(h) => Some((h, &self.small)),
                None => None,
            }
        } else if size <= 4096 {
            match self.medium.allocate() {
                Some(h) => Some((h, &self.medium)),
                None => None,
            }
        } else if size <= 65_536 {
            match self.large.allocate() {
                Some(h) => Some((h, &self.large)),
                None => None,
            }
        } else {
            None
        }
    }
}

impl Default for TieredPool {
    fn default() -> (p: Self)
        ensures
            p.wf(),
    {
        Self::new()
    }
}

} // verus!
