//! The allocator engine: cursors over the reserved range, per-class free
//! lists, and the steps that allocation and freeing hand to the caller.
use vstd::prelude::*;
use crate::layout::{
    aligned_size, block_size_of, block_size_of_subheap, class_for_size, class_of_size,
    decode_header, header_kind, lemma_class_is_smallest_fit, lemma_first_fitting_class,
    lemma_largest_class_boundary, round_up, HeaderKind, HEADER_SIZE, MAX_BLOCK_SIZE, SUBHEAP_COUNT,
};
use crate::strategy::CommitStrategy;
use vstd::arithmetic::div_mod::{lemma_fundamental_div_mod, lemma_mod_multiples_basic};

verus! {

/// Maximum heap size reserved when the caller names none: 8 GiB.
pub const DEFAULT_MAX_HEAP_SIZE: u64 = 8589934592;

/// Why the engine refused a request.
#[derive(PartialEq, Eq, Structural, Clone, Copy, Debug)]
pub enum AllocError {
    /// The page size is zero, the heap size is no multiple of it, or the
    /// reserved range does not fit in the address space.
    InvalidLayout,
    /// Growing the pooled heap by one more block would pass its end.
    OutOfAddressSpace,
    /// The page-rounded size of an external region does not fit in a word.
    SizeOverflow,
    /// A header word at most `MAX_BLOCK_SIZE` that names no size class.
    InvalidHeader,
    /// An address too close to either end of the address space to hold a
    /// header before it or a payload after it.
    InvalidAddress,
    /// A commit that does not continue the committed range by whole pages
    /// inside the reservation.
    InvalidCommit,
    /// An external region too small to be told apart from a pooled block.
    InvalidRegion,
}

/// Where a block lands: the header word to write at `header_addr`, and the
/// payload address, just past the header, that goes to the caller.
#[derive(PartialEq, Eq, Structural, Clone, Copy, Debug)]
pub struct Placement {
    pub header_addr: usize,
    pub header: usize,
    pub payload: usize,
}

/// What the caller does next to complete an allocation.
#[derive(PartialEq, Eq, Structural, Clone, Copy, Debug)]
pub enum AllocStep {
    /// A freed block of the right class was taken off its free list; its
    /// header is still in place, and `payload` is the result.
    Reuse { payload: usize },
    /// The pooled heap grew by one block: write the header, return the payload.
    Place(Placement),
    /// The block would pass the committed range: commit `len` bytes at `addr`,
    /// trying the strategies in the order that `prefer` gives, report it with
    /// `record_commit`, and ask again. Nothing has changed yet.
    Commit { addr: usize, len: usize, prefer: CommitStrategy },
    /// The request is too large for the pool: map a fresh region of `len`
    /// bytes and lay it out with `place_external`. Nothing has changed.
    MapExternal { len: usize },
}

/// What the caller does next to complete a free.
#[derive(PartialEq, Eq, Structural, Clone, Copy, Debug)]
pub enum FreeStep {
    /// The block went onto the free list of its class; nothing is left to do.
    Pooled,
    /// Unmap the external region of `len` bytes that starts at `addr`.
    Release { addr: usize, len: usize },
}

/// The abstract state of an allocator.
pub struct HeapModel {
    pub pagesize: nat,
    pub heap_begin: nat,
    pub heap_end: nat,
    pub active_heap_end: nat,
    pub committed_heap_end: nat,
    /// Payload addresses of the freed blocks of each class; the last one is
    /// handed out first.
    pub free_lists: Seq<Seq<usize>>,
    pub prefer_commit_strategy: CommitStrategy,
}

impl HeapModel {
    /// The cursors are ordered inside the reservation, which is a whole number
    /// of pages, as is the committed part; there is one free list per class.
    pub open spec fn wf(self) -> bool {
        &&& self.pagesize > 0
        &&& self.heap_begin <= self.active_heap_end
        &&& self.active_heap_end <= self.committed_heap_end
        &&& self.committed_heap_end <= self.heap_end
        &&& self.heap_end <= usize::MAX
        &&& (self.heap_end - self.heap_begin) as nat % self.pagesize == 0
        &&& (self.committed_heap_end - self.heap_begin) as nat % self.pagesize == 0
        &&& self.free_lists.len() == SUBHEAP_COUNT
    }

    /// No cursor has moved back from `self` to `next`, and the reservation
    /// and the page size are the same.
    pub open spec fn cursors_advance_to(self, next: HeapModel) -> bool {
        &&& next.pagesize == self.pagesize
        &&& next.heap_begin == self.heap_begin
        &&& next.heap_end == self.heap_end
        &&& self.active_heap_end <= next.active_heap_end
        &&& self.committed_heap_end <= next.committed_heap_end
    }
}

/// A fresh allocator over the reservation of `max_heap_size` bytes at
/// `heap_begin`: nothing active, nothing committed, no free blocks.
pub open spec fn fresh_model(pagesize: nat, heap_begin: nat, max_heap_size: nat) -> HeapModel {
    HeapModel {
        pagesize,
        heap_begin,
        heap_end: heap_begin + max_heap_size,
        active_heap_end: heap_begin,
        committed_heap_end: heap_begin,
        free_lists: Seq::new(SUBHEAP_COUNT as nat, |c: int| Seq::<usize>::empty()),
        prefer_commit_strategy: CommitStrategy::Mprotect,
    }
}

/// Whether a reservation of `max_heap_size` bytes with the given page size
/// can hold an allocator: pages are not empty and the heap is whole pages.
pub open spec fn layout_ok(pagesize: nat, max_heap_size: nat) -> bool {
    pagesize > 0 && max_heap_size % pagesize == 0
}

/// Growing the pooled heap by one block of class `c`: refused past the end
/// of the reservation; a commit of the missing whole pages where the block
/// would pass the committed range; else the block is carved at the active end.
pub open spec fn extend_outcome(m: HeapModel, c: nat) -> (HeapModel, Result<AllocStep, AllocError>) {
    let new_end = (m.active_heap_end + HEADER_SIZE + block_size_of(c)) as nat;
    if new_end > m.heap_end {
        (m, Err(AllocError::OutOfAddressSpace))
    } else if new_end > m.committed_heap_end {
        (m, Ok(AllocStep::Commit {
            addr: m.committed_heap_end as usize,
            len: round_up((new_end - m.committed_heap_end) as nat, m.pagesize) as usize,
            prefer: m.prefer_commit_strategy,
        }))
    } else {
        (
            HeapModel { active_heap_end: new_end, ..m },
            Ok(AllocStep::Place(Placement {
                header_addr: m.active_heap_end as usize,
                header: c as usize,
                payload: (m.active_heap_end + HEADER_SIZE) as usize,
            })),
        )
    }
}

/// A block of class `c`: the last one freed, if any, else a new one.
pub open spec fn subheap_outcome(m: HeapModel, c: nat) -> (HeapModel, Result<AllocStep, AllocError>) {
    let list = m.free_lists[c as int];
    if list.len() > 0 {
        (
            HeapModel { free_lists: m.free_lists.update(c as int, list.drop_last()), ..m },
            Ok(AllocStep::Reuse { payload: list.last() }),
        )
    } else {
        extend_outcome(m, c)
    }
}

/// A region for a request of `len` bytes that the pool does not serve: the
/// request and its header, rounded up to whole pages.
pub open spec fn external_outcome(m: HeapModel, len: nat) -> Result<AllocStep, AllocError> {
    let total = round_up((len + HEADER_SIZE) as nat, m.pagesize);
    if total > usize::MAX {
        Err(AllocError::SizeOverflow)
    } else {
        Ok(AllocStep::MapExternal { len: total as usize })
    }
}

/// Allocating `len` bytes: pooled up to `MAX_BLOCK_SIZE`, external above.
pub open spec fn alloc_outcome(m: HeapModel, len: nat) -> (HeapModel, Result<AllocStep, AllocError>) {
    if len <= MAX_BLOCK_SIZE {
        subheap_outcome(m, class_for_size(len))
    } else {
        (m, external_outcome(m, len))
    }
}

/// Freeing the block at `payload` whose header word is `word`: a pooled
/// block goes onto the free list of its class, an external region is to be
/// unmapped from its header on.
pub open spec fn free_outcome(m: HeapModel, payload: usize, word: usize) -> (HeapModel, Result<FreeStep, AllocError>) {
    match header_kind(word) {
        HeaderKind::Pooled(c) => (
            HeapModel { free_lists: m.free_lists.update(c as int, m.free_lists[c as int].push(payload)), ..m },
            Ok(FreeStep::Pooled),
        ),
        HeaderKind::External(size) => if payload < HEADER_SIZE {
            (m, Err(AllocError::InvalidAddress))
        } else {
            (m, Ok(FreeStep::Release { addr: (payload - HEADER_SIZE) as usize, len: size }))
        },
        HeaderKind::Invalid => (m, Err(AllocError::InvalidHeader)),
    }
}

/// Recording that `len` bytes at `addr` were committed with `used`: accepted
/// when they continue the committed range by whole pages inside the
/// reservation, and `used` becomes the preferred strategy.
pub open spec fn commit_outcome(m: HeapModel, addr: usize, len: usize, used: CommitStrategy) -> (HeapModel, Result<(), AllocError>) {
    if addr == m.committed_heap_end && len as nat % m.pagesize == 0 && m.committed_heap_end + len <= m.heap_end {
        (
            HeapModel {
                committed_heap_end: (m.committed_heap_end + len) as nat,
                prefer_commit_strategy: used,
                ..m
            },
            Ok(()),
        )
    } else {
        (m, Err(AllocError::InvalidCommit))
    }
}

/// The layout of an external region of `len` bytes mapped at `region`: its
/// header at the start records `len`, the payload follows it.
pub open spec fn external_placement(region: usize, len: usize) -> Result<Placement, AllocError> {
    if len <= MAX_BLOCK_SIZE {
        Err(AllocError::InvalidRegion)
    } else if region + HEADER_SIZE > usize::MAX {
        Err(AllocError::InvalidAddress)
    } else {
        Ok(Placement { header_addr: region, header: len, payload: (region + HEADER_SIZE) as usize })
    }
}

/// The allocator engine over one reserved range.
pub struct Allocator {
    pagesize: usize,
    heap_begin: usize,
    heap_end: usize,
    free_lists: Vec<Vec<usize>>,
    active_heap_end: usize,
    committed_heap_end: usize,
    prefer_commit_strategy: CommitStrategy,
}

impl View for Allocator {
    type V = HeapModel;

    closed spec fn view(&self) -> HeapModel {
        HeapModel {
            pagesize: self.pagesize as nat,
            heap_begin: self.heap_begin as nat,
            heap_end: self.heap_end as nat,
            active_heap_end: self.active_heap_end as nat,
            committed_heap_end: self.committed_heap_end as nat,
            free_lists: self.free_lists@.map_values(|l: Vec<usize>| l@),
            prefer_commit_strategy: self.prefer_commit_strategy,
        }
    }
}

/// `x` rounded up to whole pages stays a whole number of pages and does not
/// pass any whole number of pages `m` at least `x`.
proof fn lemma_round_up_within(x: nat, m: nat, p: nat)
    requires
        p > 0,
        x <= m,
        m % p == 0,
    ensures
        x <= round_up(x, p) <= m,
        round_up(x, p) % p == 0,
{
    lemma_fundamental_div_mod(x as int, p as int);
    lemma_fundamental_div_mod(m as int, p as int);
    if x % p != 0 {
        let q = x / p;
        let k = m / p;
        let r = x % p;
        assert(round_up(x, p) == x + (p - r));
        assert(x + (p - r) == p * (q + 1)) by (nonlinear_arith)
            requires
                x == p * q + r,
        ;
        assert(k >= q + 1) by (nonlinear_arith)
            requires
                m == p * k,
                x == p * q + x % p,
                0 < x % p < p,
                x <= m,
                p > 0,
        ;
        assert(p * (q + 1) <= p * k) by (nonlinear_arith)
            requires
                k >= q + 1,
                p > 0,
        ;
        lemma_mod_multiples_basic((q + 1) as int, p as int);
        assert((q + 1) * p == p * (q + 1)) by (nonlinear_arith);
    }
}

/// A sum or difference of whole numbers of pages is a whole number of pages.
proof fn lemma_whole_pages(a: nat, b: nat, p: nat)
    requires
        p > 0,
        a % p == 0,
        b % p == 0,
    ensures
        (a + b) % p == 0,
        b <= a ==> (a - b) as nat % p == 0,
{
    lemma_fundamental_div_mod(a as int, p as int);
    lemma_fundamental_div_mod(b as int, p as int);
    let qa = a / p;
    let qb = b / p;
    assert(a + b == (qa + qb) * p) by (nonlinear_arith)
        requires
            a == p * qa,
            b == p * qb,
    ;
    lemma_mod_multiples_basic((qa + qb) as int, p as int);
    if b <= a {
        assert(a - b == (qa - qb) * p) by (nonlinear_arith)
            requires
                a == p * qa,
                b == p * qb,
        ;
        lemma_mod_multiples_basic((qa - qb) as int, p as int);
    }
}

/// Whether a reservation of `max_heap_size` bytes with pages of `pagesize`
/// bytes can hold an allocator.
pub fn valid_layout(pagesize: usize, max_heap_size: usize) -> (r: bool)
    ensures
        r == layout_ok(pagesize as nat, max_heap_size as nat),
{
    pagesize > 0 && max_heap_size % pagesize == 0
}

/// Lays out an external region of `len` bytes mapped at `region`: the header
/// at its start records `len`, the payload follows the header.
pub fn place_external(region: usize, len: usize) -> (r: Result<Placement, AllocError>)
    ensures
        r == external_placement(region, len),
{
    if len <= MAX_BLOCK_SIZE {
        Err(AllocError::InvalidRegion)
    } else if region > usize::MAX - HEADER_SIZE {
        Err(AllocError::InvalidAddress)
    } else {
        Ok(Placement { header_addr: region, header: len, payload: region + HEADER_SIZE })
    }
}

impl Allocator {
    /// An allocator over the `max_heap_size` bytes reserved at `heap_begin`,
    /// with pages of `pagesize` bytes.
    pub fn init(pagesize: usize, heap_begin: usize, max_heap_size: usize) -> (r: Result<Allocator, AllocError>)
        ensures
            r is Ok <==> layout_ok(pagesize as nat, max_heap_size as nat)
                && heap_begin + max_heap_size <= usize::MAX,
            r is Ok ==> r->Ok_0@ == fresh_model(pagesize as nat, heap_begin as nat, max_heap_size as nat),
            r is Ok ==> r->Ok_0@.wf(),
            r is Err ==> r->Err_0 == AllocError::InvalidLayout,
    {
        if !valid_layout(pagesize, max_heap_size) || max_heap_size > usize::MAX - heap_begin {
            return Err(AllocError::InvalidLayout);
        }
        let mut free_lists: Vec<Vec<usize>> = Vec::new();
        let mut c: usize = 0;
        while c < SUBHEAP_COUNT
            invariant
                c <= SUBHEAP_COUNT,
                free_lists@.len() == c,
                forall|j: int| 0 <= j < c ==> (#[trigger] free_lists@[j])@ == Seq::<usize>::empty(),
            decreases SUBHEAP_COUNT - c,
        {
            free_lists.push(Vec::new());
            c = c + 1;
        }
        let a = Allocator {
            pagesize,
            heap_begin,
            heap_end: heap_begin + max_heap_size,
            free_lists,
            active_heap_end: heap_begin,
            committed_heap_end: heap_begin,
            prefer_commit_strategy: CommitStrategy::Mprotect,
        };
        proof {
            assert(a@.free_lists =~= fresh_model(pagesize as nat, heap_begin as nat, max_heap_size as nat).free_lists);
            assert(0nat % (pagesize as nat) == 0);
        }
        Ok(a)
    }

    /// Allocates room for one value of type `T`.
    pub fn alloc_value<T>(&mut self) -> (r: Result<AllocStep, AllocError>)
        requires
            old(self)@.wf(),
        ensures
            final(self)@.wf(),
            (final(self)@, r) == alloc_outcome(old(self)@, core::mem::size_of::<T>() as nat),
            old(self)@.cursors_advance_to(final(self)@),
    {
        self.alloc_by_size(core::mem::size_of::<T>())
    }

    /// Allocates `len` bytes: from the pool up to `MAX_BLOCK_SIZE`, as an
    /// external region above.
    pub fn alloc_by_size(&mut self, len: usize) -> (r: Result<AllocStep, AllocError>)
        requires
            old(self)@.wf(),
        ensures
            final(self)@.wf(),
            (final(self)@, r) == alloc_outcome(old(self)@, len as nat),
            old(self)@.cursors_advance_to(final(self)@),
    {
        if len <= MAX_BLOCK_SIZE {
            let class_of_subheap = class_of_size(len);
            self.alloc_on_subheap(class_of_subheap)
        } else {
            self.alloc_on_external(len)
        }
    }

    /// Frees the block at `payload`, whose header word reads `header`.
    pub fn free(&mut self, payload: usize, header: usize) -> (r: Result<FreeStep, AllocError>)
        requires
            old(self)@.wf(),
        ensures
            final(self)@.wf(),
            (final(self)@, r) == free_outcome(old(self)@, payload, header),
            old(self)@.cursors_advance_to(final(self)@),
    {
        match decode_header(header) {
            HeaderKind::Pooled(class_of_subheap) => {
                self.free_on_subheap(payload, class_of_subheap);
                Ok(FreeStep::Pooled)
            },
            HeaderKind::External(size) => self.free_on_external(payload, size),
            HeaderKind::Invalid => Err(AllocError::InvalidHeader),
        }
    }

    /// Records that the `len` bytes at `addr` were committed with `used`.
    pub fn record_commit(&mut self, addr: usize, len: usize, used: CommitStrategy) -> (r: Result<(), AllocError>)
        requires
            old(self)@.wf(),
        ensures
            final(self)@.wf(),
            (final(self)@, r) == commit_outcome(old(self)@, addr, len, used),
            old(self)@.cursors_advance_to(final(self)@),
    {
        if addr != self.committed_heap_end || len % self.pagesize != 0
            || len > self.heap_end - self.committed_heap_end {
            return Err(AllocError::InvalidCommit);
        }
        proof {
            lemma_whole_pages(
                (self.committed_heap_end - self.heap_begin) as nat,
                len as nat,
                self.pagesize as nat,
            );
        }
        self.committed_heap_end = self.committed_heap_end + len;
        self.prefer_commit_strategy = used;
        Ok(())
    }

    /// The page size the allocator commits by.
    pub fn pagesize(&self) -> (r: usize)
        ensures
            r == self@.pagesize,
    {
        self.pagesize
    }

    /// Start of the reserved range.
    pub fn heap_begin(&self) -> (r: usize)
        ensures
            r == self@.heap_begin,
    {
        self.heap_begin
    }

    /// End of the reserved range.
    pub fn heap_end(&self) -> (r: usize)
        ensures
            r == self@.heap_end,
    {
        self.heap_end
    }

    /// End of the part of the reservation carved into blocks.
    pub fn active_heap_end(&self) -> (r: usize)
        ensures
            r == self@.active_heap_end,
    {
        self.active_heap_end
    }

    /// End of the part of the reservation that is committed.
    pub fn committed_heap_end(&self) -> (r: usize)
        ensures
            r == self@.committed_heap_end,
    {
        self.committed_heap_end
    }

    /// The commit strategy to try first.
    pub fn prefer_commit_strategy(&self) -> (r: CommitStrategy)
        ensures
            r == self@.prefer_commit_strategy,
    {
        self.prefer_commit_strategy
    }

    /// Number of freed blocks of class `class_of_subheap` waiting for reuse.
    pub fn free_count(&self, class_of_subheap: usize) -> (r: usize)
        requires
            self@.wf(),
            class_of_subheap < SUBHEAP_COUNT,
        ensures
            r == self@.free_lists[class_of_subheap as int].len(),
    {
        self.free_lists[class_of_subheap].len()
    }

    fn alloc_on_subheap(&mut self, class_of_subheap: usize) -> (r: Result<AllocStep, AllocError>)
        requires
            old(self)@.wf(),
            class_of_subheap < SUBHEAP_COUNT,
        ensures
            final(self)@.wf(),
            (final(self)@, r) == subheap_outcome(old(self)@, class_of_subheap as nat),
            old(self)@.cursors_advance_to(final(self)@),
    {
        if self.free_lists[class_of_subheap].len() > 0 {
            let ghost before = self@;
            let payload = self.free_lists[class_of_subheap].pop().unwrap();
            proof {
                let list = before.free_lists[class_of_subheap as int];
                assert(self@.free_lists =~= before.free_lists.update(class_of_subheap as int, list.drop_last()));
            }
            Ok(AllocStep::Reuse { payload })
        } else {
            self.extend_active_heap_end(class_of_subheap)
        }
    }

    fn free_on_subheap(&mut self, payload: usize, class_of_subheap: usize)
        requires
            old(self)@.wf(),
            class_of_subheap < SUBHEAP_COUNT,
        ensures
            final(self)@ == (HeapModel {
                free_lists: old(self)@.free_lists.update(
                    class_of_subheap as int,
                    old(self)@.free_lists[class_of_subheap as int].push(payload),
                ),
                ..old(self)@
            }),
    {
        let ghost before = self@;
        self.free_lists[class_of_subheap].push(payload);
        proof {
            assert(self@.free_lists =~= before.free_lists.update(
                class_of_subheap as int,
                before.free_lists[class_of_subheap as int].push(payload),
            ));
        }
    }

    fn alloc_on_external(&self, len: usize) -> (r: Result<AllocStep, AllocError>)
        requires
            self@.wf(),
            len > MAX_BLOCK_SIZE,
        ensures
            r == external_outcome(self@, len as nat),
    {
        if len > usize::MAX - HEADER_SIZE {
            return Err(AllocError::SizeOverflow);
        }
        let total = len + HEADER_SIZE;
        let rest = total % self.pagesize;
        if rest != 0 && self.pagesize - rest > usize::MAX - total {
            return Err(AllocError::SizeOverflow);
        }
        Ok(AllocStep::MapExternal { len: aligned_size(total, self.pagesize) })
    }

    fn free_on_external(&self, payload: usize, size: usize) -> (r: Result<FreeStep, AllocError>)
        ensures
            r == (if payload < HEADER_SIZE {
                Err(AllocError::InvalidAddress)
            } else {
                Ok(FreeStep::Release { addr: (payload - HEADER_SIZE) as usize, len: size })
            }),
    {
        if payload < HEADER_SIZE {
            Err(AllocError::InvalidAddress)
        } else {
            Ok(FreeStep::Release { addr: payload - HEADER_SIZE, len: size })
        }
    }

    fn extend_active_heap_end(&mut self, class_of_subheap: usize) -> (r: Result<AllocStep, AllocError>)
        requires
            old(self)@.wf(),
            class_of_subheap < SUBHEAP_COUNT,
        ensures
            final(self)@.wf(),
            (final(self)@, r) == extend_outcome(old(self)@, class_of_subheap as nat),
            old(self)@.cursors_advance_to(final(self)@),
    {
        let allocated_size = HEADER_SIZE + block_size_of_subheap(class_of_subheap);
        if allocated_size > self.heap_end - self.active_heap_end {
            return Err(AllocError::OutOfAddressSpace);
        }
        let new_active_heap_end = self.active_heap_end + allocated_size;
        if new_active_heap_end > self.committed_heap_end {
            proof {
                lemma_whole_pages(
                    (self.heap_end - self.heap_begin) as nat,
                    (self.committed_heap_end - self.heap_begin) as nat,
                    self.pagesize as nat,
                );
                assert((self.heap_end - self.committed_heap_end) as nat
                    == ((self.heap_end - self.heap_begin) - (self.committed_heap_end - self.heap_begin)) as nat);
                lemma_round_up_within(
                    (new_active_heap_end - self.committed_heap_end) as nat,
                    (self.heap_end - self.committed_heap_end) as nat,
                    self.pagesize as nat,
                );
            }
            let committed_size = aligned_size(new_active_heap_end - self.committed_heap_end, self.pagesize);
            return Ok(AllocStep::Commit {
                addr: self.committed_heap_end,
                len: committed_size,
                prefer: self.prefer_commit_strategy,
            });
        }
        let header_addr = self.active_heap_end;
        self.active_heap_end = new_active_heap_end;
        Ok(AllocStep::Place(Placement {
            header_addr,
            header: class_of_subheap,
            payload: header_addr + HEADER_SIZE,
        }))
    }
}

/// A pooled request of `n` bytes never leaves the pool, and the block it gets
/// is of the smallest class that holds `n`: a new block has that class in its
/// header, a reused one comes off that class's free list.
pub proof fn lemma_pooled_alloc_class(m: HeapModel, n: nat)
    requires
        m.wf(),
        0 < n <= MAX_BLOCK_SIZE,
    ensures
        ({
            let c = class_for_size(n);
            &&& n <= block_size_of(c)
            &&& forall|d: nat| d < c ==> block_size_of(d) < n
            &&& match alloc_outcome(m, n).1 {
                Ok(AllocStep::Place(pl)) => header_kind(pl.header) == HeaderKind::Pooled(c as usize)
                    && pl.payload == pl.header_addr + HEADER_SIZE,
                Ok(AllocStep::Reuse { payload }) => m.free_lists[c as int].len() > 0
                    && payload == m.free_lists[c as int].last(),
                Ok(AllocStep::Commit { .. }) => true,
                Ok(AllocStep::MapExternal { .. }) => false,
                Err(e) => e == AllocError::OutOfAddressSpace,
            }
        }),
{
    lemma_class_is_smallest_fit(n);
}

/// A request of more than `MAX_BLOCK_SIZE` bytes changes nothing in the
/// allocator and asks for a region of the request and its header rounded up
/// to whole pages; that size, written as the region's header, reads back as
/// an external size.
pub proof fn lemma_external_alloc_size(m: HeapModel, n: nat, region: usize)
    requires
        m.wf(),
        n > MAX_BLOCK_SIZE,
        region + HEADER_SIZE <= usize::MAX,
    ensures
        alloc_outcome(m, n).0 == m,
        match alloc_outcome(m, n).1 {
            Ok(AllocStep::MapExternal { len }) => {
                &&& len == round_up((n + HEADER_SIZE) as nat, m.pagesize)
                &&& len > MAX_BLOCK_SIZE
                &&& external_placement(region, len) == Ok::<Placement, AllocError>(Placement {
                    header_addr: region,
                    header: len,
                    payload: (region + HEADER_SIZE) as usize,
                })
                &&& header_kind(len) == HeaderKind::External(len)
            },
            Err(e) => e == AllocError::SizeOverflow,
            _ => false,
        },
{
    let total = (n + HEADER_SIZE) as nat;
    if total % m.pagesize != 0 {
        assert(round_up(total, m.pagesize) == total + (m.pagesize - total % m.pagesize) as nat);
    }
}

/// Freeing a pooled block and then asking for a block of its class hands back
/// that very block and leaves the allocator as it was before the free.
pub proof fn lemma_free_then_alloc_reuses(m: HeapModel, payload: usize, n: nat)
    requires
        m.wf(),
        n <= MAX_BLOCK_SIZE,
    ensures
        ({
            let (m1, r1) = free_outcome(m, payload, class_for_size(n) as usize);
            &&& r1 == Ok::<FreeStep, AllocError>(FreeStep::Pooled)
            &&& alloc_outcome(m1, n) == (m, Ok::<AllocStep, AllocError>(AllocStep::Reuse { payload }))
        }),
{
    let c = class_for_size(n);
    lemma_first_fitting_class(n, 0);
    let (m1, r1) = free_outcome(m, payload, c as usize);
    assert(header_kind(c as usize) == HeaderKind::Pooled(c as usize));
    let pushed = m.free_lists[c as int].push(payload);
    assert(m1.free_lists[c as int] == pushed);
    assert(pushed.drop_last() =~= m.free_lists[c as int]);
    let m2 = alloc_outcome(m1, n).0;
    assert(m2.free_lists =~= m.free_lists);
}

/// A new pooled block is carved exactly at the active end and the active end
/// moves past it: blocks carved earlier lie below it, so their headers are
/// never written again.
pub proof fn lemma_new_block_past_earlier_blocks(m: HeapModel, n: nat)
    requires
        m.wf(),
        n <= MAX_BLOCK_SIZE,
    ensures
        alloc_outcome(m, n).1 matches Ok(AllocStep::Place(pl)) ==> {
            &&& pl.header_addr == m.active_heap_end
            &&& alloc_outcome(m, n).0.active_heap_end
                == pl.payload + block_size_of(class_for_size(n))
        },
{
}

/// A request of `MAX_BLOCK_SIZE` bytes is served by the largest class of the
/// pool; one byte more goes to an external region and leaves the allocator as
/// it was.
pub proof fn lemma_pool_boundary(m: HeapModel)
    requires
        m.wf(),
    ensures
        alloc_outcome(m, MAX_BLOCK_SIZE as nat) == subheap_outcome(m, (SUBHEAP_COUNT - 1) as nat),
        alloc_outcome(m, MAX_BLOCK_SIZE as nat + 1).0 == m,
        alloc_outcome(m, MAX_BLOCK_SIZE as nat + 1).1 matches Ok(AllocStep::MapExternal { .. })
            || alloc_outcome(m, MAX_BLOCK_SIZE as nat + 1).1 == Err::<AllocStep, AllocError>(AllocError::SizeOverflow),
{
    lemma_largest_class_boundary();
}

} // verus!
