//! Size classes, header words and page rounding.
use vstd::prelude::*;
use vstd::arithmetic::power2::pow2;

verus! {

/// Bytes taken by the header word that precedes every payload.
pub const HEADER_SIZE: usize = 8;

/// Number of size classes served from the pooled heap.
pub const SUBHEAP_COUNT: usize = 7;

/// Block size of the largest class: the largest request served from the pool.
pub const MAX_BLOCK_SIZE: usize = 1024;

/// Block size of class `c`: 16 bytes, doubling with each class.
pub open spec fn block_size_of(c: nat) -> nat {
    16 * pow2(c)
}

/// The class that serves a request of `n` bytes, searching upward from `c`:
/// the first class whose block holds `n`, or the largest class.
pub open spec fn first_fitting_class(n: nat, c: nat) -> nat
    decreases SUBHEAP_COUNT - c,
{
    if c + 1 >= SUBHEAP_COUNT || n <= block_size_of(c) {
        c
    } else {
        first_fitting_class(n, c + 1)
    }
}

/// The class that serves a pooled request of `n` bytes.
pub open spec fn class_for_size(n: nat) -> nat {
    first_fitting_class(n, 0)
}

/// The smallest multiple of `a` that is at least `x`.
pub open spec fn round_up(x: nat, a: nat) -> nat
    recommends
        a > 0,
{
    if x % a == 0 {
        x
    } else {
        x + (a - x % a) as nat
    }
}

/// What a header word says of the allocation that follows it.
#[derive(PartialEq, Eq, Structural, Clone, Copy, Debug)]
pub enum HeaderKind {
    /// A pooled block of the given size class.
    Pooled(usize),
    /// An independently mapped region of the given total size in bytes.
    External(usize),
    /// A word at most `MAX_BLOCK_SIZE` that names no size class.
    Invalid,
}

/// How a header word is read: at most `MAX_BLOCK_SIZE` is a class index,
/// anything larger the byte size of an external region.
pub open spec fn header_kind(word: usize) -> HeaderKind {
    if word > MAX_BLOCK_SIZE {
        HeaderKind::External(word)
    } else if word < SUBHEAP_COUNT {
        HeaderKind::Pooled(word)
    } else {
        HeaderKind::Invalid
    }
}

proof fn lemma_block_sizes()
    ensures
        block_size_of(0) == 16,
        block_size_of(1) == 32,
        block_size_of(2) == 64,
        block_size_of(3) == 128,
        block_size_of(4) == 256,
        block_size_of(5) == 512,
        block_size_of(6) == 1024,
{
    vstd::arithmetic::power2::lemma2_to64();
}

/// Block size of a size class.
pub fn block_size_of_subheap(class_of_subheap: usize) -> (r: usize)
    requires
        class_of_subheap < SUBHEAP_COUNT,
    ensures
        r == block_size_of(class_of_subheap as nat),
        r <= MAX_BLOCK_SIZE,
{
    proof {
        lemma_block_sizes();
        let c = class_of_subheap;
        assert(c == 0usize ==> (2usize << (c + 3usize)) == 16usize) by (bit_vector);
        assert(c == 1usize ==> (2usize << (c + 3usize)) == 32usize) by (bit_vector);
        assert(c == 2usize ==> (2usize << (c + 3usize)) == 64usize) by (bit_vector);
        assert(c == 3usize ==> (2usize << (c + 3usize)) == 128usize) by (bit_vector);
        assert(c == 4usize ==> (2usize << (c + 3usize)) == 256usize) by (bit_vector);
        assert(c == 5usize ==> (2usize << (c + 3usize)) == 512usize) by (bit_vector);
        assert(c == 6usize ==> (2usize << (c + 3usize)) == 1024usize) by (bit_vector);
    }
    2usize << (class_of_subheap + 3)
}

/// `original` rounded up to a multiple of `alignment`.
pub fn aligned_size(original: usize, alignment: usize) -> (r: usize)
    requires
        alignment > 0,
        round_up(original as nat, alignment as nat) <= usize::MAX,
    ensures
        r == round_up(original as nat, alignment as nat),
{
    let rest = original % alignment;
    if rest == 0 {
        original
    } else {
        original + (alignment - rest)
    }
}

/// The size class that serves a pooled request of `len` bytes: the smallest
/// class whose block holds `len`, or the largest class.
pub fn class_of_size(len: usize) -> (r: usize)
    ensures
        r == class_for_size(len as nat),
        r < SUBHEAP_COUNT,
{
    let mut c: usize = 0;
    while c + 1 < SUBHEAP_COUNT
        invariant
            c < SUBHEAP_COUNT,
            first_fitting_class(len as nat, 0) == first_fitting_class(len as nat, c as nat),
        decreases SUBHEAP_COUNT - c,
    {
        if len <= block_size_of_subheap(c) {
            return c;
        }
        c = c + 1;
    }
    c
}

/// Reads a header word.
pub fn decode_header(word: usize) -> (r: HeaderKind)
    ensures
        r == header_kind(word),
{
    if word > MAX_BLOCK_SIZE {
        HeaderKind::External(word)
    } else if word < SUBHEAP_COUNT {
        HeaderKind::Pooled(word)
    } else {
        HeaderKind::Invalid
    }
}

/// The search for a class from `c` on ends at a class no smaller than `c`,
/// passes only classes too small for `n`, and ends at one that holds `n`
/// whenever the largest class does.
pub(crate) proof fn lemma_first_fitting_class(n: nat, c: nat)
    requires
        c < SUBHEAP_COUNT,
    ensures
        c <= first_fitting_class(n, c) < SUBHEAP_COUNT,
        forall|j: nat| c <= j < first_fitting_class(n, c) ==> block_size_of(j) < n,
        n <= MAX_BLOCK_SIZE ==> n <= block_size_of(first_fitting_class(n, c)),
    decreases SUBHEAP_COUNT - c,
{
    lemma_block_sizes();
    if !(c + 1 >= SUBHEAP_COUNT || n <= block_size_of(c)) {
        lemma_first_fitting_class(n, c + 1);
    }
}

/// A pooled request is served by the smallest class whose block holds it.
pub proof fn lemma_class_is_smallest_fit(n: nat)
    requires
        0 < n <= MAX_BLOCK_SIZE,
    ensures
        class_for_size(n) < SUBHEAP_COUNT,
        n <= block_size_of(class_for_size(n)),
        forall|c: nat| c < class_for_size(n) ==> block_size_of(c) < n,
{
    lemma_first_fitting_class(n, 0);
}

/// A request of exactly `MAX_BLOCK_SIZE` bytes is served by the largest class,
/// whose block is exactly that size.
pub proof fn lemma_largest_class_boundary()
    ensures
        class_for_size(MAX_BLOCK_SIZE as nat) == SUBHEAP_COUNT - 1,
        block_size_of((SUBHEAP_COUNT - 1) as nat) == MAX_BLOCK_SIZE,
{
    lemma_block_sizes();
    lemma_first_fitting_class(MAX_BLOCK_SIZE as nat, 0);
    assert(first_fitting_class(MAX_BLOCK_SIZE as nat, 6) == 6);
    assert(first_fitting_class(MAX_BLOCK_SIZE as nat, 5) == 6);
    assert(first_fitting_class(MAX_BLOCK_SIZE as nat, 4) == 6);
    assert(first_fitting_class(MAX_BLOCK_SIZE as nat, 3) == 6);
    assert(first_fitting_class(MAX_BLOCK_SIZE as nat, 2) == 6);
    assert(first_fitting_class(MAX_BLOCK_SIZE as nat, 1) == 6);
}

/// The size class of every block is read back from its header as that class,
/// and the size of every external region, which passes `MAX_BLOCK_SIZE`, as
/// that size: the two kinds of header word never meet.
pub proof fn lemma_header_round_trip(c: usize, size: usize)
    requires
        c < SUBHEAP_COUNT,
        size > MAX_BLOCK_SIZE,
    ensures
        header_kind(c) == HeaderKind::Pooled(c),
        header_kind(size) == HeaderKind::External(size),
{
}

} // verus!
