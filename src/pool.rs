//! A pool of pixel storages, bucketed by the power of two that covers the
//! longer side of a request.

use crate::buffer::{byte_len, checked_byte_len, valid_dims, zeros, PixelBuffer, MAX_DIMENSION};
use vstd::arithmetic::power2::{lemma2_to64, lemma_pow2_strictly_increases, lemma_pow2_unfold, pow2};
use vstd::prelude::*;

verus! {

/// Number of size classes: sides 2^0 up to 2^16.
pub const SIZE_CLASS_COUNT: usize = 17;

/// `ceil(log2(n))` for `n >= 1` (and 0 for `n <= 1`).
pub open spec fn ceil_log2(n: nat) -> nat
    decreases n,
{
    if n <= 1 {
        0
    } else {
        1 + ceil_log2(((n + 1) / 2) as nat)
    }
}

/// The size class of a `w` by `h` request: `ceil(log2(max(w, h)))`.
pub open spec fn size_class(w: u32, h: u32) -> nat {
    ceil_log2(if w >= h { w as nat } else { h as nat })
}

/// The class is the least `c` with `2^c >= n`.
pub proof fn lemma_ceil_log2_is_least_cover(n: nat)
    requires
        n >= 1,
    ensures
        pow2(ceil_log2(n)) >= n,
        ceil_log2(n) > 0 ==> pow2((ceil_log2(n) - 1) as nat) < n,
    decreases n,
{
    if n > 1 {
        let m = ((n + 1) / 2) as nat;
        lemma2_to64();
        lemma_ceil_log2_is_least_cover(m);
        lemma_pow2_unfold(ceil_log2(n));
        if ceil_log2(m) > 0 {
            lemma_pow2_unfold(ceil_log2(m));
        }
    } else {
        lemma2_to64();
    }
}

/// `ceil_log2(n) <= k` whenever `n <= 2^k`.
pub proof fn lemma_ceil_log2_le(n: nat, k: nat)
    requires
        n <= pow2(k),
    ensures
        ceil_log2(n) <= k,
    decreases k,
{
    if n > 1 {
        if k == 0 {
            lemma2_to64();
        } else {
            lemma_pow2_unfold(k);
            lemma_ceil_log2_le(((n + 1) / 2) as nat, (k - 1) as nat);
        }
    }
}

/// A request has a class below `SIZE_CLASS_COUNT` exactly when both sides
/// are at most 2^16.
pub proof fn lemma_size_class_in_range(w: u32, h: u32)
    requires
        w >= 1,
        h >= 1,
    ensures
        size_class(w, h) < SIZE_CLASS_COUNT <==> (w <= MAX_DIMENSION && h <= MAX_DIMENSION),
{
    let n: nat = if w >= h { w as nat } else { h as nat };
    lemma2_to64();
    if n <= 65536 {
        lemma_ceil_log2_le(n, 16);
    } else {
        lemma_ceil_log2_is_least_cover(n);
        if ceil_log2(n) <= 16 {
            if ceil_log2(n) < 16 {
                lemma_pow2_strictly_increases(ceil_log2(n), 16);
            }
        }
    }
}

/// The size class of a request with both sides at least 1.
pub fn size_class_of(w: u32, h: u32) -> (r: u32)
    requires
        w >= 1,
        h >= 1,
    ensures
        r == size_class(w, h),
        r <= 32,
{
    let n = if w >= h { w } else { h };
    proof {
        lemma2_to64();
        lemma_ceil_log2_le(n as nat, 32);
    }
    class_of_side(n)
}

fn class_of_side(n: u32) -> (r: u32)
    requires
        n >= 1,
    ensures
        r == ceil_log2(n as nat),
    decreases n,
{
    if n <= 1 {
        0
    } else {
        let m = n / 2 + n % 2;
        assert(m == (n + 1) / 2);
        proof {
            lemma2_to64();
            lemma_ceil_log2_le(n as nat, 32);
        }
        1 + class_of_side(m)
    }
}

/// `s` without its top element, when it has one.
pub open spec fn popped<A>(s: Seq<A>) -> Seq<A> {
    if s.len() == 0 {
        s
    } else {
        s.drop_last()
    }
}

/// What `take_or_allocate` hands out for a `w` by `h` request: a zeroed
/// buffer of exactly that size when the request is within limits, else
/// nothing.
pub open spec fn acquired(w: u32, h: u32, r: Option<PixelBuffer>) -> bool {
    &&& (r is Some <==> valid_dims(w as int, h as int) && byte_len(w as int, h as int)
        <= usize::MAX)
    &&& (r matches Some(b) ==> b.wf() && b.width() == w && b.height() == h && b@ == zeros(
        byte_len(w as int, h as int),
    ))
}

/// How `take_or_allocate` changes the stacks: the class of the request
/// loses its top storage when a buffer is handed out, and nothing changes
/// otherwise.
pub open spec fn took(
    before: Seq<Seq<Seq<u8>>>,
    after: Seq<Seq<Seq<u8>>>,
    w: u32,
    h: u32,
    r: Option<PixelBuffer>,
) -> bool {
    &&& acquired(w, h, r)
    &&& (r is Some ==> after == before.update(
        size_class(w, h) as int,
        popped(before[size_class(w, h) as int]),
    ))
    &&& (r is None ==> after == before)
}

/// How `release` changes the stacks: the storage of `buf` goes on top of
/// the stack of its class.
pub open spec fn released(
    before: Seq<Seq<Seq<u8>>>,
    after: Seq<Seq<Seq<u8>>>,
    buf: PixelBuffer,
) -> bool {
    after == before.update(
        size_class(buf.width(), buf.height()) as int,
        before[size_class(buf.width(), buf.height()) as int].push(buf@),
    )
}

/// Every buffer the pool hands out is zeroed and sized to the request,
/// whatever the pool held before: a fresh pool and a long-lived one give
/// the same buffer.
pub proof fn lemma_acquire_independent_of_pool(
    w: u32,
    h: u32,
    r1: Option<PixelBuffer>,
    r2: Option<PixelBuffer>,
)
    requires
        acquired(w, h, r1),
        acquired(w, h, r2),
    ensures
        r1 is Some <==> r2 is Some,
        r1 matches Some(b1) ==> (r2 matches Some(b2) ==> b1@ == b2@ && b1.width() == b2.width()
            && b1.height() == b2.height()),
{
}

/// Seventeen LIFO stacks of pixel storages, indexed by size class.
pub struct PixmapPool {
    size_classes: Vec<Vec<Vec<u8>>>,
}

impl PixmapPool {
    /// The stacks, bottom first, each storage by its bytes.
    pub closed spec fn stacks(&self) -> Seq<Seq<Seq<u8>>> {
        Seq::new(
            self.size_classes@.len(),
            |c: int| Seq::new(self.size_classes@[c]@.len(), |k: int| self.size_classes@[c]@[k]@),
        )
    }

    pub open spec fn wf(&self) -> bool {
        self.stacks().len() == SIZE_CLASS_COUNT
    }

    /// A pool with seventeen empty stacks.
    pub fn new() -> (r: PixmapPool)
        ensures
            r.wf(),
            forall|c: int| 0 <= c < SIZE_CLASS_COUNT ==> #[trigger] r.stacks()[c].len() == 0,
    {
        PixmapPool::new_with_capacity(0)
    }

    /// A pool with seventeen empty stacks; the lower eight classes reserve
    /// room for `capacity` storages, the others for half as many.
    pub fn new_with_capacity(capacity: usize) -> (r: PixmapPool)
        ensures
            r.wf(),
            forall|c: int| 0 <= c < SIZE_CLASS_COUNT ==> #[trigger] r.stacks()[c].len() == 0,
    {
        let mut size_classes: Vec<Vec<Vec<u8>>> = Vec::new();
        let mut i: usize = 0;
        while i < SIZE_CLASS_COUNT
            invariant
                i <= SIZE_CLASS_COUNT,
                size_classes@.len() == i,
                forall|c: int| 0 <= c < i ==> #[trigger] size_classes@[c]@.len() == 0,
            decreases SIZE_CLASS_COUNT - i,
        {
            let reserve = if i < 8 {
                capacity
            } else {
                capacity / 2
            };
            size_classes.push(Vec::with_capacity(reserve));
            i = i + 1;
        }
        PixmapPool { size_classes }
    }

    /// A zeroed `w` by `h` buffer. Its storage is the top of the stack of the
    /// request's size class, or a new storage when that stack is empty; a
    /// reused storage keeps its allocation and grows only past it. `None`,
    /// with the pool unchanged, when a side is zero or above 2^16.
    pub fn take_or_allocate(&mut self, w: u32, h: u32) -> (r: Option<PixelBuffer>)
        requires
            old(self).wf(),
        ensures
            final(self).wf(),
            took(old(self).stacks(), final(self).stacks(), w, h, r),
    {
        if w == 0 || h == 0 || w > MAX_DIMENSION || h > MAX_DIMENSION {
            return None;
        }
        proof {
            lemma_size_class_in_range(w, h);
        }
        let len = match checked_byte_len(w, h) {
            Some(n) => n,
            None => {
                return None;
            },
        };
        let c = size_class_of(w, h) as usize;
        let ghost before = self.stacks();
        let popped_storage = self.size_classes[c].pop();
        proof {
            assert(self.stacks()[c as int] =~= popped(before[c as int]));
            assert(self.stacks() =~= before.update(c as int, popped(before[c as int])));
        }
        let mut storage = match popped_storage {
            Some(s) => s,
            None => Vec::with_capacity(len),
        };
        storage.clear();
        let mut i: usize = 0;
        while i < len
            invariant
                i <= len,
                storage@ == zeros(i as int),
            decreases len - i,
        {
            storage.push(0u8);
            i = i + 1;
            assert(storage@ =~= zeros(i as int));
        }
        PixelBuffer::from_storage(storage, w, h)
    }

    /// Pushes the storage of `buf` onto the stack of its size class.
    pub fn release(&mut self, buf: PixelBuffer)
        requires
            old(self).wf(),
            buf.wf(),
        ensures
            final(self).wf(),
            released(old(self).stacks(), final(self).stacks(), buf),
    {
        proof {
            lemma_size_class_in_range(buf.width(), buf.height());
        }
        let c = size_class_of(buf.width(), buf.height()) as usize;
        let ghost before = self.stacks();
        let ghost bytes = buf@;
        let storage = buf.into_storage();
        self.size_classes[c].push(storage);
        proof {
            assert(self.stacks()[c as int] =~= before[c as int].push(bytes));
            assert(self.stacks() =~= before.update(c as int, before[c as int].push(bytes)));
        }
    }
}

} // verus!
