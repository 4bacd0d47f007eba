//! The layer cache: a bounded LRU map from a fingerprint of a layer's
//! content, size and transform to its rendered pixels, working together
//! with the buffer pool.

use crate::buffer::PixelBuffer;
use crate::geom::Transform;
use crate::pool::{acquired, released, took, PixmapPool};
use vstd::prelude::*;

verus! {

#[verifier::external_type_specification]
#[verifier::external_body]
#[verifier::reject_recursive_types(K)]
#[verifier::reject_recursive_types(V)]
#[verifier::reject_recursive_types(S)]
pub struct ExLruCache<K, V, S>(lru::LruCache<K, V, S>);

#[verifier::external_type_specification]
#[verifier::external_body]
pub struct ExAHashRandomState(ahash::RandomState);

/// What an LRU cache holds, most recently used first.
pub uninterp spec fn lru_entries(c: lru::LruCache<u64, PixelBuffer, ahash::RandomState>) -> Seq<(u64, PixelBuffer)>;

/// The number of entries an LRU cache was made to hold.
pub uninterp spec fn lru_capacity(c: lru::LruCache<u64, PixelBuffer, ahash::RandomState>) -> nat;

/// Whether some entry of `e` has key `k`.
pub open spec fn has_key(e: Seq<(u64, PixelBuffer)>, k: u64) -> bool {
    exists|i: int| 0 <= i < e.len() && #[trigger] e[i].0 == k
}

/// The position of key `k` in `e`, or -1.
pub open spec fn key_pos(e: Seq<(u64, PixelBuffer)>, k: u64) -> int {
    if has_key(e, k) {
        choose|i: int| 0 <= i < e.len() && #[trigger] e[i].0 == k
    } else {
        -1
    }
}

/// The entries after pushing `(k, v)`: an entry with key `k` is replaced,
/// else the least recently used entry leaves when the cache is full; the
/// new entry becomes the most recently used.
pub open spec fn after_push(e: Seq<(u64, PixelBuffer)>, cap: nat, k: u64, v: PixelBuffer) -> Seq<
    (u64, PixelBuffer),
> {
    if has_key(e, k) {
        seq![(k, v)] + e.remove(key_pos(e, k))
    } else if e.len() == cap {
        seq![(k, v)] + e.drop_last()
    } else {
        seq![(k, v)] + e
    }
}

/// The entry that a push of key `k` takes out of `e`, if any.
pub open spec fn push_returns(e: Seq<(u64, PixelBuffer)>, cap: nat, k: u64) -> Option<
    (u64, PixelBuffer),
> {
    if has_key(e, k) {
        Some(e[key_pos(e, k)])
    } else if e.len() == cap && cap > 0 {
        Some(e.last())
    } else {
        None
    }
}

/// The entries after marking key `k` as most recently used.
pub open spec fn after_promote(e: Seq<(u64, PixelBuffer)>, k: u64) -> Seq<(u64, PixelBuffer)> {
    if has_key(e, k) {
        seq![e[key_pos(e, k)]] + e.remove(key_pos(e, k))
    } else {
        e
    }
}

/// Relies on lru::LruCache::with_hasher: an empty cache holding at most
/// `cap` entries.
#[verifier::external_body]
fn lru_new(cap: usize, hash_state: ahash::RandomState) -> (r: lru::LruCache<
    u64,
    PixelBuffer,
    ahash::RandomState,
>)
    requires
        cap > 0,
    ensures
        lru_entries(r) == Seq::<(u64, PixelBuffer)>::empty(),
        lru_capacity(r) == cap,
{
    lru::LruCache::with_hasher(std::num::NonZeroUsize::new(cap).unwrap(), hash_state)
}

/// Relies on lru::LruCache::contains: whether the key is present, without
/// touching the order.
#[verifier::external_body]
fn lru_contains(c: &lru::LruCache<u64, PixelBuffer, ahash::RandomState>, k: u64) -> (r: bool)
    ensures
        r == has_key(lru_entries(*c), k),
{
    c.contains(&k)
}

/// Relies on lru::LruCache::peek: the value under the key, without touching
/// the order.
#[verifier::external_body]
fn lru_peek(c: &lru::LruCache<u64, PixelBuffer, ahash::RandomState>, k: u64) -> (r: Option<&PixelBuffer>)
    ensures
        r is Some <==> has_key(lru_entries(*c), k),
        r matches Some(b) ==> exists|i: int|
            0 <= i < lru_entries(*c).len() && #[trigger] lru_entries(*c)[i] == (k, *b),
{
    c.peek(&k)
}

/// Relies on lru::LruCache::promote: the entry under the key, if any, becomes
/// the most recently used.
#[verifier::external_body]
fn lru_promote(c: &mut lru::LruCache<u64, PixelBuffer, ahash::RandomState>, k: u64)
    ensures
        lru_entries(*final(c)) == after_promote(lru_entries(*old(c)), k),
        lru_capacity(*final(c)) == lru_capacity(*old(c)),
{
    c.promote(&k)
}

/// Relies on lru::LruCache::push: inserts or replaces the entry and returns
/// the entry it replaced or evicted.
#[verifier::external_body]
fn lru_push(c: &mut lru::LruCache<u64, PixelBuffer, ahash::RandomState>, k: u64, v: PixelBuffer) -> (r: Option<
    (u64, PixelBuffer),
>)
    ensures
        lru_entries(*final(c)) == after_push(lru_entries(*old(c)), lru_capacity(*old(c)), k, v),
        r == push_returns(lru_entries(*old(c)), lru_capacity(*old(c)), k),
        lru_capacity(*final(c)) == lru_capacity(*old(c)),
{
    c.push(k, v)
}

/// Relies on ahash::RandomState::new: a hashing state with fresh seeds.
#[verifier::external_body]
fn new_hash_state() -> (r: ahash::RandomState) {
    ahash::RandomState::new()
}

/// Relies on ahash::RandomState::hash_one: a 64-bit digest of the key's
/// fields under this state's seeds. Nothing is promised of its value.
#[verifier::external_body]
fn hash_layer_key(state: &ahash::RandomState, key: &LayerKey) -> (r: u64) {
    let t = key.transform;
    state.hash_one((key.content, key.width, key.height, [t.sx, t.ky, t.kx, t.sy, t.tx, t.ty]))
}

/// Relies on ahash::RandomState::hash_one: a 64-bit digest of the text under
/// this state's seeds. Nothing is promised of its value.
#[verifier::external_body]
fn hash_text(state: &ahash::RandomState, text: &str) -> (r: u64) {
    state.hash_one(text)
}

/// What a layer's fingerprint is derived from: the content hash of the node,
/// the size of the layer and the transform it was rendered under.
#[derive(Debug, Clone, Copy, PartialEq, Eq, Structural)]
pub struct LayerKey {
    pub content: u64,
    pub width: u32,
    pub height: u32,
    pub transform: Transform,
}

/// Keys pairwise distinct, at most `cap` entries, every buffer well formed.
pub open spec fn entries_wf(e: Seq<(u64, PixelBuffer)>, cap: nat) -> bool {
    &&& e.len() <= cap
    &&& forall|i: int, j: int| 0 <= i < j < e.len() ==> #[trigger] e[i].0 != #[trigger] e[j].0
    &&& forall|i: int| 0 <= i < e.len() ==> (#[trigger] e[i]).1.wf()
}

/// The buffer stored under `k`, if any.
pub open spec fn lookup(e: Seq<(u64, PixelBuffer)>, k: u64) -> Option<PixelBuffer> {
    if has_key(e, k) {
        Some(e[key_pos(e, k)].1)
    } else {
        None
    }
}

proof fn lemma_key_pos(e: Seq<(u64, PixelBuffer)>, k: u64)
    requires
        has_key(e, k),
    ensures
        0 <= key_pos(e, k) < e.len(),
        e[key_pos(e, k)].0 == k,
{
}

proof fn lemma_key_pos_unique(e: Seq<(u64, PixelBuffer)>, cap: nat, k: u64, i: int)
    requires
        entries_wf(e, cap),
        0 <= i < e.len(),
        e[i].0 == k,
    ensures
        key_pos(e, k) == i,
{
    assert(has_key(e, k));
    lemma_key_pos(e, k);
    let p = key_pos(e, k);
    if p < i {
        assert(e[p].0 != e[i].0);
    } else if p > i {
        assert(e[i].0 != e[p].0);
    }
}

proof fn lemma_move_to_front_wf(e: Seq<(u64, PixelBuffer)>, cap: nat, p: int, item: (u64, PixelBuffer))
    requires
        entries_wf(e, cap),
        0 <= p < e.len(),
        item.0 == e[p].0,
        item.1.wf(),
    ensures
        entries_wf(seq![item] + e.remove(p), cap),
{
    let n = seq![item] + e.remove(p);
    assert forall|i: int, j: int| 0 <= i < j < n.len() implies #[trigger] n[i].0 != #[trigger] n[j].0 by {
        let ej = if j - 1 < p { j - 1 } else { j };
        if i == 0 {
            assert(n[j] == e[ej]);
            assert(ej != p);
            if ej < p {
                assert(e[ej].0 != e[p].0);
            } else {
                assert(e[p].0 != e[ej].0);
            }
        } else {
            let ei = if i - 1 < p { i - 1 } else { i };
            assert(n[i] == e[ei]);
            assert(n[j] == e[ej]);
            assert(ei < ej);
        }
    }
    assert forall|i: int| 0 <= i < n.len() implies (#[trigger] n[i]).1.wf() by {
        if i > 0 {
            let ei = if i - 1 < p { i - 1 } else { i };
            assert(n[i] == e[ei]);
        }
    }
}

proof fn lemma_prepend_wf(e: Seq<(u64, PixelBuffer)>, cap: nat, item: (u64, PixelBuffer))
    requires
        entries_wf(e, cap),
        e.len() < cap,
        !has_key(e, item.0),
        item.1.wf(),
    ensures
        entries_wf(seq![item] + e, cap),
{
    let n = seq![item] + e;
    assert forall|i: int, j: int| 0 <= i < j < n.len() implies #[trigger] n[i].0 != #[trigger] n[j].0 by {
        assert(n[j] == e[j - 1]);
        if i > 0 {
            assert(n[i] == e[i - 1]);
        } else {
            if n[j].0 == item.0 {
                assert(e[j - 1].0 == item.0);
            }
        }
    }
    assert forall|i: int| 0 <= i < n.len() implies (#[trigger] n[i]).1.wf() by {
        if i > 0 {
            assert(n[i] == e[i - 1]);
        }
    }
}

proof fn lemma_after_push_wf(e: Seq<(u64, PixelBuffer)>, cap: nat, k: u64, v: PixelBuffer)
    requires
        entries_wf(e, cap),
        cap >= 1,
        v.wf(),
    ensures
        entries_wf(after_push(e, cap, k, v), cap),
        push_returns(e, cap, k) matches Some(ev) ==> ev.1.wf(),
{
    if has_key(e, k) {
        lemma_key_pos(e, k);
        lemma_move_to_front_wf(e, cap, key_pos(e, k), (k, v));
    } else if e.len() == cap {
        let d = e.drop_last();
        assert(entries_wf(d, cap)) by {
            assert forall|i: int, j: int| 0 <= i < j < d.len() implies #[trigger] d[i].0
                != #[trigger] d[j].0 by {
                assert(d[i] == e[i] && d[j] == e[j]);
            }
            assert forall|i: int| 0 <= i < d.len() implies (#[trigger] d[i]).1.wf() by {
                assert(d[i] == e[i]);
            }
        }
        assert(!has_key(d, k)) by {
            if has_key(d, k) {
                let i = choose|i: int| 0 <= i < d.len() && #[trigger] d[i].0 == k;
                assert(e[i].0 == k);
            }
        }
        lemma_prepend_wf(d, cap, (k, v));
        assert(e[e.len() - 1].1.wf());
    } else {
        lemma_prepend_wf(e, cap, (k, v));
    }
}

proof fn lemma_after_promote_wf(e: Seq<(u64, PixelBuffer)>, cap: nat, k: u64)
    requires
        entries_wf(e, cap),
    ensures
        entries_wf(after_promote(e, k), cap),
        after_promote(e, k).to_set() == e.to_set(),
{
    if has_key(e, k) {
        lemma_key_pos(e, k);
        let p = key_pos(e, k);
        lemma_move_to_front_wf(e, cap, p, e[p]);
        let n = seq![e[p]] + e.remove(p);
        assert(n.to_set() =~= e.to_set()) by {
            assert forall|x| n.to_set().contains(x) implies e.to_set().contains(x) by {
                let i = choose|i: int| 0 <= i < n.len() && n[i] == x;
                if i > 0 {
                    let ei = if i - 1 < p { i - 1 } else { i };
                    assert(n[i] == e[ei]);
                }
            }
            assert forall|x| e.to_set().contains(x) implies n.to_set().contains(x) by {
                let i = choose|i: int| 0 <= i < e.len() && e[i] == x;
                if i == p {
                    assert(n[0] == x);
                } else if i < p {
                    assert(n[i + 1] == x);
                } else {
                    assert(n[i] == x);
                }
            }
        }
    }
}

struct CacheState {
    lru: lru::LruCache<u64, PixelBuffer, ahash::RandomState>,
    hash_state: ahash::RandomState,
}

/// The rendering cache. A disabled cache allocates nothing and passes every
/// layer through.
pub struct SvgrCache {
    cache: Option<CacheState>,
}

/// What the cache says about a layer before it is rendered.
pub enum LayerSlot {
    /// The layer is stored under this fingerprint; composite it from there.
    Cached(u64),
    /// A zeroed buffer to render the layer into; `key` is the fingerprint to
    /// store it under afterwards, `None` when the cache is disabled.
    Render { key: Option<u64>, buffer: PixelBuffer },
    /// No buffer could be had for the layer's size: the layer is skipped.
    Unavailable,
}

/// What `probe` answers for fingerprint `fp` and a `w` by `h` layer, given
/// the entries before the call.
pub open spec fn probed(e: Seq<(u64, PixelBuffer)>, fp: u64, w: u32, h: u32, r: LayerSlot) -> bool {
    if has_key(e, fp) {
        r == LayerSlot::Cached(fp)
    } else {
        match r {
            LayerSlot::Render { key, buffer } => key == Some(fp) && acquired(w, h, Some(buffer)),
            LayerSlot::Unavailable => acquired(w, h, None),
            LayerSlot::Cached(_) => false,
        }
    }
}

/// A layer stored under a fingerprint is what a later probe of that
/// fingerprint finds: the probe answers `Cached`, and the stored buffer is
/// the one that was rendered.
pub proof fn lemma_stored_layer_is_served(
    e: Seq<(u64, PixelBuffer)>,
    cap: nat,
    fp: u64,
    b: PixelBuffer,
    w: u32,
    h: u32,
    r: LayerSlot,
)
    requires
        entries_wf(e, cap),
        cap >= 1,
        b.wf(),
        probed(after_push(e, cap, fp, b), fp, w, h, r),
    ensures
        r == LayerSlot::Cached(fp),
        lookup(after_push(e, cap, fp, b), fp) == Some(b),
{
    let n = after_push(e, cap, fp, b);
    if has_key(e, fp) {
        lemma_key_pos(e, fp);
    }
    assert(n[0] == (fp, b));
    assert(n[0].0 == fp);
    assert(has_key(n, fp));
    lemma_after_push_wf(e, cap, fp, b);
    lemma_key_pos_unique(n, cap, fp, 0);
}

/// On a miss, the buffer a layer is rendered into is the same, byte for
/// byte and in size, as the one a disabled cache hands out for that size.
pub proof fn lemma_render_buffer_independent_of_cache(
    e: Seq<(u64, PixelBuffer)>,
    fp: u64,
    w: u32,
    h: u32,
    r: LayerSlot,
    plain: PixelBuffer,
)
    requires
        !has_key(e, fp),
        probed(e, fp, w, h, r),
        acquired(w, h, Some(plain)),
    ensures
        r matches LayerSlot::Render { buffer, .. } && buffer@ == plain@ && buffer.width()
            == plain.width() && buffer.height() == plain.height(),
{
}

impl SvgrCache {
    pub closed spec fn is_enabled(&self) -> bool {
        self.cache is Some
    }

    /// The stored layers, most recently used first; empty when disabled.
    pub closed spec fn entries(&self) -> Seq<(u64, PixelBuffer)> {
        match self.cache {
            Some(c) => lru_entries(c.lru),
            None => Seq::empty(),
        }
    }

    /// How many layers the cache holds at most; 0 when disabled.
    pub closed spec fn capacity(&self) -> nat {
        match self.cache {
            Some(c) => lru_capacity(c.lru),
            None => 0,
        }
    }

    pub open spec fn wf(&self) -> bool {
        &&& entries_wf(self.entries(), self.capacity())
        &&& (self.is_enabled() <==> self.capacity() >= 1)
    }

    /// A cache of `size` layers; disabled when `size` is 0.
    pub fn new(size: usize) -> (r: SvgrCache)
        ensures
            r.wf(),
            r.is_enabled() <==> size > 0,
            r.capacity() == size,
            r.entries().len() == 0,
    {
        SvgrCache::new_sized(size)
    }

    /// A disabled cache.
    pub fn none() -> (r: SvgrCache)
        ensures
            r.wf(),
            !r.is_enabled(),
            r.capacity() == 0,
            r.entries().len() == 0,
    {
        SvgrCache { cache: None }
    }

    /// A cache of `size` layers; disabled when `size` is 0.
    pub fn new_sized(size: usize) -> (r: SvgrCache)
        ensures
            r.wf(),
            r.is_enabled() <==> size > 0,
            r.capacity() == size,
            r.entries().len() == 0,
    {
        if size > 0 {
            let lru = lru_new(size, new_hash_state());
            let hash_state = new_hash_state();
            SvgrCache { cache: Some(CacheState { lru, hash_state }) }
        } else {
            SvgrCache::none()
        }
    }

    /// The fingerprint of a layer; `None` when the cache is disabled. Within
    /// one cache, equal keys give equal fingerprints; distinct keys may
    /// collide, and a collision is served as a match.
    pub fn fingerprint(&self, key: &LayerKey) -> (r: Option<u64>)
        ensures
            r is Some <==> self.is_enabled(),
    {
        match &self.cache {
            Some(c) => Some(hash_layer_key(&c.hash_state, key)),
            None => None,
        }
    }

    /// A content hash for a layer identified by text, such as the link of a
    /// nested document; `None` when the cache is disabled. Within one cache,
    /// equal texts give equal hashes.
    pub fn text_content_hash(&self, text: &str) -> (r: Option<u64>)
        ensures
            r is Some <==> self.is_enabled(),
    {
        match &self.cache {
            Some(c) => Some(hash_text(&c.hash_state, text)),
            None => None,
        }
    }

    /// Whether a layer is stored under `fp`; the order is not touched.
    pub fn contains(&self, fp: u64) -> (r: bool)
        ensures
            r == has_key(self.entries(), fp),
    {
        match &self.cache {
            Some(c) => lru_contains(&c.lru, fp),
            None => false,
        }
    }

    /// The layer stored under `fp`; the order is not touched.
    pub fn peek(&self, fp: u64) -> (r: Option<&PixelBuffer>)
        requires
            self.wf(),
        ensures
            r is Some <==> has_key(self.entries(), fp),
            r matches Some(b) ==> lookup(self.entries(), fp) == Some(*b) && b.wf(),
    {
        match &self.cache {
            Some(c) => {
                let r = lru_peek(&c.lru, fp);
                proof {
                    if let Some(b) = r {
                        let i = choose|i: int|
                            0 <= i < lru_entries(c.lru).len() && #[trigger] lru_entries(c.lru)[i]
                                == (fp, *b);
                        lemma_key_pos_unique(self.entries(), self.capacity(), fp, i);
                    }
                }
                r
            },
            None => None,
        }
    }

    /// Marks the layer under `fp` as the most recently used.
    pub fn touch(&mut self, fp: u64)
        requires
            old(self).wf(),
        ensures
            final(self).wf(),
            final(self).is_enabled() == old(self).is_enabled(),
            final(self).capacity() == old(self).capacity(),
            final(self).entries() == after_promote(old(self).entries(), fp),
    {
        match &mut self.cache {
            Some(c) => {
                proof {
                    lemma_after_promote_wf(lru_entries(c.lru), lru_capacity(c.lru), fp);
                }
                lru_promote(&mut c.lru, fp);
            },
            None => {},
        }
    }

    /// Stores `buf` under `fp`. A layer it replaces or evicts goes back to
    /// the pool. On a disabled cache `buf` goes straight back to the pool.
    pub fn insert_or_evict(&mut self, fp: u64, buf: PixelBuffer, pool: &mut PixmapPool)
        requires
            old(self).wf(),
            old(pool).wf(),
            buf.wf(),
        ensures
            final(self).wf(),
            final(pool).wf(),
            final(self).is_enabled() == old(self).is_enabled(),
            final(self).capacity() == old(self).capacity(),
            old(self).is_enabled() ==> final(self).entries() == after_push(
                old(self).entries(),
                old(self).capacity(),
                fp,
                buf,
            ),
            old(self).is_enabled() ==> has_key(final(self).entries(), fp) && lookup(
                final(self).entries(),
                fp,
            ) == Some(buf),
            old(self).is_enabled() ==> match push_returns(
                old(self).entries(),
                old(self).capacity(),
                fp,
            ) {
                Some(ev) => released(old(pool).stacks(), final(pool).stacks(), ev.1),
                None => final(pool).stacks() == old(pool).stacks(),
            },
            !old(self).is_enabled() ==> final(self).entries() == old(self).entries() && released(
                old(pool).stacks(),
                final(pool).stacks(),
                buf,
            ),
    {
        match &mut self.cache {
            Some(c) => {
                proof {
                    lemma_after_push_wf(lru_entries(c.lru), lru_capacity(c.lru), fp, buf);
                }
                let ghost b = buf;
                let evicted = lru_push(&mut c.lru, fp, buf);
                proof {
                    let n = lru_entries(c.lru);
                    assert(n[0] == (fp, b));
                    assert(n[0].0 == fp);
                    lemma_key_pos_unique(n, lru_capacity(c.lru), fp, 0);
                }
                match evicted {
                    Some(ev) => pool.release(ev.1),
                    None => {},
                }
            },
            None => pool.release(buf),
        }
    }

    /// The cache's answer for a layer whose fingerprint is `fp`: stored, or
    /// a zeroed `w` by `h` buffer to render into, or nothing when no buffer
    /// of that size can be had. A stored layer becomes the most recently
    /// used; a miss changes no entry.
    pub fn probe(&mut self, fp: u64, w: u32, h: u32, pool: &mut PixmapPool) -> (r: LayerSlot)
        requires
            old(self).wf(),
            old(pool).wf(),
            old(self).is_enabled(),
        ensures
            final(self).wf(),
            final(pool).wf(),
            final(self).is_enabled(),
            final(self).capacity() == old(self).capacity(),
            probed(old(self).entries(), fp, w, h, r),
            final(self).entries() == after_promote(old(self).entries(), fp),
            r is Cached ==> final(pool).stacks() == old(pool).stacks(),
            r matches LayerSlot::Render { buffer, .. } ==> took(
                old(pool).stacks(),
                final(pool).stacks(),
                w,
                h,
                Some(buffer),
            ),
            r is Unavailable ==> final(pool).stacks() == old(pool).stacks(),
    {
        if self.contains(fp) {
            self.touch(fp);
            LayerSlot::Cached(fp)
        } else {
            proof {
                assert(after_promote(self.entries(), fp) == self.entries());
            }
            match pool.take_or_allocate(w, h) {
                Some(buffer) => LayerSlot::Render { key: Some(fp), buffer },
                None => LayerSlot::Unavailable,
            }
        }
    }

    /// Starts a layer: on a disabled cache a zeroed buffer to render into and
    /// composite from; else the answer of `probe` for the key's fingerprint.
    pub fn begin_layer(&mut self, key: &LayerKey, pool: &mut PixmapPool) -> (r: LayerSlot)
        requires
            old(self).wf(),
            old(pool).wf(),
        ensures
            final(self).wf(),
            final(pool).wf(),
            final(self).is_enabled() == old(self).is_enabled(),
            final(self).capacity() == old(self).capacity(),
            !old(self).is_enabled() ==> final(self).entries() == old(self).entries() && match r {
                LayerSlot::Render { key: k, buffer } => k is None && took(
                    old(pool).stacks(),
                    final(pool).stacks(),
                    key.width,
                    key.height,
                    Some(buffer),
                ),
                LayerSlot::Unavailable => took(
                    old(pool).stacks(),
                    final(pool).stacks(),
                    key.width,
                    key.height,
                    None,
                ),
                LayerSlot::Cached(_) => false,
            },
            old(self).is_enabled() ==> match r {
                LayerSlot::Cached(fp) => has_key(old(self).entries(), fp) && final(self).entries()
                    == after_promote(old(self).entries(), fp) && final(pool).stacks() == old(
                    pool,
                ).stacks(),
                LayerSlot::Render { key: k, buffer } => k matches Some(fp) && !has_key(
                    old(self).entries(),
                    fp,
                ) && final(self).entries() == old(self).entries() && took(
                    old(pool).stacks(),
                    final(pool).stacks(),
                    key.width,
                    key.height,
                    Some(buffer),
                ),
                LayerSlot::Unavailable => final(self).entries() == old(self).entries() && took(
                    old(pool).stacks(),
                    final(pool).stacks(),
                    key.width,
                    key.height,
                    None,
                ),
            },
    {
        match self.fingerprint(key) {
            Some(fp) => {
                let r = self.probe(fp, key.width, key.height, pool);
                proof {
                    if !has_key(old(self).entries(), fp) {
                        assert(after_promote(old(self).entries(), fp) == old(self).entries());
                    }
                }
                r
            },
            None => match pool.take_or_allocate(key.width, key.height) {
                Some(buffer) => LayerSlot::Render { key: None, buffer },
                None => LayerSlot::Unavailable,
            },
        }
    }
}

} // verus!
