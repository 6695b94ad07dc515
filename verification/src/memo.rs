//! Memoization of a mapping strategy: a concurrent map keyed by the raw
//! pixel value caches each computed prediction, so repeated colors skip the
//! wrapped strategy.

use vstd::prelude::*;

use crate::Mapper;
use crate::palette::Rgbx;

verus! {

/// An outside concurrent hash map; opaque to the proofs, described only
/// through `cache_map` and the trusted operations below.
#[verifier::external_type_specification]
#[verifier::external_body]
#[verifier::reject_recursive_types(K)]
#[verifier::reject_recursive_types(V)]
#[verifier::reject_recursive_types(S)]
pub struct ExDashMap<K, V, S>(dashmap::DashMap<K, V, S>);

/// An outside hasher state; carried, never inspected.
#[verifier::external_type_specification]
#[verifier::external_body]
pub struct ExRandomState(ahash::RandomState);

/// The concurrent map the cache is built on.
pub type PixelCache = dashmap::DashMap<u32, u32, ahash::RandomState>;

/// What the cache holds: the key-value pairs of the concurrent map.
pub uninterp spec fn cache_map(m: PixelCache) -> Map<u32, u32>;

/// Relies on dashmap::DashMap::with_capacity_and_hasher: a freshly created
/// map holds no entries. The hasher handed to it is a default-built
/// ahash::RandomState.
#[verifier::external_body]
fn cache_new() -> (r: PixelCache)
    ensures
        cache_map(r) =~= Map::empty(),
{
    dashmap::DashMap::with_capacity_and_hasher(1000, ahash::RandomState::default())
}

/// Relies on dashmap::DashMap::get: returns the value stored at the key,
/// or nothing when the key is absent.
#[verifier::external_body]
fn cache_get(m: &PixelCache, k: u32) -> (r: Option<u32>)
    ensures
        r == if cache_map(*m).dom().contains(k) {
            Some(cache_map(*m)[k])
        } else {
            None::<u32>
        },
{
    m.get(&k).map(|v| *v)
}

/// Relies on dashmap::DashMap::insert: the map afterward holds exactly the
/// prior entries plus the inserted pair.
#[verifier::external_body]
fn cache_insert(m: &mut PixelCache, k: u32, v: u32)
    ensures
        cache_map(*final(m)) == cache_map(*old(m)).insert(k, v),
{
    m.insert(k, v);
}

/// Relies on dashmap::DashMap::len: the number of entries in the map.
#[verifier::external_body]
fn cache_len(m: &PixelCache) -> (n: usize)
    ensures
        n == cache_map(*m).dom().len(),
{
    m.len()
}

/// The 4 pixel bytes packed into one cache key, big-endian.
pub open spec fn key_of(px: Seq<u8>) -> u32 {
    ((px[0] as u32) << 24) | ((px[1] as u32) << 16) | ((px[2] as u32) << 8) | (px[3] as u32)
}

/// The pixel bytes encoded by a cache key.
pub open spec fn px_of(k: u32) -> Seq<u8> {
    seq![
        #[verifier::truncate] ((k >> 24) as u8),
        #[verifier::truncate] ((k >> 16) as u8),
        #[verifier::truncate] ((k >> 8) as u8),
        #[verifier::truncate] (k as u8),
    ]
}

/// Packing four bytes and unpacking them again is the identity.
pub proof fn lemma_key_roundtrip(px: Seq<u8>)
    requires
        px.len() == 4,
    ensures
        px_of(key_of(px)) =~= px,
{
    let a = px[0];
    let b = px[1];
    let c = px[2];
    let d = px[3];
    assert(((((a as u32) << 24) | ((b as u32) << 16) | ((c as u32) << 8) | (d as u32)) >> 24) as u8
        == a) by (bit_vector);
    assert(((((a as u32) << 24) | ((b as u32) << 16) | ((c as u32) << 8) | (d as u32)) >> 16) as u8
        == b) by (bit_vector);
    assert(((((a as u32) << 24) | ((b as u32) << 16) | ((c as u32) << 8) | (d as u32)) >> 8) as u8
        == c) by (bit_vector);
    assert(((((a as u32) << 24) | ((b as u32) << 16) | ((c as u32) << 8) | (d as u32))) as u8 == d)
        by (bit_vector);
}

/// Pack a pixel into its cache key.
fn pack_pixel(px: &[u8; 4]) -> (k: u32)
    ensures
        k == key_of(px@),
{
    ((px[0] as u32) << 24) | ((px[1] as u32) << 16) | ((px[2] as u32) << 8) | (px[3] as u32)
}

/// Unpack a cache key into the pixel it encodes.
fn unpack_pixel(k: u32) -> (px: [u8; 4])
    ensures
        px@ == px_of(k),
{
    let out: [u8; 4] = [(k >> 24) as u8, (k >> 16) as u8, (k >> 8) as u8, k as u8];
    proof {
        assert(out@ =~= px_of(k));
    }
    out
}

/// A strategy wrapped with a per-pixel cache: on a hit the cached output is
/// returned without consulting the wrapped strategy; on a miss the wrapped
/// strategy computes, and the result is stored. The cache is unbounded: no
/// entry is ever evicted, and the cache keys ignore the palette, so one
/// wrapped instance belongs to one palette's run.
///
/// The cache demands exclusive access during a prediction (`predict` takes
/// the strategy mutably), so a memoized strategy is not shareable across
/// parallel workers and offers no clones sharing one cache: a processing
/// run falls back to sequential execution for it. That exclusivity is what
/// lets the cache operations carry exact contracts. A randomized wrapped
/// strategy stays sound: whatever outcome was cached first is a permitted
/// prediction and is the one replayed.
pub struct Memoized<M: Mapper> {
    /// The wrapped strategy.
    pub mapper: M,
    /// The cache itself. Public so that contracts over this type stay
    /// visible; treat it as internal state and reach it only through
    /// `predict` and `cached`.
    pub mem: PixelCache,
}

impl<M: Mapper> Memoized<M> {
    /// Wrap a strategy with an empty cache.
    pub fn new(mapper: M) -> (r: Memoized<M>)
        ensures
            r.mapper == mapper,
            forall|palette: Seq<Rgbx>| mapper.inv(palette) ==> #[trigger] r.inv(palette),
            r.cached_count() == 0,
    {
        let r = Memoized { mapper, mem: cache_new() };
        proof {
            assert(cache_map(r.mem).dom() =~= Set::<u32>::empty());
        }
        r
    }

    /// How many distinct pixel values the cache currently holds.
    pub closed spec fn cached_count(&self) -> nat {
        cache_map(self.mem).dom().len()
    }

    /// How many distinct pixel values the cache currently holds.
    pub fn cached(&self) -> (n: usize)
        ensures
            n == self.cached_count(),
    {
        cache_len(&self.mem)
    }
}

impl<M: Mapper> Mapper for Memoized<M> {
    open spec fn req(&self, palette: Seq<Rgbx>) -> bool {
        self.mapper.req(palette)
    }

    closed spec fn inv(&self, palette: Seq<Rgbx>) -> bool {
        &&& self.mapper.inv(palette)
        &&& cache_map(self.mem).dom().finite()
        &&& forall|k: u32|
            #[trigger] cache_map(self.mem).dom().contains(k) ==> self.mapper.predicts(
                palette,
                px_of(k),
                px_of(cache_map(self.mem)[k]),
            )
    }

    open spec fn shareable(&self) -> bool {
        false
    }

    /// Memoization is transparent: a memoized strategy predicts exactly
    /// what the wrapped strategy predicts.
    open spec fn predicts(&self, palette: Seq<Rgbx>, px: Seq<u8>, r: Seq<u8>) -> bool {
        self.mapper.predicts(palette, px, r)
    }

    fn req_check(&self, palette: &[Rgbx]) -> (b: bool) {
        self.mapper.req_check(palette)
    }

    fn is_shareable(&self) -> (b: bool) {
        false
    }

    /// Beyond the trait's contract: a hit leaves the cache untouched and
    /// replays exactly the value stored for this pixel — first write wins,
    /// also for a randomized wrapped strategy — while a miss stores the
    /// freshly computed answer under the pixel's key. The cache only ever
    /// grows.
    fn predict(&mut self, palette: &[Rgbx], pixel: &[u8; 4]) -> (r: [u8; 4])
        ensures
            cache_map(final(self).mem) == (if cache_map(old(self).mem).dom().contains(
                key_of(pixel@),
            ) {
                cache_map(old(self).mem)
            } else {
                cache_map(old(self).mem).insert(key_of(pixel@), key_of(r@))
            }),
            cache_map(old(self).mem).dom().contains(key_of(pixel@)) ==> r@ == px_of(
                cache_map(old(self).mem)[key_of(pixel@)],
            ),
            cache_map(final(self).mem).dom().contains(key_of(pixel@)),
            r@ == px_of(cache_map(final(self).mem)[key_of(pixel@)]),
            final(self).cached_count() >= old(self).cached_count(),
    {
        let k = pack_pixel(pixel);
        let cached = cache_get(&self.mem, k);
        match cached {
            Some(v) => {
                proof {
                    lemma_key_roundtrip(pixel@);
                }
                unpack_pixel(v)
            },
            None => {
                let pred = self.mapper.predict(palette, pixel);
                let vk = pack_pixel(&pred);
                proof {
                    lemma_key_roundtrip(pixel@);
                    lemma_key_roundtrip(pred@);
                }
                cache_insert(&mut self.mem, k, vk);
                pred
            },
        }
    }

    /// Never reachable from verified code: a memoized strategy reports
    /// itself unshareable, so this precondition cannot be met. An
    /// unverified caller that ignores that and calls it anyway gets the
    /// pixel back unchanged, not a cached or computed prediction.
    fn predict_shared(&self, palette: &[Rgbx], pixel: &[u8; 4]) -> (r: [u8; 4]) {
        *pixel
    }
}

} // verus!
