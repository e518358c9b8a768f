//! The tiles in memory.
use dashmap::DashMap;
use std::sync::Arc;
use vstd::prelude::*;
use crate::tile_image::{dummy_view, law_dummy_is_at_sea_level, TileImage, TileView, TILE_SIZE};

verus! {

/// A tile's key in the cache: zoom level, column and row.
pub type TileKey = (u8, u32, u32);

/// `dashmap::DashMap`, of which nothing is known but what [`held`] says.
#[verifier::external_type_specification]
#[verifier::external_body]
#[verifier::reject_recursive_types(K)]
#[verifier::reject_recursive_types(V)]
#[verifier::reject_recursive_types(S)]
pub struct ExDashMap<K, V, S>(DashMap<K, V, S>);

/// What the map holds.
///
/// A `DashMap` can be changed through a shared reference. The one in a [`TileCache`] cannot be
/// reached from outside this module, and here it is changed through `&mut` only, so what it holds
/// stays the same while a shared reference lasts.
pub uninterp spec fn held(map: DashMap<TileKey, Arc<TileImage>>) -> Map<TileKey, TileView>;

/// The contents of an empty cache.
pub open spec fn no_tiles() -> Map<TileKey, TileView> {
    Map::empty()
}

/// Calls `DashMap::new`. Claimed of it: the map is empty.
#[verifier::external_body]
fn map_new() -> (fresh: DashMap<TileKey, Arc<TileImage>>)
    ensures
        held(fresh) == no_tiles(),
{
    DashMap::new()
}

/// Calls `DashMap::contains_key`. Claimed of it: it tells whether the map has the key.
#[verifier::external_body]
fn map_contains_key(map: &DashMap<TileKey, Arc<TileImage>>, key: TileKey) -> (found: bool)
    ensures
        found == held(*map).contains_key(key),
{
    map.contains_key(&key)
}

/// Calls `DashMap::get` and shares the image behind the guard, which is dropped at once. Claimed of
/// it: it finds the key's image, if the map has the key.
#[verifier::external_body]
fn map_get(map: &DashMap<TileKey, Arc<TileImage>>, key: TileKey) -> (found: Option<Arc<TileImage>>)
    ensures
        match found {
            Some(image) => held(*map).contains_key(key) && held(*map)[key] == image@,
            None => !held(*map).contains_key(key),
        },
{
    let guard = map.get(&key)?;
    Some(Arc::clone(guard.value()))
}

/// Calls `DashMap::insert`. Claimed of it: afterwards the map has the image at the key, all else is
/// as before, and what the key had before is handed back. The map is borrowed mutably, so nothing
/// holds a guard into it, on which the call would wait for ever.
#[verifier::external_body]
fn map_insert(
    map: &mut DashMap<TileKey, Arc<TileImage>>,
    key: TileKey,
    image: Arc<TileImage>,
) -> (replaced: Option<Arc<TileImage>>)
    ensures
        held(*final(map)) == held(*old(map)).insert(key, image@),
        match replaced {
            Some(before) => held(*old(map)).contains_key(key) && held(*old(map))[key] == before@,
            None => !held(*old(map)).contains_key(key),
        },
{
    map.insert(key, image)
}

/// Whether a pixel of the tile at `key` can be read: one within the square of `TILE_SIZE` must be
/// a pixel of the image too.
pub open spec fn readable(tiles: Map<TileKey, TileView>, key: TileKey, x: nat, y: nat) -> bool {
    tiles.contains_key(key) && x < TILE_SIZE && y < TILE_SIZE ==> tiles[key].covers(x, y)
}

/// The height at a pixel of the tile at `key`, in units of 1/256 metre; sea level if there is no
/// such tile or the pixel lies outside the square of `TILE_SIZE`.
pub open spec fn height(tiles: Map<TileKey, TileView>, key: TileKey, x: nat, y: nat) -> int {
    if tiles.contains_key(key) {
        tiles[key].height(x, y)
    } else {
        0
    }
}

/// Those of `required` that are not among `tiles`.
pub open spec fn missing(tiles: Map<TileKey, TileView>, required: Seq<TileKey>) -> Seq<TileKey> {
    required.filter(|key: TileKey| !tiles.contains_key(key))
}

/// The tiles in memory, by key.
pub struct TileCache {
    map: DashMap<TileKey, Arc<TileImage>>,
}

impl View for TileCache {
    type V = Map<TileKey, TileView>;

    closed spec fn view(&self) -> Map<TileKey, TileView> {
        held(self.map)
    }
}

/// An empty cache.
pub fn init_cache() -> (cache: TileCache)
    ensures
        cache@ == no_tiles(),
{
    TileCache { map: map_new() }
}

impl TileCache {
    /// Whether the tile is in the cache.
    pub fn contains_key(&self, key: TileKey) -> (found: bool)
        ensures
            found == self@.contains_key(key),
    {
        map_contains_key(&self.map, key)
    }

    /// The image of the tile, if it is in the cache.
    pub fn get(&self, key: TileKey) -> (found: Option<Arc<TileImage>>)
        ensures
            found is Some <==> self@.contains_key(key),
            found matches Some(image) ==> image@ == self@[key],
    {
        map_get(&self.map, key)
    }

    /// Puts the image of the tile into the cache, in place of the one there, if any, which is
    /// handed back.
    pub fn insert(&mut self, key: TileKey, image: Arc<TileImage>) -> (replaced: Option<
        Arc<TileImage>,
    >)
        ensures
            final(self)@ == old(self)@.insert(key, image@),
            replaced is Some <==> old(self)@.contains_key(key),
            replaced matches Some(before) ==> before@ == old(self)@[key],
    {
        map_insert(&mut self.map, key, image)
    }

    /// Those of the required tiles that still have to be loaded, in order.
    pub fn missing(&self, required: &Vec<TileKey>) -> (keys: Vec<TileKey>)
        ensures
            keys@ == missing(self@, required@),
    {
        let ghost absent = |key: TileKey| !self@.contains_key(key);
        let mut keys: Vec<TileKey> = Vec::new();
        let mut i: usize = 0;
        assert(required@.take(0).filter(absent) =~= keys@) by {
            reveal(Seq::filter);
        }
        while i < required.len()
            invariant
                absent == (|key: TileKey| !self@.contains_key(key)),
                i <= required@.len(),
                keys@ == required@.take(i as int).filter(absent),
            decreases required@.len() - i,
        {
            let key = required[i];
            proof {
                assert(required@.take(i + 1).drop_last() =~= required@.take(i as int));
                assert(required@.take(i + 1).last() == key);
                reveal(Seq::filter);
            }
            if !self.contains_key(key) {
                keys.push(key);
            }
            i = i + 1;
        }
        assert(required@.take(i as int) =~= required@);
        keys
    }

    /// Whether [`TileCache::height`] can be asked for the pixel: it cannot if the tile's image is
    /// too small to have it.
    pub fn readable(&self, key: TileKey, x: u32, y: u32) -> (can: bool)
        ensures
            can == readable(self@, key, x as nat, y as nat),
    {
        match self.get(key) {
            Some(image) => x >= TILE_SIZE || y >= TILE_SIZE || image.covers(x, y),
            None => true,
        }
    }

    /// The height at a pixel of a tile, in units of 1/256 metre: sea level if the tile is not in the
    /// cache or the pixel lies outside the square of `TILE_SIZE`.
    pub fn height(&self, key: TileKey, x: u32, y: u32) -> (height: i32)
        requires
            readable(self@, key, x as nat, y as nat),
        ensures
            height == self::height(self@, key, x as nat, y as nat),
    {
        match self.get(key) {
            Some(image) => image.height(x, y),
            None => 0,
        }
    }
}

/// The cache as a resource of its own.
pub struct TerrainCacheResource {
    pub cache: TileCache,
}

impl Default for TerrainCacheResource {
    fn default() -> (resource: Self)
        ensures
            resource.cache@ == no_tiles(),
    {
        TerrainCacheResource { cache: init_cache() }
    }
}

/// Only what is not there has to be loaded, and all of that: a tile is missing if it is required and
/// not in the cache, and in no other case.
pub proof fn law_missing_is_required_and_absent(
    cache: TileCache,
    required: Vec<TileKey>,
    keys: Vec<TileKey>,
    key: TileKey,
)
    requires
        call_ensures(TileCache::missing, (&cache, &required), keys),
    ensures
        keys@.contains(key) <==> required@.contains(key) && !cache@.contains_key(key),
{
    lemma_missing(cache@, required@, key);
}

/// A tile is missing if it is required and not among those that are there.
pub proof fn lemma_missing(tiles: Map<TileKey, TileView>, required: Seq<TileKey>, key: TileKey)
    ensures
        missing(tiles, required).contains(key) <==> required.contains(key) && !tiles.contains_key(
            key,
        ),
    decreases required.len(),
{
    reveal(Seq::filter);
    if required.len() > 0 {
        let before = required.drop_last();
        let last = required.len() - 1;
        lemma_missing(tiles, before, key);
        assert(required =~= before.push(required[last]));
        let keys = missing(tiles, required);
        let earlier = missing(tiles, before);
        if required.contains(key) && !tiles.contains_key(key) {
            let i = choose|i: int| 0 <= i < required.len() && required[i] == key;
            if i < last {
                assert(before[i] == key);
                let k = choose|k: int| 0 <= k < earlier.len() && earlier[k] == key;
                assert(keys[k] == key);
            } else {
                assert(keys.last() == key);
            }
        }
        if keys.contains(key) {
            let k = choose|k: int| 0 <= k < keys.len() && keys[k] == key;
            if k < earlier.len() {
                assert(earlier[k] == key);
                assert(earlier.contains(key));
                let i = choose|i: int| 0 <= i < before.len() && before[i] == key;
                assert(required[i] == key);
            } else {
                assert(required[last] == key);
            }
        }
    }
}

/// Missing tiles come in the order in which they are required, as often as they are: one more required
/// tile comes last if it is not in the cache, and changes nothing if it is.
pub proof fn law_missing_are_in_order(
    cache: TileCache,
    required: Vec<TileKey>,
    keys: Vec<TileKey>,
    more: Vec<TileKey>,
    more_keys: Vec<TileKey>,
    key: TileKey,
)
    requires
        call_ensures(TileCache::missing, (&cache, &required), keys),
        call_ensures(TileCache::missing, (&cache, &more), more_keys),
        more@ == required@.push(key),
    ensures
        required@.len() == 0 ==> keys@.len() == 0,
        cache@.contains_key(key) ==> more_keys@ == keys@,
        !cache@.contains_key(key) ==> more_keys@ == keys@.push(key),
{
    reveal(Seq::filter);
    assert(more@.drop_last() =~= required@);
}

/// A pixel of a tile in the cache can be read where the image has it, and outside the square of 512
/// pixels, where nothing is read; of a tile that is not there, everywhere.
pub proof fn law_readable_where_image_has_pixel(
    cache: TileCache,
    key: TileKey,
    x: u32,
    y: u32,
    can: bool,
)
    requires
        call_ensures(TileCache::readable, (&cache, key, x, y), can),
    ensures
        !cache@.contains_key(key) ==> can,
        x >= 512 || y >= 512 ==> can,
        cache@.contains_key(key) && x < 512 && y < 512 ==> (can <==> x < cache@[key].width && y
            < cache@[key].height),
{
}

/// The height read from the cache is that of the three samples of the pixel, in the image that the
/// cache has for the tile; it is sea level where there is none, and outside the square of 512 pixels.
pub proof fn law_height_is_that_of_image(
    cache: TileCache,
    key: TileKey,
    x: u32,
    y: u32,
    read: i32,
    k: int,
)
    requires
        call_ensures(TileCache::height, (&cache, key, x, y), read),
        k == y * cache@[key].width + x,
    ensures
        !cache@.contains_key(key) ==> read == 0,
        x >= 512 || y >= 512 ==> read == 0,
        cache@.contains_key(key) && x < 512 && y < 512 ==> {
            let samples = cache@[key].samples;
            read + 32768 * 256 == 256 * (256 * samples[3 * k] + samples[3 * k + 1]) + samples[3 * k
                + 2]
        },
{
}

/// What the cache hands out for a key is what it has there, and it tells truly whether it has it.
pub proof fn law_cache_gives_what_it_has(
    cache: TileCache,
    key: TileKey,
    found: Option<Arc<TileImage>>,
    present: bool,
)
    requires
        call_ensures(TileCache::get, (&cache, key), found),
        call_ensures(TileCache::contains_key, (&cache, key), present),
    ensures
        found is Some <==> cache@.contains_key(key),
        present <==> cache@.contains_key(key),
        found matches Some(image) ==> image@ == cache@[key],
{
}

/// What is put into the cache is there afterwards, what was there before is handed back, and every
/// other tile is as it was.
pub proof fn law_insert_changes_one_tile(
    cache: &mut TileCache,
    key: TileKey,
    image: Arc<TileImage>,
    replaced: Option<Arc<TileImage>>,
    other: TileKey,
)
    requires
        call_ensures(TileCache::insert, (cache, key, image), replaced),
    ensures
        final(cache)@.contains_key(key),
        final(cache)@[key] == image@,
        replaced is Some <==> old(cache)@.contains_key(key),
        replaced matches Some(before) ==> before@ == old(cache)@[key],
        other != key ==> {
            &&& final(cache)@.contains_key(other) == old(cache)@.contains_key(other)
            &&& final(cache)@[other] == old(cache)@[other]
        },
{
}

/// A new cache has no tile, nor has the one of a new resource.
pub proof fn law_new_cache_is_empty(
    cache: TileCache,
    resource: TerrainCacheResource,
    key: TileKey,
)
    requires
        call_ensures(init_cache, (), cache),
        call_ensures(TerrainCacheResource::default, (), resource),
    ensures
        !cache@.contains_key(key),
        !resource.cache@.contains_key(key),
{
}

/// After an image has been stored under a key, the heights under that key are the image's, and those
/// under every other key are what they were.
pub proof fn law_heights_are_those_stored(
    tiles: Map<TileKey, TileView>,
    key: TileKey,
    image: TileView,
    other: TileKey,
    x: nat,
    y: nat,
)
    ensures
        height(tiles.insert(key, image), key, x, y) == image.height(x, y),
        other != key ==> height(tiles.insert(key, image), other, x, y) == height(
            tiles,
            other,
            x,
            y,
        ),
        other != key ==> readable(tiles.insert(key, image), other, x, y) == readable(
            tiles,
            other,
            x,
            y,
        ),
{
}

/// A tile that is not in the cache and one for which the dummy tile stands in read the same: sea
/// level, at every pixel.
pub proof fn law_tile_not_had_is_at_sea_level(
    tiles: Map<TileKey, TileView>,
    key: TileKey,
    x: nat,
    y: nat,
)
    requires
        tiles.contains_key(key) ==> tiles[key] == dummy_view(),
    ensures
        readable(tiles, key, x, y),
        height(tiles, key, x, y) == 0,
{
    law_dummy_is_at_sea_level(x, y);
}

} // verus!
