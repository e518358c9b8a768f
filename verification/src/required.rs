//! Which tiles a chunk needs.
use vstd::arithmetic::power2::{lemma_pow2_strictly_increases, lemma_pow2_unfold, pow2};
use vstd::prelude::*;
use crate::cache::{missing, TileKey};
use crate::chunk::{law_samples_fill_chunk, spec_sample_points, SUBDIV_PER_TILE};
use crate::load_laws::{has_image, law_required_tiles_are_loaded, stored};
use crate::tile_image::TileView;

verus! {

/// The zoom level of the tiles in use.
pub const ZOOM: u8 = 14;

/// The last column, and the last row, of tiles on the map at a zoom level: there are `2^zoom` of
/// them, `u32::MAX` at most.
pub open spec fn spec_max_tile(zoom: u8) -> int {
    if pow2(zoom as nat) <= u32::MAX {
        pow2(zoom as nat) - 1
    } else {
        u32::MAX - 1
    }
}

/// The last column, and the last row, of tiles on the map at a zoom level.
pub fn max_tile(zoom: u8) -> (max: u32)
    ensures
        max == spec_max_tile(zoom),
{
    let mut count: u32 = 1;
    let mut level: u8 = 0;
    proof {
        vstd::arithmetic::power2::lemma2_to64();
    }
    while level < zoom
        invariant
            level <= zoom,
            count == pow2(level as nat),
            count >= 1,
        decreases zoom - level,
    {
        proof {
            lemma_pow2_unfold((level + 1) as nat);
            if level + 1 < zoom {
                lemma_pow2_strictly_increases((level + 1) as nat, zoom as nat);
            }
        }
        if count > u32::MAX / 2 {
            return u32::MAX - 1;
        }
        count = 2 * count;
        level = level + 1;
    }
    count - 1
}

/// `s` without what has occurred before.
pub open spec fn distinct(s: Seq<(u32, u32)>) -> Seq<(u32, u32)>
    decreases s.len(),
{
    if s.len() == 0 {
        s
    } else {
        let before = distinct(s.drop_last());
        if before.contains(s.last()) {
            before
        } else {
            before.push(s.last())
        }
    }
}

/// `n`, but no more than `max`.
pub open spec fn at_most(n: u32, max: int) -> u32 {
    if n <= max {
        n
    } else {
        max as u32
    }
}

/// The key of the tile of the map that is nearest to the column and row.
pub open spec fn on_map(tile: (u32, u32)) -> TileKey {
    (ZOOM, at_most(tile.0, spec_max_tile(ZOOM)), at_most(tile.1, spec_max_tile(ZOOM)))
}

/// Whether the column and row are on the map.
pub open spec fn is_on_map(tile: (u32, u32)) -> bool {
    tile.0 <= spec_max_tile(ZOOM) && tile.1 <= spec_max_tile(ZOOM)
}

/// The tiles required by a chunk whose samples lie on the given tiles.
pub open spec fn spec_required_tiles(sample_tiles: Seq<(u32, u32)>) -> Seq<TileKey> {
    distinct(sample_tiles).map_values(|tile: (u32, u32)| on_map(tile))
}

/// Whether `tile` is one of `tiles`.
fn contains(tiles: &Vec<(u32, u32)>, tile: (u32, u32)) -> (found: bool)
    ensures
        found == tiles@.contains(tile),
{
    let mut i: usize = 0;
    while i < tiles.len()
        invariant
            i <= tiles@.len(),
            forall|j: int| 0 <= j < i ==> tiles@[j] != tile,
        decreases tiles@.len() - i,
    {
        if tiles[i].0 == tile.0 && tiles[i].1 == tile.1 {
            assert(tiles@[i as int] == tile);
            return true;
        }
        i = i + 1;
    }
    false
}

/// The tiles that a chunk needs, given the column and row of the tile on which each of its samples
/// lies: each of them once, in the order of the samples, and moved onto the map where it lies outside.
pub fn calculate_required_tiles_for_chunk(sample_tiles: &Vec<(u32, u32)>) -> (tiles: Vec<TileKey>)
    ensures
        tiles@ == spec_required_tiles(sample_tiles@),
{
    let mut unique_tiles: Vec<(u32, u32)> = Vec::new();
    let mut i: usize = 0;
    assert(distinct(sample_tiles@.take(0)) =~= unique_tiles@);
    while i < sample_tiles.len()
        invariant
            i <= sample_tiles@.len(),
            unique_tiles@ == distinct(sample_tiles@.take(i as int)),
        decreases sample_tiles@.len() - i,
    {
        let tile = sample_tiles[i];
        proof {
            assert(sample_tiles@.take(i + 1).drop_last() =~= sample_tiles@.take(i as int));
            assert(sample_tiles@.take(i + 1).last() == tile);
        }
        if !contains(&unique_tiles, tile) {
            unique_tiles.push(tile);
        }
        i = i + 1;
    }
    assert(sample_tiles@.take(i as int) =~= sample_tiles@);
    let max: u32 = max_tile(ZOOM);
    let mut tiles: Vec<TileKey> = Vec::new();
    let mut j: usize = 0;
    while j < unique_tiles.len()
        invariant
            max == spec_max_tile(ZOOM),
            j <= unique_tiles@.len(),
            tiles@.len() == j,
            forall|k: int| 0 <= k < j ==> #[trigger] tiles@[k] == on_map(unique_tiles@[k]),
        decreases unique_tiles@.len() - j,
    {
        let (x, y) = unique_tiles[j];
        let clamped_x: u32 = if x <= max {
            x
        } else {
            max
        };
        let clamped_y: u32 = if y <= max {
            y
        } else {
            max
        };
        tiles.push((ZOOM, clamped_x, clamped_y));
        j = j + 1;
    }
    assert(tiles@ =~= spec_required_tiles(sample_tiles@));
    tiles
}

/// Leaving out repetitions leaves nothing out, adds nothing and leaves no repetition.
proof fn lemma_distinct(s: Seq<(u32, u32)>)
    ensures
        distinct(s).no_duplicates(),
        forall|tile: (u32, u32)| #[trigger] distinct(s).contains(tile) <==> s.contains(tile),
    decreases s.len(),
{
    if s.len() > 0 {
        let before = s.drop_last();
        lemma_distinct(before);
        assert forall|tile: (u32, u32)| #[trigger]
            distinct(s).contains(tile) <==> s.contains(tile) by {
            if s.contains(tile) {
                let i = choose|i: int| 0 <= i < s.len() && s[i] == tile;
                if i < before.len() {
                    assert(before[i] == tile);
                }
                if distinct(before).contains(tile) {
                    let j = choose|j: int|
                        0 <= j < distinct(before).len() && distinct(before)[j] == tile;
                    assert(distinct(s)[j] == tile);
                } else {
                    assert(distinct(s).last() == tile);
                }
            }
            if distinct(s).contains(tile) {
                let j = choose|j: int| 0 <= j < distinct(s).len() && distinct(s)[j] == tile;
                if j < distinct(before).len() {
                    assert(distinct(before)[j] == tile);
                    assert(distinct(before).contains(tile));
                    let i = choose|i: int| 0 <= i < before.len() && before[i] == tile;
                    assert(s[i] == tile);
                } else {
                    assert(s[s.len() - 1] == tile);
                }
            }
        }
    }
}

/// At the zoom level in use the map is 16384 tiles wide and high.
pub proof fn law_size_of_map()
    ensures
        spec_max_tile(ZOOM) == 16383,
{
    vstd::arithmetic::power2::lemma2_to64();
}

/// With each zoom level the map has twice as many columns and rows, beginning with a single tile, until
/// there are more than can be counted in 32 bits.
pub proof fn law_map_doubles(zoom: u8, max: u32, next: u32)
    requires
        zoom < u8::MAX,
        call_ensures(max_tile, (zoom,), max),
        call_ensures(max_tile, ((zoom + 1) as u8,), next),
    ensures
        zoom == 0 ==> max == 0,
        zoom < 31 ==> next + 1 == 2 * (max + 1),
        zoom >= 31 ==> next == u32::MAX - 1,
{
    vstd::arithmetic::power2::lemma2_to64();
    lemma_pow2_unfold((zoom + 1) as nat);
    if zoom < 31 {
        lemma_pow2_strictly_increases(zoom as nat, 31);
        if zoom < 30 {
            lemma_pow2_strictly_increases((zoom + 1) as nat, 31);
        }
    }
    if zoom > 31 {
        lemma_pow2_strictly_increases(31, zoom as nat);
    }
}

/// How far apart the two numbers are.
pub open spec fn distance(m: u32, n: u32) -> int {
    if m < n {
        n - m
    } else {
        m - n
    }
}

/// The tile required for a sample is the nearest of the 16384 by 16384 tiles of the map at level 14:
/// neither its column nor its row could be nearer to those of the sample. So it is the sample's own
/// tile if that is on the map.
pub proof fn law_nearest_tile_of_map(tile: (u32, u32), column: u32, row: u32)
    requires
        column < 16384,
        row < 16384,
    ensures
        on_map(tile).0 == 14,
        on_map(tile).1 < 16384,
        on_map(tile).2 < 16384,
        distance(on_map(tile).1, tile.0) <= distance(column, tile.0),
        distance(on_map(tile).2, tile.1) <= distance(row, tile.1),
        tile.0 < 16384 && tile.1 < 16384 ==> on_map(tile) == (14u8, tile.0, tile.1),
        is_on_map(tile) <==> tile.0 < 16384 && tile.1 < 16384,
{
    law_size_of_map();
}

/// What one more sample adds to the required tiles: nothing if another sample lies on the same tile;
/// else a tile of the map at level 14 at the end, no other of which is nearer in column or row. No
/// samples require no tiles.
pub proof fn law_one_more_sample(
    samples: Vec<(u32, u32)>,
    tiles: Vec<TileKey>,
    more: Vec<(u32, u32)>,
    more_tiles: Vec<TileKey>,
    tile: (u32, u32),
    column: u32,
    row: u32,
)
    requires
        call_ensures(calculate_required_tiles_for_chunk, (&samples,), tiles),
        call_ensures(calculate_required_tiles_for_chunk, (&more,), more_tiles),
        more@ == samples@.push(tile),
        column < 16384,
        row < 16384,
    ensures
        samples@.len() == 0 ==> tiles@.len() == 0,
        samples@.contains(tile) ==> more_tiles@ == tiles@,
        !samples@.contains(tile) ==> {
            let key = more_tiles@.last();
            &&& more_tiles@ == tiles@.push(key)
            &&& key.0 == 14 && key.1 < 16384 && key.2 < 16384
            &&& distance(key.1, tile.0) <= distance(column, tile.0)
            &&& distance(key.2, tile.1) <= distance(row, tile.1)
        },
{
    lemma_distinct(samples@);
    assert(more@.drop_last() =~= samples@);
    assert(distinct(samples@).contains(tile) <==> samples@.contains(tile));
    law_nearest_tile_of_map(tile, column, row);
    if !samples@.contains(tile) {
        assert(more_tiles@ =~= tiles@.push(on_map(tile)));
    }
}

/// Every tile on which a sample lies is required; if it lies outside the map, the nearest tile of the
/// map is.
pub proof fn law_tiles_of_samples_are_required(
    sample_tiles: Seq<(u32, u32)>,
    tile: (u32, u32),
)
    requires
        sample_tiles.contains(tile),
    ensures
        spec_required_tiles(sample_tiles).contains(on_map(tile)),
        is_on_map(tile) ==> spec_required_tiles(sample_tiles).contains((ZOOM, tile.0, tile.1)),
{
    lemma_distinct(sample_tiles);
    assert(distinct(sample_tiles).contains(tile));
    let i = choose|i: int|
        0 <= i < distinct(sample_tiles).len() && distinct(sample_tiles)[i] == tile;
    assert(spec_required_tiles(sample_tiles)[i] == on_map(tile));
}

/// Whether a sample lies on a tile whose place on the map is `key`.
pub open spec fn is_sampled(sample_tiles: Seq<(u32, u32)>, key: TileKey) -> bool {
    exists|i: int| 0 <= i < sample_tiles.len() && on_map(#[trigger] sample_tiles[i]) == key
}

/// Only tiles of the map are required, and only those on which a sample lies or which are nearest to
/// one on which a sample lies.
pub proof fn law_required_tiles_are_sampled(sample_tiles: Seq<(u32, u32)>, key: TileKey)
    requires
        spec_required_tiles(sample_tiles).contains(key),
    ensures
        key.0 == ZOOM,
        is_on_map((key.1, key.2)),
        is_sampled(sample_tiles, key),
{
    law_size_of_map();
    lemma_distinct(sample_tiles);
    let unique = distinct(sample_tiles);
    let i = choose|i: int| 0 <= i < unique.len() && spec_required_tiles(sample_tiles)[i] == key;
    assert(unique.contains(unique[i]));
    let j = choose|j: int| 0 <= j < sample_tiles.len() && sample_tiles[j] == unique[i];
    assert(on_map(sample_tiles[j]) == key);
}

/// No tile is required twice, unless two samples lie on different tiles that have the same place on
/// the map; no two tiles of the map have.
pub proof fn law_no_tile_is_required_twice(sample_tiles: Seq<(u32, u32)>)
    ensures
        spec_required_tiles(sample_tiles).no_duplicates() <==> forall|i: int, j: int|
            #![trigger sample_tiles[i], sample_tiles[j]]
            0 <= i < sample_tiles.len() && 0 <= j < sample_tiles.len() && on_map(sample_tiles[i])
                == on_map(sample_tiles[j]) ==> sample_tiles[i] == sample_tiles[j],
        forall|s: (u32, u32), t: (u32, u32)|
            is_on_map(s) && is_on_map(t) && #[trigger] on_map(s) == #[trigger] on_map(t) ==> s == t,
{
    lemma_distinct(sample_tiles);
    let unique = distinct(sample_tiles);
    let required = spec_required_tiles(sample_tiles);
    if required.no_duplicates() {
        assert forall|i: int, j: int|
            #![trigger sample_tiles[i], sample_tiles[j]]
            0 <= i < sample_tiles.len() && 0 <= j < sample_tiles.len() && on_map(sample_tiles[i])
                == on_map(sample_tiles[j]) implies sample_tiles[i] == sample_tiles[j] by {
            assert(unique.contains(sample_tiles[i]));
            assert(unique.contains(sample_tiles[j]));
            let k = choose|k: int| 0 <= k < unique.len() && unique[k] == sample_tiles[i];
            let l = choose|l: int| 0 <= l < unique.len() && unique[l] == sample_tiles[j];
            assert(required[k] == required[l]);
        }
    }
    if forall|i: int, j: int|
        #![trigger sample_tiles[i], sample_tiles[j]]
        0 <= i < sample_tiles.len() && 0 <= j < sample_tiles.len() && on_map(sample_tiles[i])
            == on_map(sample_tiles[j]) ==> sample_tiles[i] == sample_tiles[j] {
        assert forall|k: int, l: int|
            0 <= k < required.len() && 0 <= l < required.len() && k != l implies required[k]
            != required[l] by {
            assert(unique[k] != unique[l]);
            assert(unique.contains(unique[k]));
            assert(unique.contains(unique[l]));
            let i = choose|i: int| 0 <= i < sample_tiles.len() && sample_tiles[i] == unique[k];
            let j = choose|j: int| 0 <= j < sample_tiles.len() && sample_tiles[j] == unique[l];
            assert(sample_tiles[i] != sample_tiles[j]);
        }
    }
}

/// Once an image has been stored for each of a chunk's tiles that was missing, in any order and among
/// any others, the tile of each of its samples is in the cache; for a sample outside the map, the
/// nearest tile of the map is.
pub proof fn law_samples_find_their_tiles(
    sample_tiles: Seq<(u32, u32)>,
    tiles: Map<TileKey, TileView>,
    images: Seq<(TileKey, TileView)>,
    tile: (u32, u32),
)
    requires
        forall|key: TileKey| #[trigger]
            missing(tiles, spec_required_tiles(sample_tiles)).contains(key) ==> has_image(
                images,
                key,
            ),
        sample_tiles.contains(tile),
    ensures
        stored(tiles, images).contains_key(on_map(tile)),
        is_on_map(tile) ==> stored(tiles, images).contains_key((ZOOM, tile.0, tile.1)),
{
    law_tiles_of_samples_are_required(sample_tiles, tile);
    law_required_tiles_are_loaded(
        tiles,
        spec_required_tiles(sample_tiles),
        images,
        on_map(tile),
    );
}

/// The tiles on which the samples of a chunk lie, in the order of the samples, if `tile_of` gives the
/// tile on which a sample lies.
pub open spec fn tiles_of_samples(tile_of: spec_fn((u32, u32)) -> (u32, u32)) -> Seq<(u32, u32)> {
    spec_sample_points().map_values(tile_of)
}

/// The tile of every vertex of a chunk's mesh is required, whatever the projection that gives the tile
/// of a vertex; and once an image has been stored for each of the chunk's tiles that was missing, it
/// is in the cache.
pub proof fn law_vertices_have_their_tiles(
    tile_of: spec_fn((u32, u32)) -> (u32, u32),
    tiles: Map<TileKey, TileView>,
    images: Seq<(TileKey, TileView)>,
    column: u32,
    row: u32,
)
    requires
        column < SUBDIV_PER_TILE + 2,
        row < SUBDIV_PER_TILE + 2,
    ensures
        spec_required_tiles(tiles_of_samples(tile_of)).contains(on_map(tile_of((column, row)))),
        (forall|key: TileKey| #[trigger]
            missing(tiles, spec_required_tiles(tiles_of_samples(tile_of))).contains(key)
                ==> has_image(images, key)) ==> stored(tiles, images).contains_key(
            on_map(tile_of((column, row))),
        ),
{
    law_samples_fill_chunk(column, row);
    let points = spec_sample_points();
    let k = choose|k: int| 0 <= k < points.len() && points[k] == (column, row);
    assert(tiles_of_samples(tile_of)[k] == tile_of((column, row)));
    law_tiles_of_samples_are_required(tiles_of_samples(tile_of), tile_of((column, row)));
    if forall|key: TileKey| #[trigger]
        missing(tiles, spec_required_tiles(tiles_of_samples(tile_of))).contains(key) ==> has_image(
            images,
            key,
        ) {
        law_samples_find_their_tiles(
            tiles_of_samples(tile_of),
            tiles,
            images,
            tile_of((column, row)),
        );
    }
}

} // verus!
