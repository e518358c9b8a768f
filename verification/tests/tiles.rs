use image::codecs::webp::WebPEncoder;
use image::{ExtendedColorType, ImageFormat};
use std::sync::Arc;
use terrain::cache::{init_cache, TerrainCacheResource};
use terrain::tile_image::{TileImage, TILE_SIZE};

/// A lossless WebP file of an image.
fn webp(width: u32, height: u32, samples: &[u8], color: ExtendedColorType) -> Vec<u8> {
    let mut bytes = Vec::new();
    WebPEncoder::new_lossless(&mut bytes).encode(samples, width, height, color).unwrap();
    bytes
}

/// Decodes a WebP file and reduces it to RGB.
fn decode(bytes: &[u8]) -> Option<TileImage> {
    let image = image::load_from_memory_with_format(bytes, ImageFormat::WebP).ok()?.to_rgb8();
    TileImage::from_raw(image.width(), image.height(), image.into_raw())
}

fn is_dummy(tile: &TileImage) -> bool {
    tile.covers(511, 511)
        && !tile.covers(512, 0)
        && !tile.covers(0, 512)
        && (0..512).all(|y| (0..512).all(|x| tile.pixel(x, y) == (128, 0, 0)))
}

#[test]
fn dummy_tile_is_at_sea_level() {
    let dummy = TileImage::dummy();
    assert!(is_dummy(&dummy));
    assert_eq!(dummy.height(0, 0), 0);
    assert_eq!(dummy.height(511, 511), 0);
    assert_eq!(dummy.height(512, 3), 0);
}

#[test]
fn heights_of_pixels() {
    let samples = vec![128, 0, 0, 0, 0, 0, 255, 255, 255, 128, 1, 0, 127, 255, 128, 130, 7, 64];
    let tile = TileImage::new(3, 2, samples);
    assert_eq!(tile.pixel(1, 1), (127, 255, 128));
    assert_eq!(tile.height(0, 0), 0);
    assert_eq!(tile.height(1, 0), -32768 * 256);
    assert_eq!(tile.height(2, 0), 32768 * 256 - 1);
    assert_eq!(tile.height(0, 1), 256);
    assert_eq!(tile.height(1, 1), -128);
    assert_eq!(tile.height(2, 1), 519 * 256 + 64);
    assert_eq!(tile.height(512, 0), 0);
    assert_eq!(tile.height(0, 4_000_000_000), 0);
}

#[test]
fn pixels_are_ordered_as_their_heights() {
    let height = |r, g, b| TileImage::new(1, 1, vec![r, g, b]).height(0, 0);
    assert_eq!(height(0, 0, 1), height(0, 0, 0) + 1);
    assert_eq!(height(0, 1, 0), height(0, 0, 255) + 1);
    assert_eq!(height(1, 0, 0), height(0, 255, 255) + 1);
    assert_eq!(height(128, 0, 0), height(127, 255, 255) + 1);
}

#[test]
fn heights_agree_with_floating_point() {
    for r in [0u8, 1, 127, 128, 129, 255] {
        for g in 0..=255u8 {
            for b in [0u8, 1, 2, 100, 254, 255] {
                let tile = TileImage::new(1, 1, vec![r, g, b]);
                let metres = (r as f32 * 256.0 + g as f32 + b as f32 / 256.0) - 32768.0;
                assert_eq!(tile.height(0, 0) as f32 / 256.0, metres);
            }
        }
    }
}

#[test]
fn tiles_of_decoded_files() {
    let samples = [10, 20, 30, 40, 50, 60, 70, 80, 90, 100, 110, 120];
    let tile = decode(&webp(2, 2, &samples, ExtendedColorType::Rgb8)).unwrap();
    assert_eq!(tile.pixel(0, 0), (10, 20, 30));
    assert_eq!(tile.pixel(1, 0), (40, 50, 60));
    assert_eq!(tile.pixel(0, 1), (70, 80, 90));
    assert_eq!(tile.pixel(1, 1), (100, 110, 120));
    assert!(!tile.covers(2, 0));
    assert!(!tile.covers(0, 2));
}

#[test]
fn transparency_is_dropped() {
    let samples = [10, 20, 30, 255, 40, 50, 60, 7];
    let tile = decode(&webp(2, 1, &samples, ExtendedColorType::Rgba8)).unwrap();
    assert_eq!(tile.pixel(0, 0), (10, 20, 30));
    assert_eq!(tile.pixel(1, 0), (40, 50, 60));
    assert!(tile.covers(1, 0));
    assert!(!tile.covers(2, 0));
}

#[test]
fn images_need_three_samples_for_each_pixel() {
    let tile = TileImage::from_raw(1, 2, vec![1, 2, 3, 4, 5, 6]).unwrap();
    assert_eq!(tile.pixel(0, 1), (4, 5, 6));
    assert!(!tile.covers(1, 0));
    assert!(TileImage::from_raw(1, 2, vec![1, 2, 3, 4, 5]).is_none());
    assert!(TileImage::from_raw(1, 2, vec![1, 2, 3, 4, 5, 6, 7]).is_none());
    assert!(TileImage::from_raw(0, 7, vec![]).is_some());
    assert!(TileImage::from_raw(u32::MAX, u32::MAX, vec![]).is_none());
}

#[test]
fn a_new_cache_is_empty() {
    let resource = TerrainCacheResource::default();
    assert!(!resource.cache.contains_key((14, 0, 0)));
    assert!(resource.cache.get((14, 0, 0)).is_none());
    assert_eq!(resource.cache.height((14, 0, 0), 5, 5), 0);
    assert!(resource.cache.readable((14, 0, 0), 5, 5));
}

#[test]
fn the_cache_gives_back_what_was_stored() {
    let mut cache = init_cache();
    let first = Arc::new(TileImage::new(1, 1, vec![129, 0, 0]));
    let second = Arc::new(TileImage::new(1, 1, vec![130, 2, 1]));
    assert!(cache.insert((14, 3, 4), Arc::clone(&first)).is_none());
    assert!(cache.contains_key((14, 3, 4)));
    assert!(!cache.contains_key((14, 4, 3)));
    assert!(!cache.contains_key((13, 3, 4)));
    assert_eq!(cache.height((14, 3, 4), 0, 0), 256 * 256);
    assert_eq!(cache.get((14, 3, 4)).unwrap().pixel(0, 0), (129, 0, 0));

    assert!(cache.insert((14, 4, 3), Arc::clone(&second)).is_none());
    assert_eq!(cache.height((14, 3, 4), 0, 0), 256 * 256);
    let replaced = cache.insert((14, 3, 4), second).unwrap();
    assert_eq!(replaced.pixel(0, 0), (129, 0, 0));
    assert_eq!(cache.height((14, 3, 4), 0, 0), 514 * 256 + 1);
}

#[test]
fn pixels_that_an_image_lacks_cannot_be_read() {
    let mut cache = init_cache();
    cache.insert((14, 0, 0), Arc::new(TileImage::new(2, 1, vec![128, 0, 1, 128, 0, 2])));
    assert!(cache.readable((14, 0, 0), 1, 0));
    assert!(!cache.readable((14, 0, 0), 2, 0));
    assert!(!cache.readable((14, 0, 0), 0, 1));
    assert!(cache.readable((14, 0, 0), TILE_SIZE, 0));
    assert!(cache.readable((14, 0, 1), 0, 1));
    assert_eq!(cache.height((14, 0, 0), 1, 0), 2);
    assert_eq!(cache.height((14, 0, 0), TILE_SIZE, 0), 0);
}

#[test]
fn missing_tiles_are_listed_in_order() {
    let mut cache = init_cache();
    cache.insert((14, 1, 1), Arc::new(TileImage::dummy()));
    let required = vec![(14, 2, 2), (14, 1, 1), (14, 0, 0), (14, 2, 2)];
    assert_eq!(cache.missing(&required), vec![(14, 2, 2), (14, 0, 0), (14, 2, 2)]);
    assert_eq!(cache.missing(&vec![(14, 1, 1)]), vec![]);
}
