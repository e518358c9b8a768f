use image::codecs::webp::WebPEncoder;
use image::{ExtendedColorType, ImageFormat};
use terrain::cache::init_cache;
use terrain::load::{ensure_tiles_loaded, LoadAction, LoadEvent, Stage, TileLoad};
use terrain::required::{calculate_required_tiles_for_chunk, max_tile, ZOOM};
use terrain::tile_image::TileImage;

const KEY: (u8, u32, u32) = (14, 8592, 6019);
const PATH: &str = "terrain_cache/14_8592_6019.webp";
const URL: &str = "https://tiles.mapterhorn.com/14/8592/6019.webp";

fn webp(samples: &[u8]) -> Vec<u8> {
    let mut bytes = Vec::new();
    WebPEncoder::new_lossless(&mut bytes).encode(samples, 1, 1, ExtendedColorType::Rgb8).unwrap();
    bytes
}

/// Decodes a WebP file and reduces it to RGB.
fn decode(bytes: &[u8]) -> Option<TileImage> {
    let image = image::load_from_memory_with_format(bytes, ImageFormat::WebP).ok()?.to_rgb8();
    TileImage::from_raw(image.width(), image.height(), image.into_raw())
}

/// Hands a load the bytes of its file, and what they decode to.
fn read(load: TileLoad, bytes: Vec<u8>) -> TileLoad {
    let image = decode(&bytes);
    load.step(LoadEvent::FileRead(bytes)).step(LoadEvent::Decoded(image))
}

/// The load of a tile whose file is not on disk.
fn requesting() -> TileLoad {
    TileLoad::new(KEY).step(LoadEvent::FileExists(false))
}

fn receiving() -> TileLoad {
    requesting().step(LoadEvent::Response(true, String::from("200 OK")))
}

#[test]
fn a_file_on_disk_is_read_without_a_download() {
    let load = TileLoad::new(KEY);
    assert!(matches!(load.action(), LoadAction::CheckFile(path) if path == PATH));
    let load = load.step(LoadEvent::FileExists(true));
    assert!(matches!(load.action(), LoadAction::ReadFile(path, None) if path == PATH));
    let file = webp(&[129, 0, 5]);
    let load = load.step(LoadEvent::FileRead(file.clone()));
    assert!(matches!(load.action(), LoadAction::Decode(bytes) if *bytes == file));
    let load = load.step(LoadEvent::Decoded(decode(&file)));
    assert!(matches!(load.action(), LoadAction::Store));
    let mut cache = init_cache();
    assert!(load.store(&mut cache).is_ok());
    assert_eq!(cache.height(KEY, 0, 0), 256 * 256 + 5);
}

#[test]
fn a_missing_file_is_downloaded_and_written() {
    let load = requesting();
    assert!(matches!(load.action(), LoadAction::Request(url) if url == URL));
    let load = load.step(LoadEvent::Response(true, String::from("200 OK")));
    assert!(matches!(load.action(), LoadAction::ReceiveBody));
    let load = load.step(LoadEvent::Body(vec![1, 2, 3]));
    assert!(
        matches!(load.action(), LoadAction::WriteFile(path, body) if path == PATH && *body == vec![1, 2, 3])
    );
    let load = load.step(LoadEvent::Written);
    assert!(matches!(load.action(), LoadAction::ReadFile(path, None) if path == PATH));
}

#[test]
fn a_refused_request_is_read_anyway() {
    let load = requesting().step(LoadEvent::Response(false, String::from("404 Not Found")));
    let warning = "Missing tile 14/8592/6019: Server responded to \
                   https://tiles.mapterhorn.com/14/8592/6019.webp with status: 404 Not Found";
    assert!(
        matches!(load.action(), LoadAction::ReadFile(path, Some(text)) if path == PATH && text == warning)
    );
    let load = load.step(LoadEvent::FileRead(vec![]));
    let mut cache = init_cache();
    assert!(load.store(&mut cache).is_ok());
    assert!(cache.contains_key(KEY));
    assert_eq!(cache.get(KEY).unwrap().pixel(511, 511), (128, 0, 0));
    assert_eq!(cache.height(KEY, 511, 511), 0);
}

#[test]
fn a_failure_at_any_stage_is_read_anyway() {
    let writing = receiving().step(LoadEvent::Body(vec![7]));
    for load in [requesting(), receiving(), writing] {
        let load = load.step(LoadEvent::Failed(String::from("connection reset")));
        let expected = "Missing tile 14/8592/6019: connection reset";
        assert!(
            matches!(load.action(), LoadAction::ReadFile(path, Some(text)) if path == PATH && text == expected)
        );
        let load = read(load, webp(&[1, 2, 3]));
        assert!(matches!(&load.stage, Stage::Finished(image) if image.pixel(0, 0) == (1, 2, 3)));
    }
}

#[test]
fn files_that_are_no_images_give_the_dummy_tile() {
    let mut cut = webp(&[1, 2, 3]);
    cut.truncate(20);
    for bytes in [vec![], b"404 page not found".to_vec(), cut] {
        let load = read(TileLoad::new(KEY).step(LoadEvent::FileExists(true)), bytes);
        let mut cache = init_cache();
        assert!(load.store(&mut cache).is_ok());
        let tile = cache.get(KEY).unwrap();
        assert!(tile.covers(511, 511) && !tile.covers(512, 0) && !tile.covers(0, 512));
        assert!((0..512).all(|y| (0..512).all(|x| tile.pixel(x, y) == (128, 0, 0))));
    }
}

#[test]
fn nothing_is_decoded_of_an_empty_file() {
    let load = TileLoad::new(KEY).step(LoadEvent::FileExists(true)).step(LoadEvent::FileRead(vec![]));
    assert!(matches!(load.action(), LoadAction::Store));
}

/// An animated file whose first frame has one pixel by its frame header and two by two by its bit
/// stream is handed on as it was read, and where no image is made of it, the dummy tile stands in.
#[test]
fn a_file_that_contradicts_itself_gives_the_dummy_tile() {
    let file: Vec<u8> = vec![
        82, 73, 70, 70, 126, 0, 0, 0, 87, 69, 66, 80, 86, 80, 56, 88,
        10, 0, 0, 0, 18, 0, 0, 0, 0, 0, 0, 0, 0, 0, 65, 78,
        73, 77, 6, 0, 0, 0, 0, 0, 0, 0, 0, 0, 65, 78, 77, 70,
        82, 0, 0, 0, 0, 0, 0, 0, 0, 0, 0, 0, 0, 0, 0, 0,
        0, 0, 0, 0, 65, 76, 80, 72, 2, 0, 0, 0, 0, 255, 86, 80,
        56, 32, 48, 0, 0, 0, 208, 1, 0, 157, 1, 42, 2, 0, 2, 0,
        2, 0, 52, 37, 160, 2, 116, 186, 1, 248, 0, 3, 176, 0, 254, 240,
        196, 11, 255, 32, 185, 97, 117, 200, 215, 255, 32, 63, 228, 7, 252, 128,
        255, 248, 242, 0, 0, 0,
    ];
    let load = TileLoad::new(KEY)
        .step(LoadEvent::FileExists(true))
        .step(LoadEvent::FileRead(file.clone()));
    assert!(matches!(load.action(), LoadAction::Decode(bytes) if *bytes == file));
    let load = load.step(LoadEvent::Decoded(None));
    let mut cache = init_cache();
    assert!(load.store(&mut cache).is_ok());
    assert_eq!(cache.get(KEY).unwrap().pixel(511, 511), (128, 0, 0));
    assert_eq!(cache.height(KEY, 0, 0), 0);
}

#[test]
fn events_out_of_place_change_nothing() {
    let load = TileLoad::new(KEY).step(LoadEvent::Written).step(LoadEvent::FileRead(vec![]));
    assert!(matches!(load.stage, Stage::Probing));
    let load = requesting().step(LoadEvent::FileExists(true)).step(LoadEvent::Body(vec![1]));
    assert!(matches!(load.stage, Stage::Requesting));
    let load = receiving().step(LoadEvent::Response(false, String::from("500")));
    assert!(matches!(load.stage, Stage::Receiving));
    let load = receiving().step(LoadEvent::Body(vec![1])).step(LoadEvent::Body(vec![2]));
    assert!(matches!(&load.stage, Stage::Writing(body) if *body == vec![1]));
    let load = TileLoad::new(KEY)
        .step(LoadEvent::FileExists(true))
        .step(LoadEvent::Failed(String::from("late")));
    assert!(matches!(load.stage, Stage::Reading(None)));
    let load = load.step(LoadEvent::Decoded(None));
    assert!(matches!(load.stage, Stage::Reading(None)));
    let load = load.step(LoadEvent::FileRead(vec![3])).step(LoadEvent::FileRead(vec![]));
    assert!(matches!(&load.stage, Stage::Decoding(bytes) if *bytes == vec![3]));
}

#[test]
fn every_load_ends_after_six_answers() {
    let load = receiving()
        .step(LoadEvent::Body(vec![1]))
        .step(LoadEvent::Written)
        .step(LoadEvent::FileRead(vec![1]))
        .step(LoadEvent::Decoded(None));
    assert!(matches!(load.stage, Stage::Finished(_)));
    let load = read(load, webp(&[9, 9, 9]));
    assert!(matches!(&load.stage, Stage::Finished(image) if image.pixel(0, 0) == (128, 0, 0)));
}

#[test]
fn an_unfinished_load_is_not_stored() {
    let mut cache = init_cache();
    let back = requesting().store(&mut cache).unwrap_err();
    assert!(matches!(back.stage, Stage::Requesting));
    assert_eq!((back.coords.z, back.coords.x, back.coords.y), KEY);
    assert!(!cache.contains_key(KEY));
}

#[test]
fn all_required_tiles_are_in_the_cache_after_loading() {
    let samples = vec![(1, 2), (1, 2), (3, 4), (1, 2), (70_000, 5)];
    let required = calculate_required_tiles_for_chunk(&samples);
    let mut cache = init_cache();
    let known = TileLoad::new((ZOOM, 3, 4)).step(LoadEvent::FileExists(true));
    let known = read(known, webp(&[200, 0, 0]));
    assert!(known.store(&mut cache).is_ok());
    let loads = ensure_tiles_loaded(&cache, &required);
    let keys: Vec<_> = loads.iter().map(|load| (load.coords.x, load.coords.y)).collect();
    assert_eq!(keys, vec![(1, 2), (16383, 5)]);
    for load in loads.into_iter().rev() {
        let load = load.step(LoadEvent::FileExists(true)).step(LoadEvent::FileRead(vec![]));
        assert!(load.store(&mut cache).is_ok());
    }
    assert!(required.iter().all(|key| cache.contains_key(*key)));
    assert_eq!(cache.height((ZOOM, 3, 4), 0, 0), 72 * 65536);
    assert_eq!(ensure_tiles_loaded(&cache, &required).len(), 0);
}

#[test]
fn required_tiles_are_distinct_and_on_the_map() {
    assert_eq!(calculate_required_tiles_for_chunk(&vec![]), vec![]);
    let samples = vec![(5, 6), (5, 7), (5, 6), (6, 6), (5, 7)];
    assert_eq!(
        calculate_required_tiles_for_chunk(&samples),
        vec![(14, 5, 6), (14, 5, 7), (14, 6, 6)]
    );
    let outside = vec![(16383, 16384), (u32::MAX, 0), (16383, 16383)];
    assert_eq!(
        calculate_required_tiles_for_chunk(&outside),
        vec![(14, 16383, 16383), (14, 16383, 0), (14, 16383, 16383)]
    );
}

#[test]
fn last_tile_of_the_map() {
    for zoom in 0..=255u8 {
        let expected = (2.0_f32.powi(zoom as i32) as u32).saturating_sub(1);
        assert_eq!(max_tile(zoom), expected);
    }
    assert_eq!(max_tile(ZOOM), 16383);
}
