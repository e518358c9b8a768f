use terrain::address::{refusal, TerrariumCoords};
use terrain::decimal::push_decimal;

fn numeral(n: u32) -> String {
    let mut out = String::from("n = ");
    push_decimal(&mut out, n);
    out
}

#[test]
fn numerals_are_decimal() {
    assert_eq!(numeral(0), "n = 0");
    assert_eq!(numeral(9), "n = 9");
    assert_eq!(numeral(10), "n = 10");
    assert_eq!(numeral(1_203_456_789), "n = 1203456789");
    assert_eq!(numeral(u32::MAX), "n = 4294967295");
}

#[test]
fn numerals_agree_with_display() {
    for n in 0..20_000u32 {
        assert_eq!(numeral(n), format!("n = {}", n));
    }
}

#[test]
fn file_and_address_of_a_tile() {
    let coords = TerrariumCoords { z: 14, x: 8592, y: 6019 };
    assert_eq!(coords.file_name(), "terrain_cache/14_8592_6019.webp");
    assert_eq!(coords.url(), "https://tiles.mapterhorn.com/14/8592/6019.webp");
    assert_eq!(coords.clone().url(), coords.url());
}

#[test]
fn tiles_with_the_same_digits_have_different_files() {
    let a = TerrariumCoords { z: 1, x: 11, y: 1 };
    let b = TerrariumCoords { z: 11, x: 1, y: 1 };
    let c = TerrariumCoords { z: 1, x: 1, y: 11 };
    assert_ne!(a.file_name(), b.file_name());
    assert_ne!(a.file_name(), c.file_name());
    assert_ne!(b.file_name(), c.file_name());
    assert_ne!(a.url(), b.url());
}

#[test]
fn messages() {
    let coords = TerrariumCoords { z: 14, x: 1, y: 2 };
    assert_eq!(coords.missing("timed out"), "Missing tile 14/1/2: timed out");
    assert_eq!(
        refusal(&coords.url(), "404 Not Found"),
        "Server responded to https://tiles.mapterhorn.com/14/1/2.webp with status: 404 Not Found"
    );
}
