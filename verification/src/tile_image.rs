//! Elevation tiles: RGB images whose pixels spell heights.
use vstd::prelude::*;

verus! {

/// Pixels of a tile along each side.
pub const TILE_SIZE: u32 = 512;

/// What a tile image holds: its size, and red, green and blue of each pixel, row by row.
pub struct TileView {
    pub width: nat,
    pub height: nat,
    pub samples: Seq<u8>,
}

impl TileView {
    /// Whether there is a pixel in column `x` of row `y`.
    pub open spec fn covers(self, x: nat, y: nat) -> bool {
        x < self.width && y < self.height
    }

    /// Red, green and blue of the pixel in column `x` of row `y`.
    pub open spec fn pixel(self, x: nat, y: nat) -> (u8, u8, u8) {
        let start = 3 * (y * self.width + x) as int;
        (self.samples[start], self.samples[start + 1], self.samples[start + 2])
    }

    /// Whether the samples are just those of the pixels.
    pub open spec fn wf(self) -> bool {
        self.samples.len() == 3 * (self.width * self.height)
    }

    /// The height read in column `x` of row `y`: that of the pixel there, or sea level outside the
    /// square of `TILE_SIZE`.
    pub open spec fn height(self, x: nat, y: nat) -> int {
        if x < TILE_SIZE && y < TILE_SIZE {
            elevation(self.pixel(x, y))
        } else {
            0
        }
    }
}

/// The height that a pixel spells, in units of 1/256 metre above sea level.
pub open spec fn elevation(pixel: (u8, u8, u8)) -> int {
    65536 * pixel.0 + 256 * pixel.1 + pixel.2 - 32768 * 256
}

/// The tile that stands in for one that cannot be had: every pixel at sea level.
pub open spec fn dummy_view() -> TileView {
    TileView {
        width: TILE_SIZE as nat,
        height: TILE_SIZE as nat,
        samples: Seq::new(
            3 * (TILE_SIZE * TILE_SIZE) as nat,
            |i: int| if i % 3 == 0 {
                128u8
            } else {
                0u8
            },
        ),
    }
}

/// The pixel in column `x` of row `y` lies within the samples.
proof fn lemma_pixel_in_samples(width: nat, height: nat, x: nat, y: nat)
    requires
        x < width,
        y < height,
    ensures
        0 <= y * width,
        3 * (y * width + x) + 2 < 3 * (width * height),
{
    assert(y * width + x < width * height) by (nonlinear_arith)
        requires
            x < width,
            y < height,
    ;
    assert(0 <= y * width) by (nonlinear_arith);
}

/// An RGB image.
#[derive(Debug)]
pub struct TileImage {
    width: u32,
    height: u32,
    samples: Vec<u8>,
}

impl View for TileImage {
    type V = TileView;

    closed spec fn view(&self) -> TileView {
        TileView {
            width: self.width as nat,
            height: self.height as nat,
            samples: self.samples@,
        }
    }
}

impl TileImage {
    #[verifier::type_invariant]
    closed spec fn inv(self) -> bool {
        self@.wf()
    }

    /// The image of the given size with the given samples.
    pub fn new(width: u32, height: u32, samples: Vec<u8>) -> (image: TileImage)
        requires
            samples@.len() == 3 * (width * height),
        ensures
            image@ == (TileView {
                width: width as nat,
                height: height as nat,
                samples: samples@,
            }),
    {
        TileImage { width, height, samples }
    }

    /// The image of the given size with the given samples, if there are three of them for each of its
    /// pixels.
    pub fn from_raw(width: u32, height: u32, samples: Vec<u8>) -> (image: Option<TileImage>)
        ensures
            image is Some <==> samples@.len() == 3 * (width * height),
            image matches Some(image) ==> image@ == (TileView {
                width: width as nat,
                height: height as nat,
                samples: samples@,
            }),
    {
        assert(0 <= width * height <= 0xffff_ffff * 0xffff_ffff) by (nonlinear_arith)
            requires
                0 <= width <= 0xffff_ffff,
                0 <= height <= 0xffff_ffff,
        ;
        if samples.len() as u128 == 3 * (width as u128 * height as u128) {
            Some(TileImage::new(width, height, samples))
        } else {
            None
        }
    }

    /// The tile that stands in for one that cannot be had: `TILE_SIZE` pixels square, each of them
    /// at sea level.
    pub fn dummy() -> (image: TileImage)
        ensures
            image@ == dummy_view(),
    {
        let count: usize = 3 * 512 * 512;
        let mut samples: Vec<u8> = Vec::with_capacity(count);
        let mut i: usize = 0;
        while i < count
            invariant
                count == 786432,
                i <= count,
                i % 3 == 0,
                samples@.len() == i,
                forall|j: int|
                    0 <= j < i ==> #[trigger] samples@[j] == (if j % 3 == 0 {
                        128u8
                    } else {
                        0u8
                    }),
            decreases count - i,
        {
            samples.push(128);
            samples.push(0);
            samples.push(0);
            i = i + 3;
        }
        assert(samples@ =~= dummy_view().samples);
        TileImage::new(TILE_SIZE, TILE_SIZE, samples)
    }

    /// Whether there is a pixel in column `x` of row `y`.
    pub fn covers(&self, x: u32, y: u32) -> (covered: bool)
        ensures
            covered == self@.covers(x as nat, y as nat),
    {
        x < self.width && y < self.height
    }

    /// Red, green and blue of the pixel in column `x` of row `y`.
    pub fn pixel(&self, x: u32, y: u32) -> (pixel: (u8, u8, u8))
        requires
            self@.covers(x as nat, y as nat),
        ensures
            pixel == self@.pixel(x as nat, y as nat),
    {
        proof {
            use_type_invariant(self);
            lemma_pixel_in_samples(self.width as nat, self.height as nat, x as nat, y as nat);
            assert(self.samples@.len() == self.samples.len());
        }
        let row: usize = y as usize * self.width as usize;
        let start: usize = 3 * (row + x as usize);
        (self.samples[start], self.samples[start + 1], self.samples[start + 2])
    }

    /// The height in column `x` of row `y`, in units of 1/256 metre; sea level outside the square
    /// of `TILE_SIZE`.
    pub fn height(&self, x: u32, y: u32) -> (height: i32)
        requires
            x < TILE_SIZE && y < TILE_SIZE ==> self@.covers(x as nat, y as nat),
        ensures
            height == self@.height(x as nat, y as nat),
    {
        if x < TILE_SIZE && y < TILE_SIZE {
            let pixel = self.pixel(x, y);
            65536 * pixel.0 as i32 + 256 * pixel.1 as i32 + pixel.2 as i32 - 32768 * 256
        } else {
            0
        }
    }
}

/// The samples of an image are its pixels one after the other, row after row: those of the first row
/// come first, and behind them those of the image that is left without it.
pub proof fn law_samples_are_pixels_in_order(view: TileView, x: nat, y: nat)
    requires
        view.wf(),
        x < view.width,
        y < view.height,
    ensures
        view.pixel(x, 0) == (
            view.samples[3 * x as int],
            view.samples[3 * x as int + 1],
            view.samples[3 * x as int + 2],
        ),
        y > 0 ==> {
            let rest = TileView {
                width: view.width,
                height: (view.height - 1) as nat,
                samples: view.samples.skip(3 * view.width as int),
            };
            rest.wf() && view.pixel(x, y) == rest.pixel(x, (y - 1) as nat)
        },
{
    if y > 0 {
        let width = view.width as int;
        let height = view.height as int;
        let up = y - 1;
        lemma_pixel_in_samples(view.width, view.height, x, y);
        assert(up * width + width == y * width) by (nonlinear_arith)
            requires
                up == y - 1,
        ;
        assert(width * height == width + width * (height - 1)) by (nonlinear_arith);
        assert(0 <= up * width) by (nonlinear_arith)
            requires
                up >= 0,
                width >= 0,
        ;
        assert(0 <= width * (height - 1)) by (nonlinear_arith)
            requires
                width >= 0,
                height >= 1,
        ;
    }
}

/// Whether the image was made of the samples.
pub open spec fn is_made_of(
    image: TileImage,
    width: u32,
    height: u32,
    samples: Vec<u8>,
) -> bool {
    call_ensures(TileImage::new, (width, height, samples), image) || call_ensures(
        TileImage::from_raw,
        (width, height, samples),
        Some(image),
    )
}

/// What an image is made of is what is read from it: of its pixels, counted from the first row along
/// the rows, pixel `k` is made of the three samples from `3 * k` on.
pub proof fn law_pixels_are_those_given(
    image: TileImage,
    width: u32,
    height: u32,
    samples: Vec<u8>,
    k: int,
    x: u32,
    y: u32,
    pixel: (u8, u8, u8),
)
    requires
        is_made_of(image, width, height, samples),
        0 <= k < width * height,
        x == k % width as int,
        y == k / width as int,
        call_ensures(TileImage::pixel, (&image, x, y), pixel),
    ensures
        pixel == (samples@[3 * k], samples@[3 * k + 1], samples@[3 * k + 2]),
{
    assert(width > 0) by (nonlinear_arith)
        requires
            width >= 0,
            0 < width * height,
    ;
    vstd::arithmetic::div_mod::lemma_fundamental_div_mod(k, width as int);
    assert(y * width == width * y) by (nonlinear_arith);
}

/// An image has a pixel wherever the column is less than its width and the row less than its height.
pub proof fn law_covered_is_within_size(
    image: TileImage,
    width: u32,
    height: u32,
    samples: Vec<u8>,
    x: u32,
    y: u32,
    covered: bool,
)
    requires
        is_made_of(image, width, height, samples),
        call_ensures(TileImage::covers, (&image, x, y), covered),
    ensures
        covered <==> x < width && y < height,
{
}

/// The height read at a pixel is 256 times red and green and a 256th of blue, in metres, less 32768
/// metres; outside the square of 512 pixels it is sea level.
pub proof fn law_height_is_spelled_by_samples(
    image: TileImage,
    width: u32,
    height: u32,
    samples: Vec<u8>,
    k: int,
    x: u32,
    y: u32,
    read: i32,
)
    requires
        is_made_of(image, width, height, samples),
        k == y * width + x,
        call_ensures(TileImage::height, (&image, x, y), read),
    ensures
        x < 512 && y < 512 ==> read + 32768 * 256 == 256 * (256 * samples@[3 * k] + samples@[3 * k
            + 1]) + samples@[3 * k + 2],
        x >= 512 || y >= 512 ==> read == 0,
{
}

/// Samples make an image if there are three of them for each pixel, and not otherwise.
pub proof fn law_samples_must_fit_size(
    width: u32,
    height: u32,
    samples: Vec<u8>,
    image: Option<TileImage>,
)
    requires
        call_ensures(TileImage::from_raw, (width, height, samples), image),
    ensures
        image is Some <==> samples@.len() == 3 * width * height,
{
    assert(3 * width * height == 3 * (width * height)) by (nonlinear_arith);
}

/// The dummy tile has 512 pixels along each side, each of them as high as the sea: red 128 and nothing
/// else.
pub proof fn law_dummy_is_a_whole_tile(
    dummy: TileImage,
    x: u32,
    y: u32,
    covered: bool,
    pixel: (u8, u8, u8),
)
    requires
        call_ensures(TileImage::dummy, (), dummy),
        call_ensures(TileImage::covers, (&dummy, x, y), covered),
        call_ensures(TileImage::pixel, (&dummy, x, y), pixel),
    ensures
        covered <==> x < 512 && y < 512,
        covered ==> pixel == (128u8, 0u8, 0u8),
{
    if x < 512 && y < 512 {
        lemma_dummy_pixel(x as nat, y as nat);
    }
}

/// The pixels of the dummy tile.
pub proof fn lemma_dummy_pixel(x: nat, y: nat)
    requires
        x < 512,
        y < 512,
    ensures
        dummy_view().pixel(x, y) == (128u8, 0u8, 0u8),
{
    lemma_pixel_in_samples(TILE_SIZE as nat, TILE_SIZE as nat, x, y);
}

/// The dummy tile is a whole tile, at sea level wherever a height is read.
pub proof fn law_dummy_is_at_sea_level(x: nat, y: nat)
    ensures
        dummy_view().wf(),
        dummy_view().covers(x, y) <==> x < TILE_SIZE && y < TILE_SIZE,
        dummy_view().height(x, y) == 0,
{
    if x < TILE_SIZE && y < TILE_SIZE {
        lemma_pixel_in_samples(TILE_SIZE as nat, TILE_SIZE as nat, x, y);
    }
}

/// A pixel spells a height from 32768 metres below sea level to less than 32768 metres above it.
pub proof fn law_elevation_range(pixel: (u8, u8, u8))
    ensures
        -32768 * 256 <= elevation(pixel) < 32768 * 256,
{
}

/// Every height in the range, to 1/256 metre, is spelled by a pixel.
pub proof fn law_every_elevation_is_spelled(height: int)
    requires
        -32768 * 256 <= height < 32768 * 256,
    ensures
        exists|pixel: (u8, u8, u8)| elevation(pixel) == height,
{
    let n = height + 32768 * 256;
    let pixel = ((n / 65536) as u8, (n / 256 % 256) as u8, (n % 256) as u8);
    assert(elevation(pixel) == height);
}

/// Pixels are ordered as the heights that they spell, by red, then green, then blue; so no two pixels
/// spell the same height.
pub proof fn law_elevation_orders_pixels(p: (u8, u8, u8), q: (u8, u8, u8))
    ensures
        elevation(p) < elevation(q) <==> p.0 < q.0 || (p.0 == q.0 && (p.1 < q.1 || (p.1 == q.1
            && p.2 < q.2))),
        elevation(p) == elevation(q) ==> p == q,
{
}

} // verus!
