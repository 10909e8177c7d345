//! The terrain store: two equal-dimension rasters (heights and colors) with
//! toroidally wrapped sampling.
//!
//! Wrapping is per axis, deliberately: the x coordinate wraps by `width` and
//! the y coordinate by `height`, each by Euclidean remainder, so non-square
//! maps tile correctly in both directions.

use vstd::prelude::*;
use vstd::arithmetic::div_mod::{
    lemma_fundamental_div_mod, lemma_fundamental_div_mod_converse_mod,
    lemma_mod_division_less_than_divisor, lemma_mod_twice,
};
use vstd::arithmetic::mul::lemma_mul_inequality;

verus! {

/// A color sample: 8-bit red, green and blue channels.
#[derive(Clone, Copy, PartialEq, Eq, Structural, Debug)]
pub struct Rgb {
    pub r: u8,
    pub g: u8,
    pub b: u8,
}

/// Why building a terrain store failed.
#[derive(Clone, Copy, PartialEq, Eq, Structural, Debug)]
pub enum LoadError {
    /// A source could not be decoded as a raster of the expected pixel format,
    /// or decoded to a raster with a zero dimension.
    DecodeError,
    /// The two sources decoded to rasters of different dimensions.
    DimensionMismatch,
}

/// A decoded raster: `bytes` holds the samples row-major, one byte per sample
/// for a grayscale raster and three (red, green, blue) for a color raster.
pub struct Raster {
    pub width: u32,
    pub height: u32,
    pub bytes: Vec<u8>,
}

/// What `image::load_from_memory` followed by `DynamicImage::as_rgb8` yields
/// on given encoded bytes: `None`, or the width, height and raw samples of the
/// decoded RGB raster. Decoding depends on the bytes alone.
pub uninterp spec fn decoded_rgb8(bytes: Seq<u8>) -> Option<(u32, u32, Seq<u8>)>;

/// What `image::load_from_memory` followed by `DynamicImage::as_luma8` yields
/// on given encoded bytes. Decoding depends on the bytes alone.
pub uninterp spec fn decoded_luma8(bytes: Seq<u8>) -> Option<(u32, u32, Seq<u8>)>;

/// Relies on `image::load_from_memory` and `image::DynamicImage::as_rgb8`:
/// decoding is a pure function of the encoded bytes, and per the `image`
/// crate's documentation an RGB8 buffer holds exactly `3 * width * height`
/// bytes, row-major.
#[verifier::external_body]
fn decode_rgb8(bytes: &[u8]) -> (r: Option<Raster>)
    ensures
        (r is Some) == (decoded_rgb8(bytes@) is Some),
        r is Some ==> {
            let d = decoded_rgb8(bytes@)->0;
            &&& r->0.width == d.0
            &&& r->0.height == d.1
            &&& r->0.bytes@ == d.2
            &&& r->0.bytes@.len() == 3 * d.0 * d.1
        },
{
    match image::load_from_memory(bytes) {
        Err(_) => None,
        Ok(img) => match img.as_rgb8() {
            None => None,
            Some(buf) => Some(Raster {
                width: buf.width(),
                height: buf.height(),
                bytes: buf.as_raw().clone(),
            }),
        },
    }
}

/// Relies on `image::load_from_memory` and `image::DynamicImage::as_luma8`:
/// decoding is a pure function of the encoded bytes, and per the `image`
/// crate's documentation a grayscale buffer holds exactly `width * height`
/// bytes, row-major.
#[verifier::external_body]
fn decode_luma8(bytes: &[u8]) -> (r: Option<Raster>)
    ensures
        (r is Some) == (decoded_luma8(bytes@) is Some),
        r is Some ==> {
            let d = decoded_luma8(bytes@)->0;
            &&& r->0.width == d.0
            &&& r->0.height == d.1
            &&& r->0.bytes@ == d.2
            &&& r->0.bytes@.len() == d.0 * d.1
        },
{
    match image::load_from_memory(bytes) {
        Err(_) => None,
        Ok(img) => match img.as_luma8() {
            None => None,
            Some(buf) => Some(Raster {
                width: buf.width(),
                height: buf.height(),
                bytes: buf.as_raw().clone(),
            }),
        },
    }
}

/// The color sample that a row-major RGB byte sequence holds at pixel `i`.
pub open spec fn rgb_from(bytes: Seq<u8>, i: int) -> Rgb {
    Rgb { r: bytes[3 * i], g: bytes[3 * i + 1], b: bytes[3 * i + 2] }
}

/// The terrain: immutable after construction. Both sample vectors are
/// row-major with `width * height` entries.
pub struct TerrainStore {
    pub width: u32,
    pub height: u32,
    pub heights: Vec<u8>,
    pub colors: Vec<Rgb>,
}

impl TerrainStore {
    /// Well-formedness: positive dimensions shared by both maps.
    pub open spec fn wf(self) -> bool {
        &&& 1 <= self.width
        &&& 1 <= self.height
        &&& self.heights@.len() == self.width * self.height
        &&& self.colors@.len() == self.width * self.height
    }

    /// Row-major index of an in-range coordinate.
    pub open spec fn idx(self, x: int, y: int) -> int {
        y * self.width + x
    }

    /// The stored elevation at an in-range coordinate.
    pub open spec fn height_at(self, x: int, y: int) -> u8 {
        self.heights@[self.idx(x, y)]
    }

    /// The stored color at an in-range coordinate.
    pub open spec fn color_at(self, x: int, y: int) -> Rgb {
        self.colors@[self.idx(x, y)]
    }

    /// Any integer coordinate wraps toroidally: the x axis by `width` and the
    /// y axis by `height`, each by Euclidean remainder, so the result is
    /// always in range and there is no out-of-bounds coordinate.
    pub open spec fn sample_height_spec(self, x: int, y: int) -> u8 {
        self.height_at(x % (self.width as int), y % (self.height as int))
    }

    /// Toroidally wrapped color lookup; wraps exactly as `sample_height_spec`.
    pub open spec fn sample_color_spec(self, x: int, y: int) -> Rgb {
        self.color_at(x % (self.width as int), y % (self.height as int))
    }

    /// The elevation under any integer coordinate, wrapped toroidally.
    pub fn sample_height(&self, x: i64, y: i64) -> (h: u8)
        requires
            self.wf(),
        ensures
            h == self.sample_height_spec(x as int, y as int),
    {
        let wx = wrap_coord(x, self.width);
        let wy = wrap_coord(y, self.height);
        // Pins the sample count, so the index arithmetic below stays in range.
        let sample_count: usize = self.heights.len();
        proof {
            lemma_wrapped_index_in_range(
                wx as int, wy as int, self.width as int, self.height as int);
        }
        self.heights[(wy as usize) * (self.width as usize) + (wx as usize)]
    }

    /// The color under any integer coordinate, wrapped toroidally.
    pub fn sample_color(&self, x: i64, y: i64) -> (c: Rgb)
        requires
            self.wf(),
        ensures
            c == self.sample_color_spec(x as int, y as int),
    {
        let wx = wrap_coord(x, self.width);
        let wy = wrap_coord(y, self.height);
        // Pins the sample count, so the index arithmetic below stays in range.
        let sample_count: usize = self.colors.len();
        proof {
            lemma_wrapped_index_in_range(
                wx as int, wy as int, self.width as int, self.height as int);
        }
        self.colors[(wy as usize) * (self.width as usize) + (wx as usize)]
    }
}

/// A wrapped coordinate pair indexes within the sample vectors.
proof fn lemma_wrapped_index_in_range(wx: int, wy: int, w: int, h: int)
    requires
        1 <= w,
        1 <= h,
        0 <= wx < w,
        0 <= wy < h,
    ensures
        0 <= wy * w + wx < w * h,
{
    lemma_mul_inequality(wy, h - 1, w);
    assert((h - 1) * w + w == h * w) by (nonlinear_arith);
    assert(wy * w >= 0) by (nonlinear_arith)
        requires 0 <= wy && 0 <= w;
    assert(h * w == w * h) by (nonlinear_arith);
}

/// Euclidean remainder of any 64-bit coordinate by a positive modulus.
pub fn wrap_coord(v: i64, m: u32) -> (r: u32)
    requires
        1 <= m,
    ensures
        r == v as int % m as int,
        r < m,
{
    let m64: u64 = m as u64;
    if v >= 0 {
        let r64: u64 = (v as u64) % m64;
        proof {
            lemma_mod_division_less_than_divisor(v as int, m as int);
        }
        r64 as u32
    } else {
        // The magnitude of a negative value, computed without overflowing
        // even at the smallest representable value.
        let mag: u64 = ((-(v + 1)) as u64) + 1;
        let rm: u64 = mag % m64;
        proof {
            lemma_fundamental_div_mod(mag as int, m as int);
            let q = mag as int / m as int;
            if rm == 0 {
                assert(v as int == (-q) * (m as int) + 0) by (nonlinear_arith)
                    requires mag as int == (m as int) * q && v as int == -(mag as int);
                lemma_fundamental_div_mod_converse_mod(v as int, m as int, -q, 0);
            } else {
                assert(v as int == (-q - 1) * (m as int) + ((m as int) - rm as int))
                    by (nonlinear_arith)
                    requires
                        mag as int == (m as int) * q + rm as int
                            && v as int == -(mag as int);
                lemma_fundamental_div_mod_converse_mod(
                    v as int, m as int, -q - 1, m as int - rm as int);
            }
        }
        if rm == 0 {
            0
        } else {
            (m64 - rm) as u32
        }
    }
}

/// Wrap-around law: sampling at any integer coordinate returns exactly the
/// value stored at the in-range coordinate `(x mod width, y mod height)`
/// (Euclidean remainder), negative inputs included.
pub proof fn lemma_sample_wraps(t: TerrainStore, x: int, y: int)
    requires
        t.wf(),
    ensures
        0 <= x % (t.width as int) < t.width,
        0 <= y % (t.height as int) < t.height,
        t.sample_height_spec(x, y)
            == t.sample_height_spec(x % (t.width as int), y % (t.height as int)),
        t.sample_color_spec(x, y)
            == t.sample_color_spec(x % (t.width as int), y % (t.height as int)),
        t.sample_height_spec(x, y)
            == t.height_at(x % (t.width as int), y % (t.height as int)),
        t.sample_color_spec(x, y)
            == t.color_at(x % (t.width as int), y % (t.height as int)),
{
    lemma_mod_division_less_than_divisor(x, t.width as int);
    lemma_mod_division_less_than_divisor(y, t.height as int);
    lemma_mod_twice(x, t.width as int);
    lemma_mod_twice(y, t.height as int);
}

/// Builds the store from two already-decoded rasters: `color` with three
/// bytes per pixel, `height_map` with one. Reports `DimensionMismatch` when
/// the rasters disagree in width or height, and `DecodeError` when a shared
/// dimension is zero; otherwise the store holds exactly the given samples.
pub fn build_store(color: Raster, height_map: Raster) -> (r: Result<TerrainStore, LoadError>)
    requires
        color.bytes@.len() == 3 * color.width * color.height,
        height_map.bytes@.len() == height_map.width * height_map.height,
    ensures
        (color.width != height_map.width || color.height != height_map.height)
            ==> r == Err::<TerrainStore, LoadError>(LoadError::DimensionMismatch),
        (color.width == height_map.width && color.height == height_map.height
            && (color.width == 0 || color.height == 0))
            ==> r == Err::<TerrainStore, LoadError>(LoadError::DecodeError),
        (color.width == height_map.width && color.height == height_map.height
            && color.width >= 1 && color.height >= 1)
            ==> {
            &&& r is Ok
            &&& r->Ok_0.wf()
            &&& r->Ok_0.width == color.width
            &&& r->Ok_0.height == color.height
            &&& r->Ok_0.heights@ == height_map.bytes@
            &&& forall|i: int| 0 <= i < color.width * color.height
                    ==> r->Ok_0.colors@[i] == rgb_from(color.bytes@, i)
        },
{
    if color.width != height_map.width || color.height != height_map.height {
        return Err(LoadError::DimensionMismatch);
    }
    if color.width == 0 || color.height == 0 {
        return Err(LoadError::DecodeError);
    }
    let total3: usize = color.bytes.len();
    proof {
        assert(color.width * color.height * 3 == 3 * color.width * color.height)
            by (nonlinear_arith);
    }
    let n: usize = total3 / 3;
    proof {
        assert(3 * (color.width * color.height) / 3 == color.width * color.height)
            by (nonlinear_arith);
    }
    let mut colors: Vec<Rgb> = Vec::new();
    let mut i: usize = 0;
    while i < n
        invariant
            n == color.width * color.height,
            color.bytes@.len() == 3 * n,
            3 * n <= usize::MAX,
            0 <= i <= n,
            colors@.len() == i,
            forall|j: int| 0 <= j < i ==> colors@[j] == rgb_from(color.bytes@, j),
        decreases n - i,
    {
        let sample = Rgb {
            r: color.bytes[3 * i],
            g: color.bytes[3 * i + 1],
            b: color.bytes[3 * i + 2],
        };
        colors.push(sample);
        i = i + 1;
    }
    let store = TerrainStore {
        width: color.width,
        height: color.height,
        heights: height_map.bytes,
        colors,
    };
    Ok(store)
}

/// Loads the terrain from two encoded image sources: the color map, decoded
/// as 8-bit RGB, and the height map, decoded as 8-bit grayscale. Fails with
/// `DecodeError` when either source does not decode to its expected format
/// (or decodes to a raster with a zero dimension), and with
/// `DimensionMismatch` when the two decoded rasters differ in size.
pub fn load(color_source: &[u8], height_source: &[u8]) -> (r: Result<TerrainStore, LoadError>)
    ensures
        (decoded_rgb8(color_source@) is None || decoded_luma8(height_source@) is None)
            ==> r == Err::<TerrainStore, LoadError>(LoadError::DecodeError),
        (decoded_rgb8(color_source@) is Some && decoded_luma8(height_source@) is Some)
            ==> {
            let c = decoded_rgb8(color_source@)->0;
            let h = decoded_luma8(height_source@)->0;
            &&& (c.0 != h.0 || c.1 != h.1)
                    ==> r == Err::<TerrainStore, LoadError>(LoadError::DimensionMismatch)
            &&& (c.0 == h.0 && c.1 == h.1 && (c.0 == 0 || c.1 == 0))
                    ==> r == Err::<TerrainStore, LoadError>(LoadError::DecodeError)
            &&& (c.0 == h.0 && c.1 == h.1 && c.0 >= 1 && c.1 >= 1) ==> {
                &&& r is Ok
                &&& r->Ok_0.wf()
                &&& r->Ok_0.width == c.0
                &&& r->Ok_0.height == c.1
                &&& r->Ok_0.heights@ == h.2
                &&& forall|i: int| 0 <= i < c.0 * c.1
                        ==> r->Ok_0.colors@[i] == rgb_from(c.2, i)
            }
        },
{
    let color = match decode_rgb8(color_source) {
        Some(raster) => raster,
        None => {
            return Err(LoadError::DecodeError);
        },
    };
    let height_map = match decode_luma8(height_source) {
        Some(raster) => raster,
        None => {
            return Err(LoadError::DecodeError);
        },
    };
    build_store(color, height_map)
}

} // verus!
