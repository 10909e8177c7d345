use std::io::Cursor;

use image::{DynamicImage, GrayImage, ImageOutputFormat, RgbImage};
use voxelspace::terrain::{build_store, load, wrap_coord, LoadError, Raster, Rgb, TerrainStore};

fn png_rgb(width: u32, height: u32, pixels: &[[u8; 3]]) -> Vec<u8> {
    let mut img = RgbImage::new(width, height);
    let mut k = 0;
    for y in 0..height {
        for x in 0..width {
            img.put_pixel(x, y, image::Rgb(pixels[k]));
            k += 1;
        }
    }
    let mut buf = Vec::new();
    DynamicImage::ImageRgb8(img)
        .write_to(&mut Cursor::new(&mut buf), ImageOutputFormat::Png)
        .unwrap();
    buf
}

fn png_gray(width: u32, height: u32, samples: &[u8]) -> Vec<u8> {
    let mut img = GrayImage::new(width, height);
    let mut k = 0;
    for y in 0..height {
        for x in 0..width {
            img.put_pixel(x, y, image::Luma([samples[k]]));
            k += 1;
        }
    }
    let mut buf = Vec::new();
    DynamicImage::ImageLuma8(img)
        .write_to(&mut Cursor::new(&mut buf), ImageOutputFormat::Png)
        .unwrap();
    buf
}

#[test]
fn wrap_coord_positive_and_negative() {
    assert_eq!(wrap_coord(0, 4), 0);
    assert_eq!(wrap_coord(5, 4), 1);
    assert_eq!(wrap_coord(4, 4), 0);
    assert_eq!(wrap_coord(-1, 4), 3);
    assert_eq!(wrap_coord(-4, 4), 0);
    assert_eq!(wrap_coord(-5, 4), 3);
    assert_eq!(wrap_coord(i64::MIN, 3), 1);
    assert_eq!(wrap_coord(i64::MAX, 2), 1);
}

fn small_store() -> TerrainStore {
    // 3 wide, 2 tall; heights row-major.
    TerrainStore {
        width: 3,
        height: 2,
        heights: vec![0, 1, 2, 10, 11, 12],
        colors: vec![
            Rgb { r: 0, g: 0, b: 0 },
            Rgb { r: 1, g: 0, b: 0 },
            Rgb { r: 2, g: 0, b: 0 },
            Rgb { r: 10, g: 0, b: 0 },
            Rgb { r: 11, g: 0, b: 0 },
            Rgb { r: 12, g: 0, b: 0 },
        ],
    }
}

#[test]
fn sampling_wraps_each_axis_by_its_own_dimension() {
    let t = small_store();
    // In range.
    assert_eq!(t.sample_height(2, 1), 12);
    // x wraps by width (3), y wraps by height (2).
    assert_eq!(t.sample_height(5, 3), 12);
    assert_eq!(t.sample_height(-1, -1), 12);
    assert_eq!(t.sample_height(-3, 2), 0);
    assert_eq!(t.sample_height(4, -2), 1);
    assert_eq!(t.sample_color(5, 3), Rgb { r: 12, g: 0, b: 0 });
    assert_eq!(t.sample_color(-1, -1), Rgb { r: 12, g: 0, b: 0 });
}

#[test]
fn build_store_reports_dimension_mismatch() {
    let color = Raster { width: 4, height: 4, bytes: vec![0; 48] };
    let height_map = Raster { width: 4, height: 5, bytes: vec![0; 20] };
    assert_eq!(
        build_store(color, height_map).err(),
        Some(LoadError::DimensionMismatch)
    );
}

#[test]
fn build_store_keeps_samples() {
    let color = Raster { width: 2, height: 1, bytes: vec![9, 8, 7, 6, 5, 4] };
    let height_map = Raster { width: 2, height: 1, bytes: vec![3, 200] };
    let t = build_store(color, height_map).unwrap();
    assert_eq!(t.width, 2);
    assert_eq!(t.height, 1);
    assert_eq!(t.heights, vec![3, 200]);
    assert_eq!(t.colors, vec![Rgb { r: 9, g: 8, b: 7 }, Rgb { r: 6, g: 5, b: 4 }]);
}

#[test]
fn load_rejects_mismatched_dimensions() {
    // A 4x4 color map against a 4x5 height map must fail to load, and must
    // not hand back a usable store.
    let color = png_rgb(4, 4, &[[255, 0, 0]; 16]);
    let height_map = png_gray(4, 5, &[0; 20]);
    let r = load(&color, &height_map);
    assert_eq!(r.err(), Some(LoadError::DimensionMismatch));
}

#[test]
fn load_rejects_undecodable_sources() {
    let color = png_rgb(2, 2, &[[1, 2, 3]; 4]);
    let height_map = png_gray(2, 2, &[0; 4]);
    let garbage = b"not an image at all".to_vec();
    assert_eq!(load(&garbage, &height_map).err(), Some(LoadError::DecodeError));
    assert_eq!(load(&color, &garbage).err(), Some(LoadError::DecodeError));
    // A color source in the wrong pixel format (grayscale) is a decode
    // failure too.
    assert_eq!(
        load(&height_map, &height_map).err(),
        Some(LoadError::DecodeError)
    );
}

#[test]
fn load_round_trips_decoded_samples() {
    let color = png_rgb(
        2,
        2,
        &[[10, 20, 30], [40, 50, 60], [70, 80, 90], [100, 110, 120]],
    );
    let height_map = png_gray(2, 2, &[5, 6, 7, 8]);
    let t = load(&color, &height_map).unwrap();
    assert_eq!(t.width, 2);
    assert_eq!(t.height, 2);
    assert_eq!(t.heights, vec![5, 6, 7, 8]);
    assert_eq!(
        t.colors,
        vec![
            Rgb { r: 10, g: 20, b: 30 },
            Rgb { r: 40, g: 50, b: 60 },
            Rgb { r: 70, g: 80, b: 90 },
            Rgb { r: 100, g: 110, b: 120 },
        ]
    );
    // Sampling reads the decoded rasters, toroidally.
    assert_eq!(t.sample_height(0, 0), 5);
    assert_eq!(t.sample_height(3, -1), 8);
    assert_eq!(t.sample_color(-1, 0), Rgb { r: 40, g: 50, b: 60 });
}
