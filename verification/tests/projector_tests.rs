use voxelspace::frame::FrameEmitter;
use voxelspace::projector::{render_frame, ViewParams};
use voxelspace::terrain::{Rgb, TerrainStore};

fn flat_store(elevation: u8, color: Rgb) -> TerrainStore {
    TerrainStore {
        width: 2,
        height: 2,
        heights: vec![elevation; 4],
        colors: vec![color; 4],
    }
}

#[test]
fn frame_emitter_collects_segments_in_order() {
    let red = Rgb { r: 255, g: 0, b: 0 };
    let blue = Rgb { r: 0, g: 0, b: 255 };
    let mut e = FrameEmitter::begin_frame();
    e.push_segment(0, 10, 20, red);
    e.push_segment(1, 5, 10, blue);
    let v = e.finish_frame();
    assert_eq!(v.len(), 2);
    assert_eq!((v[0].column, v[0].y_top, v[0].y_bottom, v[0].color), (0, 10, 20, red));
    assert_eq!((v[1].column, v[1].y_top, v[1].y_bottom, v[1].color), (1, 5, 10, blue));
}

#[test]
fn flat_red_terrain_paints_only_red_with_rising_horizon() {
    // A 2x2 height map of all zeros, a 2x2 solid red color map, eye at the
    // origin looking straight ahead from a hundred units up.
    let red = Rgb { r: 255, g: 0, b: 0 };
    let t = flat_store(0, red);
    let p = ViewParams {
        sin_q: 0,
        cos_q: 1024,
        origin_x: 0,
        origin_y: 0,
        eye_height: 100,
        screen_w: 4,
        screen_h: 600,
    };
    let segments = render_frame(&t, &p);
    assert!(!segments.is_empty());
    let mut last_top: [Option<u32>; 4] = [None; 4];
    for s in segments.iter() {
        assert_eq!(s.color, red);
        assert!(s.y_top < s.y_bottom);
        assert!(s.y_bottom <= 600);
        assert!((s.column as usize) < 4);
        match last_top[s.column as usize] {
            // The first visible sliver of a column rests on the screen
            // bottom.
            None => assert_eq!(s.y_bottom, 600),
            // Later slivers stack on the previous horizon, strictly higher:
            // projected rows strictly decrease as the distance grows.
            Some(prev) => {
                assert_eq!(s.y_bottom, prev);
                assert!(s.y_top < prev);
            }
        }
        last_top[s.column as usize] = Some(s.y_top);
    }
    for col in 0..4 {
        assert!(last_top[col].is_some());
    }
}

#[test]
fn projection_formula_matches_exact_values() {
    // Flat ground, eye one unit up, tall screen: nothing clamps, so the
    // first distance steps project to exactly eye * scale / distance,
    // truncated. Distances run 1.0, 2.0, 3.1, 4.3, ... world units.
    let green = Rgb { r: 0, g: 255, b: 0 };
    let t = flat_store(0, green);
    let p = ViewParams {
        sin_q: 0,
        cos_q: 1024,
        origin_x: 0,
        origin_y: 0,
        eye_height: 1,
        screen_w: 4,
        screen_h: 16384,
    };
    let segments = render_frame(&t, &p);
    assert!(segments.len() >= 16);
    let expected_tops = [1000u32, 500, 322, 232];
    for step in 0..4 {
        for col in 0..4 {
            let s = &segments[step * 4 + col];
            assert_eq!(s.column as usize, col);
            assert_eq!(s.y_top, expected_tops[step]);
            let expected_bottom = if step == 0 { 16384 } else { expected_tops[step - 1] };
            assert_eq!(s.y_bottom, expected_bottom);
        }
    }
}

#[test]
fn terrain_above_the_eye_clamps_to_the_top_row() {
    // Ground far above the eye projects to a negative row, which clamps to
    // row one; after the first scan line every later sample is occluded.
    let gray = Rgb { r: 128, g: 128, b: 128 };
    let t = flat_store(255, gray);
    let p = ViewParams {
        sin_q: 0,
        cos_q: 1024,
        origin_x: 0,
        origin_y: 0,
        eye_height: 0,
        screen_w: 3,
        screen_h: 240,
    };
    let segments = render_frame(&t, &p);
    assert_eq!(segments.len(), 3);
    for (col, s) in segments.iter().enumerate() {
        assert_eq!(s.column as usize, col);
        assert_eq!(s.y_top, 1);
        assert_eq!(s.y_bottom, 240);
        assert_eq!(s.color, gray);
    }
}
