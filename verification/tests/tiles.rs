use fidget::config::RenderConfig;

#[test]
fn new_tile_precomputes_row_major_offset() {
    let a = RenderConfig::<2> {
        image_size: 100,
        tile_sizes: vec![32, 8],
        threads: 8,
    }
    .align();
    let t = a.new_tile([40, 96]);
    assert_eq!(t.corner, [40, 96]);
    // offset = 40 % 32 + (96 % 32) * 32 = 8
    assert_eq!(a.tile_to_offset(t, 0, 0), 8);
    assert_eq!(a.tile_to_offset(t, 1, 2), 8 + 1 + 2 * 32);
}

#[test]
fn aligned_corner_has_zero_offset() {
    let a = RenderConfig::<2> {
        image_size: 100,
        tile_sizes: vec![32, 8],
        threads: 8,
    }
    .align();
    let t = a.new_tile([64, 32]);
    assert_eq!(t.corner, [64, 32]);
    assert_eq!(a.tile_to_offset(t, 0, 0), 0);
    assert_eq!(a.tile_to_offset(t, 5, 3), 5 + 3 * 32);
}

#[test]
fn new_tile_matches_intra_tile_addressing() {
    // the tile's own offset equals intra-tile addressing of the corner's
    // remainders from a zero-offset tile
    let a = RenderConfig::<2> {
        image_size: 100,
        tile_sizes: vec![32, 8],
        threads: 8,
    }
    .align();
    let t0 = a.tile_sizes[0];
    for corner in [[40, 96], [0, 0], [96, 64], [31, 97]] {
        let tile = a.new_tile(corner);
        let base = a.new_tile([0, 0]);
        assert_eq!(
            a.tile_to_offset(tile, 0, 0),
            a.tile_to_offset(base, corner[0] % t0, corner[1] % t0),
        );
    }
}

#[test]
fn new_tile_3d_includes_third_axis() {
    let a = RenderConfig::<3>::default().align();
    assert_eq!(a.tile_sizes[0], 128);
    let t = a.new_tile([130, 5, 7]);
    assert_eq!(t.corner, [130, 5, 7]);
    // offset = 130 % 128 + (5 % 128) * 128 + (7 % 128) * 128 * 128
    assert_eq!(a.tile_to_offset(t, 0, 0, 0), 2 + 640 + 114688);
    assert_eq!(
        a.tile_to_offset(t, 1, 2, 3),
        2 + 640 + 114688 + 1 + 2 * 128 + 3 * 128 * 128,
    );
}

#[test]
fn new_tile_3d_matches_intra_tile_addressing() {
    // the tile's own offset equals intra-tile addressing of the corner's
    // remainders from a zero-offset tile, third axis included
    let a = RenderConfig::<3> {
        image_size: 100,
        tile_sizes: vec![32, 8],
        threads: 8,
    }
    .align();
    let t0 = a.tile_sizes[0];
    for corner in [[40, 96, 5], [0, 0, 0], [96, 64, 33], [31, 97, 127]] {
        let tile = a.new_tile(corner);
        let base = a.new_tile([0, 0, 0]);
        assert_eq!(
            a.tile_to_offset(tile, 0, 0, 0),
            a.tile_to_offset(base, corner[0] % t0, corner[1] % t0, corner[2] % t0),
        );
    }
}
