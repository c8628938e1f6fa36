use fidget::config::RenderConfig;

fn cfg2(image_size: usize, tile_sizes: Vec<usize>) -> RenderConfig<2> {
    RenderConfig {
        image_size,
        tile_sizes,
        threads: 8,
    }
}

#[test]
fn keeps_applicable_tile_sizes() {
    let a = cfg2(100, vec![32, 8]).align();
    assert_eq!(a.tile_sizes, vec![32, 8]);
    assert_eq!(a.image_size, 128);
    assert_eq!(a.orig_image_size, 100);
    assert_eq!(a.image_size as f32 / a.orig_image_size as f32, 1.28f32);
}

#[test]
fn drops_oversized_prefix() {
    let a = cfg2(100, vec![128, 32, 8]).align();
    assert_eq!(a.tile_sizes, vec![32, 8]);
    assert_eq!(a.image_size, 128);
}

#[test]
fn fallback_when_all_oversized() {
    let a = cfg2(4, vec![128, 32, 8]).align();
    assert_eq!(a.tile_sizes, vec![8]);
    assert_eq!(a.image_size, 8);
    assert_eq!(a.orig_image_size, 4);
}

#[test]
fn pads_to_multiple_of_coarsest() {
    for (image_size, tile_sizes) in [
        (512, vec![128, 32, 8]),
        (33, vec![32]),
        (100, vec![32, 8]),
        (1, vec![64, 16]),
        (8, vec![8]),
    ] {
        let a = cfg2(image_size, tile_sizes).align();
        let t0 = a.tile_sizes[0];
        assert!(a.image_size >= image_size);
        assert_eq!(a.image_size % t0, 0);
        assert!(a.image_size - image_size < t0);
        assert_eq!(a.orig_image_size, image_size);
    }
}

#[test]
fn exact_multiple_stays_put() {
    let a = cfg2(512, vec![128, 32, 8]).align();
    assert_eq!(a.image_size, 512);
    assert_eq!(a.tile_sizes, vec![128, 32, 8]);
}

#[test]
fn align_is_idempotent() {
    for (image_size, tile_sizes) in [
        (100, vec![32, 8]),
        (4, vec![128, 32, 8]),
        (33, vec![32]),
        (512, vec![128, 32, 8]),
    ] {
        let a = cfg2(image_size, tile_sizes).align();
        let b = cfg2(a.image_size, a.tile_sizes.clone()).align();
        assert_eq!(b.image_size, a.image_size);
        assert_eq!(b.tile_sizes, a.tile_sizes);
    }
}

#[test]
fn default_config_2d() {
    let c = RenderConfig::<2>::default();
    assert_eq!(c.image_size, 512);
    assert_eq!(c.tile_sizes, vec![128, 32, 8]);
    assert_eq!(c.threads, 8);
}

#[test]
fn default_config_3d() {
    let c = RenderConfig::<3>::default();
    assert_eq!(c.image_size, 512);
    assert_eq!(c.tile_sizes, vec![128, 64, 32, 16, 8]);
    assert_eq!(c.threads, 8);
}
