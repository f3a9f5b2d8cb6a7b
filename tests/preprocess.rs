use nz_rust::preprocess::{
    binarize, color_distance_mask, frame_hash, preprocess_color_filter, preprocess_small_region, RgbFrame,
};

fn frame(width: u32, height: u32, pixels: Vec<u8>) -> RgbFrame {
    RgbFrame { width, height, pixels }
}

#[test]
fn mask_whitens_target_and_blackens_far_colors() {
    let target = (0xd9, 0xe1, 0xe3);
    let f = frame(
        3,
        1,
        vec![0xd9, 0xe1, 0xe3, 0x10, 0x20, 0x30, 0xd9 - 20, 0xe1, 0xe3 - 20],
    );
    let m = color_distance_mask(&f, target, 28);
    assert_eq!(m.pixels, vec![255, 255, 255, 0, 0, 0, 0, 0, 0]);
    let m = color_distance_mask(&f, target, 29);
    assert_eq!(m.pixels, vec![255, 255, 255, 0, 0, 0, 255, 255, 255]);
    assert_eq!((m.width, m.height), (3, 1));
}

#[test]
fn binarize_upscales_and_splits_two_levels() {
    let mut pixels = Vec::new();
    for i in 0..16 {
        let v = if i % 2 == 0 { 20 } else { 230 };
        pixels.extend_from_slice(&[v, v, v]);
    }
    let f = frame(4, 4, pixels);
    let out = preprocess_small_region(&f, 3);
    assert_eq!((out.width, out.height), (12, 12));
    assert_eq!(out.pixels.len(), 12 * 12 * 3);
    assert!(out.pixels.iter().all(|&p| p == 0 || p == 255));
    assert!(out.pixels.iter().any(|&p| p == 0));
    assert!(out.pixels.iter().any(|&p| p == 255));
}

#[test]
fn color_filter_upscales_the_mask() {
    let f = frame(2, 1, vec![200, 200, 200, 0, 0, 0]);
    let out = preprocess_color_filter(&f, 2, (200, 200, 200), 10);
    assert_eq!((out.width, out.height), (4, 2));
    assert_eq!(out.pixels.len(), 4 * 2 * 3);
    assert!(out.pixels[0] > 128 && out.pixels[1] > 128 && out.pixels[2] > 128);
    assert!(out.pixels[9] < 128 && out.pixels[10] < 128 && out.pixels[11] < 128);
}

#[test]
fn frame_hash_tracks_content() {
    let a = frame(2, 2, vec![1; 12]);
    let b = frame(2, 2, vec![1; 12]);
    let c = frame(2, 2, vec![200; 12]);
    assert_eq!(frame_hash(&a), frame_hash(&b));
    assert_ne!(frame_hash(&a), frame_hash(&c));
}

#[test]
fn binarize_thresholds_luma() {
    let up = vec![255, 255, 255, 100, 100, 100, 0, 0, 255];
    assert_eq!(binarize(&up, 100), vec![255, 255, 255, 0, 0, 0, 0, 0, 0]);
    assert_eq!(binarize(&up, 99), vec![255, 255, 255, 255, 255, 255, 0, 0, 0]);
    assert_eq!(binarize(&Vec::new(), 0), Vec::<u8>::new());
}

#[test]
fn scale_one_keeps_the_frame_size_and_content() {
    let f = frame(2, 1, vec![200, 200, 200, 0, 0, 0]);
    let out = preprocess_color_filter(&f, 1, (200, 200, 200), 10);
    assert_eq!(out.pixels, vec![255, 255, 255, 0, 0, 0]);
    let out = preprocess_small_region(&f, 1);
    assert_eq!(out.pixels, vec![255, 255, 255, 0, 0, 0]);
}
