use gta_assistant::capture::{capture_region, capture_regions, find_saved_duplicate, next_capture_index};
use gta_assistant::matcher::{best_match, find_image_in_array, hash_images};
use gta_assistant::signature::{compare_image, hash_image, similarity, Image, Signature, Similarity};

const SIZE: u32 = 32;

fn image_from(f: impl Fn(u32, u32) -> u8) -> Image {
    let mut pixels = Vec::new();
    for y in 0..SIZE {
        for x in 0..SIZE {
            let v = f(x, y);
            pixels.extend_from_slice(&[v, v, v]);
        }
    }
    Image { width: SIZE, height: SIZE, pixels }
}

fn pattern(k: u32) -> Image {
    // a 4x4 grid of pseudo-random gray cells, one grid per seed
    let mut s: u32 = k.wrapping_mul(2654435761).wrapping_add(12345);
    let mut cells = [0u8; 16];
    for c in cells.iter_mut() {
        s = s.wrapping_mul(1103515245).wrapping_add(12345);
        *c = ((s >> 16) & 0xff) as u8;
    }
    image_from(move |x, y| cells[((y / 8) * 4 + x / 8) as usize])
}

fn sig(bytes: [u8; 8]) -> Signature {
    Signature { bytes: bytes.to_vec() }
}

#[test]
fn signature_has_eight_bytes() {
    let img = pattern(2);
    let h = hash_image(&img);
    assert_eq!(h.as_bytes().len(), 8);
    assert_ne!(h.as_bytes().len(), img.pixels.len());
}

#[test]
fn image_compared_with_itself_scores_one() {
    for k in 0..8 {
        let img = pattern(k);
        let s = compare_image(&img, &img);
        assert!(s.is_perfect());
        assert_eq!((s.matching, s.total), (64, 64));
    }
}

#[test]
fn image_score_is_symmetric() {
    for a in 0..8 {
        for b in 0..8 {
            assert_eq!(compare_image(&pattern(a), &pattern(b)), compare_image(&pattern(b), &pattern(a)));
        }
    }
}

#[test]
fn score_falls_as_noise_grows() {
    let base = pattern(3);
    let mut last = 65;
    for n in [0u32, 2, 8, 12, 16] {
        // invert the first n columns: more columns, more disagreement
        let noisy = image_from(|x, y| {
            let v = base.pixels[((y * SIZE + x) * 3) as usize];
            if x < n { 255 - v } else { v }
        });
        let s = compare_image(&base, &noisy);
        assert!(s.matching < last, "noise {} gave {}", n, s.matching);
        last = s.matching;
    }
}

#[test]
fn similarity_counts_equal_bits() {
    let a = sig([0; 8]);
    let b = sig([0xff, 0x01, 0, 0, 0, 0, 0, 0x80]);
    let s = similarity(&a, &b);
    assert_eq!((s.matching, s.total), (54, 64));
    assert_eq!(similarity(&b, &a), s);
    assert!(!s.is_perfect());
    assert!(similarity(&b, &b).is_perfect());
}

#[test]
fn threshold_is_strictly_above_ninety_nine_percent() {
    assert!(Similarity { matching: 995, total: 1000 }.above_header_threshold());
    assert!(!Similarity { matching: 99, total: 100 }.above_header_threshold());
    assert!(Similarity { matching: 64, total: 64 }.above_header_threshold());
    assert!(!Similarity { matching: 63, total: 64 }.above_header_threshold());
}

#[test]
fn best_match_finds_the_duplicate() {
    let target = sig([1, 2, 3, 4, 5, 6, 7, 8]);
    let cands = vec![
        sig([0; 8]),
        sig([0xff; 8]),
        sig([1, 2, 3, 4, 5, 6, 7, 8]),
        sig([1, 2, 3, 4, 5, 6, 7, 9]),
    ];
    assert_eq!(best_match(&target, &cands), 2);
}

#[test]
fn best_match_keeps_first_of_equal_scores() {
    let target = sig([0; 8]);
    let cands = vec![sig([0xff; 8]), sig([1, 0, 0, 0, 0, 0, 0, 0]), sig([2, 0, 0, 0, 0, 0, 0, 0])];
    assert_eq!(best_match(&target, &cands), 1);
    let all_far = vec![sig([0xff; 8]), sig([0xff; 8])];
    assert_eq!(best_match(&target, &all_far), 0);
}

#[test]
fn find_image_returns_exact_duplicate_index() {
    let images: Vec<Image> = (0..8).map(pattern).collect();
    let sigs = hash_images(&images);
    for k in 0..8 {
        let dup = sigs.iter().filter(|s| s.as_bytes() == sigs[k as usize].as_bytes()).count();
        assert_eq!(dup, 1, "pattern {} must hash apart from the others", k);
        assert_eq!(find_image_in_array(&pattern(k), &images), k as usize);
    }
}

#[test]
fn capture_region_copies_the_block() {
    let screen = image_from(|x, y| (x + 32 * y) as u8);
    let part = capture_region(&screen, &[2, 3, 5, 7]);
    assert_eq!((part.width, part.height), (3, 4));
    assert_eq!(part.pixels.len(), 3 * 4 * 3);
    assert_eq!(&part.pixels[0..3], &[98, 98, 98]);
    assert_eq!(&part.pixels[33..36], &[100 + 32 * 3, 100 + 32 * 3, 100 + 32 * 3]);
}

#[test]
fn capture_regions_from_one_snapshot() {
    let screen = image_from(|x, y| (x + 32 * y) as u8);
    let parts = capture_regions(&screen, &[[0, 0, 1, 1], [31, 31, 32, 32], [0, 0, 32, 32]]);
    assert_eq!(parts.len(), 3);
    assert_eq!(parts[0].pixels, vec![0, 0, 0]);
    assert_eq!(parts[1].pixels, vec![255, 255, 255]);
    assert_eq!(parts[2].pixels, screen.pixels);
}

#[test]
fn saved_duplicate_is_found() {
    let saved = vec![pattern(1), pattern(2), pattern(3), pattern(2)];
    assert_eq!(find_saved_duplicate(&pattern(2), &saved), Some(1));
    assert_eq!(find_saved_duplicate(&pattern(5), &saved), None);
    assert_eq!(find_saved_duplicate(&pattern(5), &vec![]), None);
}

#[test]
fn next_capture_index_follows_the_largest() {
    assert_eq!(next_capture_index(&[]), 1);
    assert_eq!(next_capture_index(&[3, 1, 7, 2]), 8);
    assert_eq!(next_capture_index(&[0]), 1);
}
