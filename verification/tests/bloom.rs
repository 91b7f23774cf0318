use softrender::bloom::{apply_bloom, blend_bloom, gaussian_blur};

#[test]
fn blend_bloom_adds_four_fifths_of_the_emission() {
    assert_eq!(blend_bloom(0x102030, 100), 0x607080);
    assert_eq!(blend_bloom(0x000000, 1), 0x000000);
    assert_eq!(blend_bloom(0x000000, 2), 0x010101);
    assert_eq!(blend_bloom(0x000000, 5), 0x040404);
}

#[test]
fn blend_bloom_holds_to_the_channel_maximum() {
    assert_eq!(blend_bloom(0xF0F0F0, 100), 0xFFFFFF);
    assert_eq!(blend_bloom(0x000000, u32::MAX), 0xFFFFFF);
    assert_eq!(blend_bloom(0xFF0000, 10), 0xFF0808);
}

#[test]
fn blend_bloom_without_emission_keeps_the_colour() {
    assert_eq!(blend_bloom(0x123456, 0), 0x123456);
}

#[test]
fn apply_bloom_leaves_dark_pixels_alone() {
    let mut colors = vec![0x000000, 0x102030, 0xFFFFFF, 0xAB123456];
    let bloom = vec![0, 100, 0, 0];
    apply_bloom(&mut colors, &bloom, 4, 1);
    assert_eq!(colors, vec![0x000000, 0x607080, 0xFFFFFF, 0xAB123456]);
}

#[test]
fn apply_bloom_with_no_emission_changes_nothing() {
    let mut colors = vec![7, 8, 9, 0xFFFFFFFF];
    let before = colors.clone();
    apply_bloom(&mut colors, &vec![0; 4], 2, 2);
    assert_eq!(colors, before);
}

#[test]
fn apply_bloom_skips_pixels_without_an_emission_entry() {
    let mut colors = vec![0x000000, 0x000000, 0x000000];
    apply_bloom(&mut colors, &vec![5], 3, 1);
    assert_eq!(colors, vec![0x040404, 0, 0]);
}

#[test]
fn blur_keeps_a_constant_where_the_window_fits() {
    let mut image = vec![100u32; 25];
    gaussian_blur(&mut image, 5, 5, &vec![1, 2, 1]);
    for y in 1..4 {
        for x in 1..4 {
            assert_eq!(image[y * 5 + x], 100);
        }
    }
    assert_eq!(image[2], 75);
    assert_eq!(image[10], 75);
    assert_eq!(image[0], 56);
    assert_eq!(image[24], 56);
}

#[test]
fn blur_keeps_a_constant_for_an_uneven_kernel() {
    let mut image = vec![37u32; 49];
    gaussian_blur(&mut image, 7, 7, &vec![3, 11, 40, 11, 2]);
    for y in 2..5 {
        for x in 2..5 {
            assert_eq!(image[y * 7 + x], 37);
        }
    }
}

#[test]
fn blur_spreads_an_impulse_and_rounds_halves_up() {
    let mut image = vec![0u32, 100, 0];
    gaussian_blur(&mut image, 3, 1, &vec![1, 2, 1]);
    assert_eq!(image, vec![13, 25, 13]);
}

#[test]
fn blur_with_the_identity_kernel_changes_nothing() {
    let mut image = vec![1u32, 2, 3, 4, 5, 6];
    gaussian_blur(&mut image, 3, 2, &vec![9]);
    assert_eq!(image, vec![1, 2, 3, 4, 5, 6]);
}

#[test]
fn blur_centres_an_even_kernel_to_the_right() {
    let mut image = vec![0u32, 0, 64, 0, 0];
    gaussian_blur(&mut image, 5, 1, &vec![1, 1]);
    assert_eq!(image, vec![0, 0, 16, 16, 0]);
}

#[test]
fn blur_with_a_weightless_kernel_gives_zero() {
    let mut image = vec![5u32; 4];
    gaussian_blur(&mut image, 2, 2, &vec![0, 0, 0]);
    assert_eq!(image, vec![0; 4]);
    let mut other = vec![5u32; 4];
    gaussian_blur(&mut other, 2, 2, &Vec::new());
    assert_eq!(other, vec![0; 4]);
}

#[test]
fn blur_of_an_empty_image_is_empty() {
    let mut image: Vec<u32> = Vec::new();
    gaussian_blur(&mut image, 0, 3, &vec![1, 2, 1]);
    assert!(image.is_empty());
}
