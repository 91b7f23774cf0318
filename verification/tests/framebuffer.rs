use softrender::fixed::ONE;
use softrender::framebuffer::{Framebuffer, RenderableToFile, FAR};

#[test]
fn new_is_black_far_and_dark() {
    let fb = Framebuffer::new(4, 3);
    assert_eq!(fb.width, 4);
    assert_eq!(fb.height, 3);
    assert_eq!(fb.buffer, vec![0u32; 12]);
    assert_eq!(fb.zbuffer, vec![FAR; 12]);
    assert_eq!(fb.emissive_buffer, vec![0u32; 12]);
    assert_eq!(fb.background_color, 0);
    assert_eq!(fb.current_color, 0xFFFFFF);
}

#[test]
fn new_accepts_an_empty_image() {
    let fb = Framebuffer::new(0, 7);
    assert!(fb.buffer.is_empty());
    assert!(fb.zbuffer.is_empty());
}

#[test]
fn point_writes_colour_depth_and_emission() {
    let mut fb = Framebuffer::new(4, 3);
    fb.set_current_color(0x112233);
    fb.point(1, 2, ONE, 9);
    assert_eq!(fb.buffer[2 * 4 + 1], 0x112233);
    assert_eq!(fb.zbuffer[2 * 4 + 1], ONE);
    assert_eq!(fb.emissive_buffer[2 * 4 + 1], 9);
    let touched = fb.buffer.iter().filter(|c| **c != 0).count();
    assert_eq!(touched, 1);
}

#[test]
fn nearer_write_wins_whatever_the_order() {
    let mut fb = Framebuffer::new(10, 10);
    fb.set_current_color(0xAA0000);
    fb.point(5, 5, ONE, 1);
    fb.set_current_color(0x00BB00);
    fb.point(5, 5, 2 * ONE, 2);
    assert_eq!(fb.zbuffer[55], ONE);
    assert_eq!(fb.buffer[55], 0xAA0000);
    assert_eq!(fb.emissive_buffer[55], 1);

    let mut other = Framebuffer::new(10, 10);
    other.set_current_color(0x00BB00);
    other.point(5, 5, 2 * ONE, 2);
    other.set_current_color(0xAA0000);
    other.point(5, 5, ONE, 1);
    assert_eq!(other.zbuffer[55], ONE);
    assert_eq!(other.buffer[55], 0xAA0000);
    assert_eq!(other.emissive_buffer[55], 1);
}

#[test]
fn equal_depth_keeps_the_stored_pixel() {
    let mut fb = Framebuffer::new(3, 3);
    fb.set_current_color(0x010101);
    fb.point(1, 1, 500, 7);
    fb.set_current_color(0x020202);
    fb.point(1, 1, 500, 8);
    assert_eq!(fb.buffer[4], 0x010101);
    assert_eq!(fb.emissive_buffer[4], 7);
}

#[test]
fn the_farthest_depth_is_never_written() {
    let mut fb = Framebuffer::new(2, 2);
    fb.point(0, 0, FAR, 3);
    assert_eq!(fb.buffer[0], 0);
    assert_eq!(fb.emissive_buffer[0], 0);
}

#[test]
fn point_outside_the_image_does_nothing() {
    let mut fb = Framebuffer::new(4, 3);
    fb.point(4, 0, 0, 1);
    fb.point(0, 3, 0, 1);
    fb.point(usize::MAX, usize::MAX, 0, 1);
    assert_eq!(fb.buffer, vec![0u32; 12]);
    assert_eq!(fb.zbuffer, vec![FAR; 12]);
    assert_eq!(fb.emissive_buffer, vec![0u32; 12]);
}

#[test]
fn clear_resets_the_three_planes() {
    let mut fb = Framebuffer::new(4, 3);
    fb.set_background_color(120);
    fb.point(1, 1, 5, 9);
    fb.clear();
    assert_eq!(fb.buffer, vec![120u32; 12]);
    assert_eq!(fb.zbuffer, vec![FAR; 12]);
    assert_eq!(fb.emissive_buffer, vec![0u32; 12]);
    assert_eq!(fb.current_color, 0xFFFFFF);
}

#[test]
fn set_emission_fills_the_plane() {
    let mut fb = Framebuffer::new(2, 2);
    fb.set_emission(5);
    assert_eq!(fb.emissive_buffer, vec![5u32; 4]);
    assert_eq!(fb.buffer, vec![0u32; 4]);
}

#[test]
fn set_emission_point_needs_no_depth() {
    let mut fb = Framebuffer::new(2, 2);
    fb.set_emission_point(1, 1, 5);
    fb.set_emission_point(2, 0, 6);
    assert_eq!(fb.emissive_buffer, vec![0, 0, 0, 5]);
    assert_eq!(fb.zbuffer, vec![FAR; 4]);
}

#[test]
fn bitmap_has_two_headers_and_four_bytes_a_pixel() {
    let mut fb = Framebuffer::new(2, 1);
    fb.set_current_color(0x112233);
    fb.point(0, 0, 0, 0);
    let bytes = fb.render_buffer().unwrap();
    let mut want: Vec<u8> = Vec::new();
    want.extend_from_slice(b"BM");
    want.extend_from_slice(&62u32.to_le_bytes());
    want.extend_from_slice(&0u32.to_le_bytes());
    want.extend_from_slice(&54u32.to_le_bytes());
    want.extend_from_slice(&40u32.to_le_bytes());
    want.extend_from_slice(&2u32.to_le_bytes());
    want.extend_from_slice(&1u32.to_le_bytes());
    want.extend_from_slice(&1u16.to_le_bytes());
    want.extend_from_slice(&32u16.to_le_bytes());
    want.extend_from_slice(&0u32.to_le_bytes());
    want.extend_from_slice(&8u32.to_le_bytes());
    want.extend_from_slice(&[0u8; 16]);
    want.extend_from_slice(&[0x33, 0x22, 0x11, 0xFF]);
    want.extend_from_slice(&[0x00, 0x00, 0x00, 0xFF]);
    assert_eq!(bytes, want);
}

#[test]
fn bitmap_rows_are_in_buffer_order() {
    let mut fb = Framebuffer::new(1, 2);
    fb.set_current_color(0x0000FF);
    fb.point(0, 0, 0, 0);
    fb.set_current_color(0xFF0000);
    fb.point(0, 1, 0, 0);
    let bytes = fb.render_buffer().unwrap();
    assert_eq!(bytes.len(), 62);
    assert_eq!(&bytes[54..58], &[0xFF, 0x00, 0x00, 0xFF]);
    assert_eq!(&bytes[58..62], &[0x00, 0x00, 0xFF, 0xFF]);
}

#[test]
fn bitmap_of_an_empty_image_is_the_headers() {
    let fb = Framebuffer::new(0, 0);
    let bytes = fb.render_buffer().unwrap();
    assert_eq!(bytes.len(), 54);
    assert_eq!(&bytes[2..6], &54u32.to_le_bytes());
}

#[test]
fn bitmap_rejects_planes_of_the_wrong_size() {
    let mut fb = Framebuffer::new(2, 2);
    fb.buffer.pop();
    assert!(fb.render_buffer().is_none());
}
