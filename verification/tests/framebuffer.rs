use emu8::framebuffer::Framebuffer;

#[test]
fn draw_sets_pixels_without_collision() {
    let mut fb = Framebuffer::new();
    let sprite = vec![0b1010_0000u8];
    let collided = fb.draw(0, 0, &sprite);
    assert!(!collided);
    assert!(fb.pixel(0, 0));
    assert!(!fb.pixel(1, 0));
    assert!(fb.pixel(2, 0));
    assert!(!fb.pixel(3, 0));
}

#[test]
fn double_draw_collides_and_clears() {
    let mut fb = Framebuffer::new();
    fb.clear();
    let sprite = vec![0xFFu8, 0x81];
    let first = fb.draw(10, 5, &sprite);
    assert!(!first);
    let second = fb.draw(10, 5, &sprite);
    assert!(second);
    for px in 0..64 {
        for py in 0..32 {
            assert!(!fb.pixel(px, py));
        }
    }
}

#[test]
fn clear_turns_every_pixel_off() {
    let mut fb = Framebuffer::new();
    let sprite = vec![0xFFu8; 15];
    fb.draw(3, 7, &sprite);
    fb.clear();
    for b in fb.snapshot() {
        assert_eq!(b, 0);
    }
}

#[test]
fn start_coordinates_wrap_once() {
    let mut fb = Framebuffer::new();
    let sprite = vec![0b1000_0000u8];
    fb.draw(70, 33, &sprite);
    // 70 % 64 == 6, 33 % 32 == 1.
    assert!(fb.pixel(6, 1));
    assert!(!fb.pixel(6, 2));
    assert!(!fb.pixel(7, 1));
}

#[test]
fn bottom_rows_are_clipped() {
    let mut fb = Framebuffer::new();
    let sprite = vec![0b1000_0000u8, 0b1000_0000];
    let collided = fb.draw(0, 31, &sprite);
    assert!(!collided);
    assert!(fb.pixel(0, 31));
    // The second row would be row 32: clipped, so row 0 is untouched.
    assert!(!fb.pixel(0, 0));
}

#[test]
fn right_edge_bleeds_into_next_row_storage() {
    let mut fb = Framebuffer::new();
    let sprite = vec![0xFFu8];
    fb.draw(62, 0, &sprite);
    // Columns 62 and 63 of row 0 are lit; the remaining six sprite bits
    // land at the following stored bit indexes, the start of row 1.
    assert!(fb.pixel(62, 0));
    assert!(fb.pixel(63, 0));
    for px in 0..6 {
        assert!(fb.pixel(px, 1));
    }
    assert!(!fb.pixel(6, 1));
}

#[test]
fn writes_past_the_last_byte_are_dropped() {
    let mut fb = Framebuffer::new();
    let sprite = vec![0xFFu8];
    let collided = fb.draw(60, 31, &sprite);
    assert!(!collided);
    assert!(fb.pixel(60, 31));
    assert!(fb.pixel(63, 31));
    // The bits beyond stored index 2047 have nowhere to go.
    let snap = fb.snapshot();
    let lit: u32 = snap.iter().map(|b| b.count_ones()).sum();
    assert_eq!(lit, 4);
}

#[test]
fn collision_reported_for_single_overlapping_bit() {
    let mut fb = Framebuffer::new();
    let a = vec![0b1000_0000u8];
    let b = vec![0b1100_0000u8];
    assert!(!fb.draw(0, 0, &a));
    let collided = fb.draw(0, 0, &b);
    assert!(collided);
    assert!(!fb.pixel(0, 0));
    assert!(fb.pixel(1, 0));
}

#[test]
fn empty_sprite_draws_nothing() {
    let mut fb = Framebuffer::new();
    let sprite: Vec<u8> = Vec::new();
    let collided = fb.draw(0, 0, &sprite);
    assert!(!collided);
    for b in fb.snapshot() {
        assert_eq!(b, 0);
    }
}
