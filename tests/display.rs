use chip8::display::{Framebuffer, HEIGHT, WIDTH};

fn lit(fb: &Framebuffer) -> Vec<(usize, usize)> {
    let mut out = Vec::new();
    for row in 0..HEIGHT {
        for col in 0..WIDTH {
            if fb.pixel(col, row) {
                out.push((col, row));
            }
        }
    }
    out
}

#[test]
fn draw_sets_bits_msb_first() {
    let mut fb = Framebuffer::new();
    assert_eq!(fb.draw(&vec![0b1000_0001, 0b0100_0000], 10, 5), 0);
    assert_eq!(lit(&fb), vec![(10, 5), (17, 5), (11, 6)]);
}

#[test]
fn draw_twice_restores_and_collides() {
    let mut fb = Framebuffer::new();
    fb.draw(&vec![0xFF], 0, 0);
    let before = lit(&fb);
    assert_eq!(fb.draw(&vec![0x3C, 0x81], 4, 0), 1);
    assert_eq!(fb.draw(&vec![0x3C, 0x81], 4, 0), 1);
    assert_eq!(lit(&fb), before);
}

#[test]
fn draw_twice_on_blank_screen() {
    let mut fb = Framebuffer::new();
    assert_eq!(fb.draw(&vec![0xF0, 0x90], 20, 20), 0);
    assert_eq!(fb.draw(&vec![0xF0, 0x90], 20, 20), 1);
    assert!(lit(&fb).is_empty());
}

#[test]
fn draw_wraps_at_corner() {
    let mut fb = Framebuffer::new();
    assert_eq!(fb.draw(&vec![0xC0, 0xC0], 63, 31), 0);
    assert_eq!(lit(&fb), vec![(0, 0), (63, 0), (0, 31), (63, 31)]);
}

#[test]
fn draw_origin_wraps_modulo() {
    let mut fb = Framebuffer::new();
    fb.draw(&vec![0x80], 64 + 3, 32 + 2);
    assert_eq!(lit(&fb), vec![(3, 2)]);
}

#[test]
fn draw_empty_sprite() {
    let mut fb = Framebuffer::new();
    assert_eq!(fb.draw(&vec![], 1, 1), 0);
    assert!(lit(&fb).is_empty());
}

#[test]
fn clear_screen_turns_all_off() {
    let mut fb = Framebuffer::new();
    fb.draw(&vec![0xFF, 0xFF], 60, 30);
    fb.clear_screen();
    assert!(lit(&fb).is_empty());
}
