use chip8::display::Display;

fn pixel(d: &Display, x: usize, y: usize) -> bool {
    d.pixels[y * 64 + x]
}

#[test]
fn test_set_unset_toggle() {
    let mut d = Display::new();
    assert!(!pixel(&d, 3, 5));
    d.set(3, 5);
    assert!(pixel(&d, 3, 5));
    d.toggle(3, 5);
    assert!(!pixel(&d, 3, 5));
    d.toggle(3, 5);
    assert!(pixel(&d, 3, 5));
    d.unset(3, 5);
    assert!(!pixel(&d, 3, 5));
}

#[test]
fn test_xor_set_reports_collision() {
    let mut d = Display::new();
    assert!(!d.xor_set(10, 10, true));
    assert!(pixel(&d, 10, 10));
    // Drawing a lit bit over a lit pixel clears it and is a collision.
    assert!(d.xor_set(10, 10, true));
    assert!(!pixel(&d, 10, 10));
    // An unlit bit never collides and never changes the pixel.
    assert!(!d.xor_set(10, 10, false));
    assert!(!pixel(&d, 10, 10));
}

#[test]
fn test_clear() {
    let mut d = Display::new();
    d.set(0, 0);
    d.set(63, 31);
    d.clear();
    for y in 0..32 {
        for x in 0..64 {
            assert!(!pixel(&d, x, y));
        }
    }
}

#[test]
fn test_sprite_wraps_and_second_draw_collides() {
    let mut d = Display::new();
    // An 8x1 sprite of all-lit bits drawn at column 60 wraps: columns 60..63
    // then 0..3 of row 0.
    let collision = d.render_sprite(60, 0, vec![0xFF]);
    assert!(!collision);
    let mut lit: Vec<(usize, usize)> = Vec::new();
    for y in 0..32 {
        for x in 0..64 {
            if pixel(&d, x, y) {
                lit.push((x, y));
            }
        }
    }
    let expected: Vec<(usize, usize)> =
        vec![(0, 0), (1, 0), (2, 0), (3, 0), (60, 0), (61, 0), (62, 0), (63, 0)];
    assert_eq!(lit, expected);
    // The same sprite drawn again clears every one of those pixels and
    // reports the collision.
    let collision = d.render_sprite(60, 0, vec![0xFF]);
    assert!(collision);
    for y in 0..32 {
        for x in 0..64 {
            assert!(!pixel(&d, x, y));
        }
    }
}

#[test]
fn test_sprite_wraps_vertically() {
    let mut d = Display::new();
    let collision = d.render_sprite(0, 31, vec![0x80, 0x80]);
    assert!(!collision);
    assert!(pixel(&d, 0, 31));
    assert!(pixel(&d, 0, 0));
}

#[test]
fn test_sprite_coordinates_reduce_modulo_grid() {
    let mut a = Display::new();
    let mut b = Display::new();
    a.render_sprite(70, 40, vec![0xA5]);
    b.render_sprite(70 % 64, 40 % 32, vec![0xA5]);
    for y in 0..32 {
        for x in 0..64 {
            assert_eq!(pixel(&a, x, y), pixel(&b, x, y));
        }
    }
}
