use picofb::DrawHandle;

fn pixel(d: &DrawHandle, x: u32, y: u32) -> u32 {
    d.as_slice()[(y * d.width() + x) as usize]
}

#[test]
fn set_in_range_stores_color_with_opaque_alpha() {
    let mut d = DrawHandle::new(4, 3);
    d.set(1, 2, 0x0012_3456);
    assert_eq!(pixel(&d, 1, 2), 0xff12_3456);
}

#[test]
fn set_forces_alpha_regardless_of_input_alpha() {
    let mut d = DrawHandle::new(4, 3);
    d.set(0, 0, 0x7f00_0001);
    assert_eq!(pixel(&d, 0, 0), 0xff00_0001);
    d.set(3, 2, 0x0000_0000);
    assert_eq!(pixel(&d, 3, 2), 0xff00_0000);
}

#[test]
fn set_out_of_range_is_a_silent_no_op() {
    let mut d = DrawHandle::new(4, 3);
    d.set(1, 1, 0x111111);
    let before: Vec<u32> = d.as_slice().to_vec();
    d.set(4, 1, 0x99);
    d.set(1, 3, 0x99);
    d.set(u32::MAX, u32::MAX, 0x99);
    assert_eq!(d.as_slice(), before.as_slice());
}

#[test]
fn clear_zeroes_every_pixel_including_alpha() {
    let mut d = DrawHandle::new(5, 5);
    for y in 0..5 {
        for x in 0..5 {
            d.set(x, y, 0x00ab_cdef);
        }
    }
    d.clear();
    assert!(d.as_slice().iter().all(|&p| p == 0));
}

#[test]
fn scenario_corner_write_and_out_of_range_write() {
    let mut d = DrawHandle::new(10, 10);
    d.set(9, 9, 0x112233);
    d.set(10, 10, 0x445566);
    assert_eq!(pixel(&d, 9, 9), 0xff11_2233);
    for y in 0..10u32 {
        for x in 0..10u32 {
            if (x, y) != (9, 9) {
                assert_eq!(pixel(&d, x, y), 0);
            }
        }
    }
}

#[test]
fn set_unchecked_stores_color_with_opaque_alpha() {
    let mut d = DrawHandle::new(4, 4);
    d.set_unchecked(2, 3, 0x0055_66aa);
    assert_eq!(pixel(&d, 2, 3), 0xff55_66aa);
}

#[test]
fn fill_stores_the_color_exactly_as_given() {
    let mut d = DrawHandle::new(3, 2);
    d.fill(0x00ff_0000);
    assert!(d.as_slice().iter().all(|&p| p == 0x00ff_0000));
}

#[test]
fn new_surface_is_all_zero_with_requested_dimensions() {
    let d = DrawHandle::new(7, 2);
    assert_eq!(d.width(), 7);
    assert_eq!(d.height(), 2);
    assert_eq!(d.as_slice().len(), 14);
    assert!(d.as_slice().iter().all(|&p| p == 0));
}

#[test]
fn a_zero_sized_surface_drops_every_write() {
    let mut d = DrawHandle::new(0, 0);
    d.set(0, 0, 0x123456);
    assert!(d.as_slice().is_empty());
    let mut row = DrawHandle::new(4, 0);
    row.set(2, 0, 0x123456);
    assert!(row.as_slice().is_empty());
}
