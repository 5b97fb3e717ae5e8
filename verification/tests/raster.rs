use atlas::raster::{Image, Rgba};

#[test]
fn new_buffer_is_transparent_black() {
    let img = Image::new(3, 2);
    assert_eq!(img.width(), 3);
    assert_eq!(img.height(), 2);
    assert_eq!(img.data().len(), 3 * 2 * 4);
    for y in 0..2 {
        for x in 0..3 {
            assert_eq!(img.get_pixel(x, y), Rgba::new(0, 0, 0, 0));
        }
    }
    for &byte in img.data().iter() {
        assert_eq!(byte, 0);
    }
}

#[test]
fn rgba_new_keeps_channels() {
    let c = Rgba::new(10, 20, 30, 40);
    assert_eq!(c.r, 10);
    assert_eq!(c.g, 20);
    assert_eq!(c.b, 30);
    assert_eq!(c.a, 40);
}

#[test]
fn write_then_read_round_trip() {
    let mut img = Image::new(4, 3);
    let c = Rgba::new(9, 8, 7, 6);
    img.set_pixel(2, 1, c);
    assert_eq!(img.get_pixel(2, 1), c);
}

#[test]
fn write_then_read_every_coordinate() {
    let mut img = Image::new(5, 4);
    for y in 0..4 {
        for x in 0..5 {
            let c = Rgba::new(x as u8, y as u8, 255 - x as u8, 200);
            img.set_pixel(x, y, c);
            assert_eq!(img.get_pixel(x, y), c);
        }
    }
}

#[test]
fn write_leaves_other_pixels_unchanged() {
    let mut img = Image::new(4, 4);
    img.set_pixel(1, 2, Rgba::new(50, 60, 70, 80));
    img.set_pixel(3, 0, Rgba::new(1, 2, 3, 4));
    for y in 0..4 {
        for x in 0..4 {
            let expected = if (x, y) == (1, 2) {
                Rgba::new(50, 60, 70, 80)
            } else if (x, y) == (3, 0) {
                Rgba::new(1, 2, 3, 4)
            } else {
                Rgba::new(0, 0, 0, 0)
            };
            assert_eq!(img.get_pixel(x, y), expected);
        }
    }
}

#[test]
fn out_of_bounds_write_changes_nothing() {
    let mut img = Image::new(4, 3);
    img.set_pixel(1, 1, Rgba::new(11, 22, 33, 44));
    let before = img.data().clone();

    img.set_pixel(4, 0, Rgba::new(255, 255, 255, 255));
    img.set_pixel(0, 3, Rgba::new(255, 255, 255, 255));
    img.set_pixel(100, 100, Rgba::new(255, 255, 255, 255));
    assert_eq!(img.data(), &before);
}

#[test]
fn write_on_empty_buffer_is_a_no_op() {
    let mut img = Image::new(0, 0);
    assert_eq!(img.width(), 0);
    assert_eq!(img.height(), 0);
    assert_eq!(img.data().len(), 0);
    img.set_pixel(0, 0, Rgba::new(1, 1, 1, 1));
    assert_eq!(img.data().len(), 0);
}

#[test]
fn byte_offset_formula_holds() {
    let width = 5;
    let height = 3;
    let mut img = Image::new(width, height);
    for y in 0..height {
        for x in 0..width {
            let mut fresh = Image::new(width, height);
            fresh.set_pixel(x, y, Rgba::new(255, 0, 0, 255));
            let offset = (y * width + x) * 4;
            let data = fresh.data();
            assert_eq!(&data[offset..offset + 4], &[255, 0, 0, 255]);
            for (i, &byte) in data.iter().enumerate() {
                if !(offset <= i && i < offset + 4) {
                    assert_eq!(byte, 0);
                }
            }
        }
    }
    // Adjacent pixels in a row sit 4 bytes apart; adjacent rows width*4 apart.
    img.set_pixel(1, 1, Rgba::new(10, 0, 0, 0));
    img.set_pixel(2, 1, Rgba::new(20, 0, 0, 0));
    img.set_pixel(1, 2, Rgba::new(30, 0, 0, 0));
    let base = (1 * width + 1) * 4;
    assert_eq!(img.data()[base], 10);
    assert_eq!(img.data()[base + 4], 20);
    assert_eq!(img.data()[base + width * 4], 30);
}

#[test]
fn channels_land_in_rgba_order() {
    let mut img = Image::new(2, 1);
    img.set_pixel(1, 0, Rgba::new(1, 2, 3, 4));
    assert_eq!(&img.data()[4..8], &[1, 2, 3, 4]);
}

#[test]
fn overwrite_keeps_last_color() {
    let mut img = Image::new(2, 2);
    img.set_pixel(0, 1, Rgba::new(5, 5, 5, 5));
    img.set_pixel(0, 1, Rgba::new(6, 7, 8, 9));
    assert_eq!(img.get_pixel(0, 1), Rgba::new(6, 7, 8, 9));
}

#[test]
fn texture_corners_read_back_distinct() {
    // A 2x2 texture with four distinct corner colors, as a sampler source.
    let mut tex = Image::new(2, 2);
    let c00 = Rgba::new(255, 0, 0, 255);
    let c10 = Rgba::new(0, 255, 0, 255);
    let c01 = Rgba::new(0, 0, 255, 255);
    let c11 = Rgba::new(255, 255, 0, 255);
    tex.set_pixel(0, 0, c00);
    tex.set_pixel(1, 0, c10);
    tex.set_pixel(0, 1, c01);
    tex.set_pixel(1, 1, c11);
    assert_eq!(tex.get_pixel(0, 0), c00);
    assert_eq!(tex.get_pixel(1, 0), c10);
    assert_eq!(tex.get_pixel(0, 1), c01);
    assert_eq!(tex.get_pixel(1, 1), c11);
}
