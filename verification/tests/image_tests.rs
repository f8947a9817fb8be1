use raytracer::image::{decimal_string, Image, Pixel, PPM};

#[test]
fn test() {
    let pixel = Pixel { r: 1, g: 2, b: 3 };
    assert_eq!(PPM(&pixel).to_string(), "  1   2   3");
}

#[test]
fn test2() {
    let img = Image::new_with_init(2, 3, |row, col| Pixel {
        r: row as u8,
        g: col as u8,
        b: 20,
    });
    assert_eq!(
        PPM(&img).to_string(),
        "P3\n3 2\n255\n  0   0  20\n  0   1  20\n  0   2  20\n  1   0  20\n  1   1  20\n  1   2  20\n"
    );
}

#[test]
fn ppm_one_white_pixel() {
    let img = Image::new_with_init(1, 1, |_row, _col| Pixel {
        r: 255,
        g: 255,
        b: 255,
    });
    assert_eq!(PPM(&img).to_string(), "P3\n1 1\n255\n255 255 255\n");
}

#[test]
fn new_image_is_black() {
    let img = Image::new(3, 4);
    assert_eq!(img.height(), 3);
    assert_eq!(img.width(), 4);
    for row in &img.pixels {
        assert_eq!(row.len(), 4);
        for p in row {
            assert_eq!(*p, Pixel { r: 0, g: 0, b: 0 });
        }
    }
}

#[test]
fn new_with_init_fills_row_major() {
    let img = Image::new_with_init(2, 2, |row, col| Pixel {
        r: (10 * row + col) as u8,
        g: 0,
        b: 0,
    });
    assert_eq!(img.pixels[0][0].r, 0);
    assert_eq!(img.pixels[0][1].r, 1);
    assert_eq!(img.pixels[1][0].r, 10);
    assert_eq!(img.pixels[1][1].r, 11);
}

#[test]
fn pixel_line_justification() {
    // One, two and three decimal digits are all right-justified to width 3.
    assert_eq!(PPM(&Pixel { r: 0, g: 9, b: 10 }).to_string(), "  0   9  10");
    assert_eq!(
        PPM(&Pixel {
            r: 99,
            g: 100,
            b: 255
        })
        .to_string(),
        " 99 100 255"
    );
}

#[test]
fn decimal_string_values() {
    assert_eq!(decimal_string(0), "0");
    assert_eq!(decimal_string(7), "7");
    assert_eq!(decimal_string(10), "10");
    assert_eq!(decimal_string(12345), "12345");
}

#[test]
fn default_pixel_is_black() {
    let p = Pixel::default();
    assert_eq!(p, Pixel { r: 0, g: 0, b: 0 });
}

#[test]
fn ppm_header_has_width_before_height() {
    let img = Image::new(2, 7);
    let text = PPM(&img).to_string();
    assert!(text.starts_with("P3\n7 2\n255\n"));
}
