use imagetool::canvas::{CANVAS_HEIGHT, CANVAS_PIXELS, CANVAS_WIDTH, MAX_ITERATIONS};
use imagetool::{filled, fractal, fractal_pixel, generate, gradient, Color, Layout, Pixel};

fn escape_count(x: u32, y: u32) -> u8 {
    let scale_x = 3.0 / CANVAS_WIDTH as f32;
    let scale_y = 3.0 / CANVAS_HEIGHT as f32;
    let cx = y as f32 * scale_x - 1.5;
    let cy = x as f32 * scale_y - 1.5;
    let c = num_complex::Complex::new(-0.4, 0.6);
    let mut z = num_complex::Complex::new(cx, cy);
    let mut green = 0;
    while green < MAX_ITERATIONS && z.norm() <= 2.0 {
        z = z * z + c;
        green += 1;
    }
    green
}

#[test]
fn generate_fills_the_canvas_with_the_colour() {
    let img = generate(Color { r: 12, g: 200, b: 255 });
    assert_eq!((img.width(), img.height()), (800, 800));
    assert_eq!(img.as_raw().len(), 800 * 800 * 4);
    for y in 0..800 {
        for x in 0..800 {
            assert_eq!(img.get_pixel(x, y), Pixel { r: 12, g: 200, b: 255, a: 255 });
        }
    }
}

#[test]
fn generate_takes_every_channel_value() {
    for c in [Color { r: 0, g: 0, b: 0 }, Color { r: 255, g: 255, b: 255 }, Color { r: 1, g: 2, b: 3 }] {
        let img = generate(c);
        assert_eq!(img.get_pixel(0, 0).to_color(), c);
        assert_eq!(img.get_pixel(799, 799).to_color(), c);
        assert_eq!(img.get_pixel(400, 17).to_color(), c);
    }
}

#[test]
fn filled_repeats_one_opaque_pixel() {
    let c = Color { r: 1, g: 2, b: 3 };
    let img = filled(3, 2, c);
    assert_eq!((img.width(), img.height()), (3, 2));
    assert_eq!(img.layout(), Layout::Rgb);
    assert_eq!(
        img.into_raw(),
        vec![1, 2, 3, 255, 1, 2, 3, 255, 1, 2, 3, 255, 1, 2, 3, 255, 1, 2, 3, 255, 1, 2, 3, 255]
    );
    assert!(filled(0, 9, c).into_raw().is_empty());
}

#[test]
fn generated_images_have_three_channels() {
    assert_eq!(generate(Color { r: 1, g: 2, b: 3 }).layout(), Layout::Rgb);
    assert_eq!(fractal(&vec![0u8; CANVAS_PIXELS]).unwrap().layout(), Layout::Rgb);
}

#[test]
fn gradient_is_three_tenths_rounded_down() {
    assert_eq!(gradient(0), 0);
    assert_eq!(gradient(1), 0);
    assert_eq!(gradient(3), 0);
    assert_eq!(gradient(4), 1);
    assert_eq!(gradient(10), 3);
    assert_eq!(gradient(799), 239);
}

#[test]
fn gradient_keeps_the_low_eight_bits() {
    assert_eq!(gradient(853), 255);
    assert_eq!(gradient(854), 0);
    assert_eq!(gradient(857), 1);
    assert_eq!(gradient(u32::MAX), ((3 * (u32::MAX as u64) / 10) % 256) as u8);
}

#[test]
fn gradient_agrees_with_single_precision_on_the_canvas() {
    for x in 0..800u32 {
        assert_eq!(gradient(x), (0.3 * x as f32) as u8);
    }
}

#[test]
fn fractal_pixel_at_the_origin_is_black() {
    assert_eq!(escape_count(0, 0), 0);
    assert_eq!(fractal_pixel(0, 0, escape_count(0, 0)), Pixel { r: 0, g: 0, b: 0, a: 255 });
}

#[test]
fn fractal_pixel_puts_the_escape_count_in_green() {
    assert_eq!(fractal_pixel(10, 20, 77), Pixel { r: 3, g: 77, b: 6, a: 255 });
    assert_eq!(fractal_pixel(799, 0, 255), Pixel { r: 239, g: 255, b: 0, a: 255 });
}

#[test]
fn fractal_draws_every_pixel_from_its_escape_count() {
    let escapes: Vec<u8> = (0..CANVAS_PIXELS).map(|i| (i % 251) as u8).collect();
    let img = fractal(&escapes).unwrap();
    assert_eq!((img.width(), img.height()), (800, 800));
    for y in 0..800u32 {
        for x in 0..800u32 {
            let e = escapes[(y * 800 + x) as usize];
            assert_eq!(img.get_pixel(x, y), Pixel { r: gradient(x), g: e, b: gradient(y), a: 255 });
        }
    }
    assert_eq!(img.get_pixel(5, 1), Pixel { r: 1, g: ((800 + 5) % 251) as u8, b: 0, a: 255 });
}

#[test]
fn fractal_needs_one_count_for_each_pixel() {
    assert!(fractal(&Vec::new()).is_none());
    assert!(fractal(&vec![0u8; CANVAS_PIXELS - 1]).is_none());
    assert!(fractal(&vec![0u8; CANVAS_PIXELS + 1]).is_none());
    assert!(fractal(&vec![0u8; CANVAS_PIXELS]).is_some());
}

#[test]
fn fractal_drawn_twice_is_the_same() {
    let mut escapes = Vec::with_capacity(CANVAS_PIXELS);
    for y in 0..800u32 {
        for x in 0..800u32 {
            escapes.push(if x % 40 == 0 && y % 40 == 0 { escape_count(x, y) } else { 0 });
        }
    }
    let first = fractal(&escapes).unwrap();
    let second = fractal(&escapes).unwrap();
    assert_eq!(first.as_raw(), second.as_raw());
}

#[test]
fn fractal_of_the_true_escape_counts() {
    let mut escapes = Vec::with_capacity(CANVAS_PIXELS);
    for y in 0..800u32 {
        for x in 0..800u32 {
            escapes.push(escape_count(x, y));
        }
    }
    let img = fractal(&escapes).unwrap();
    assert_eq!(img.get_pixel(0, 0), Pixel { r: 0, g: 0, b: 0, a: 255 });
    assert_eq!(img.get_pixel(799, 799).r, 239);
    assert_eq!(img.get_pixel(799, 799).b, 239);
    assert_eq!(img.get_pixel(400, 400).g, escape_count(400, 400));
    assert!(escape_count(400, 400) > 0);
}
