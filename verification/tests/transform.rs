use image::DynamicImage;
use imagetool::{brighten, crop, grayscale, invert, rotate, CropError, Image, Layout, Pixel};

fn sample(width: u32, height: u32) -> Image {
    let count = (width * height * 4) as usize;
    let data: Vec<u8> = (0..count).map(|i| ((i * 37 + 11) % 256) as u8).collect();
    Image::from_raw(width, height, data).unwrap()
}

fn numbered(width: u32, height: u32) -> Image {
    let mut data = Vec::new();
    for y in 0..height {
        for x in 0..width {
            data.extend_from_slice(&[x as u8, y as u8, 200, 90]);
        }
    }
    Image::from_raw(width, height, data).unwrap()
}

fn grey(width: u32, height: u32, alpha: bool) -> (DynamicImage, Image) {
    let count = (width * height) as usize;
    let levels: Vec<u8> = (0..count).map(|i| ((i * 29 + 13) % 256) as u8).collect();
    let veils: Vec<u8> = (0..count).map(|i| ((i * 53 + 7) % 256) as u8).collect();
    let mut data = Vec::new();
    let mut pairs = Vec::new();
    for i in 0..count {
        let a = if alpha { veils[i] } else { 255 };
        data.extend_from_slice(&[levels[i], levels[i], levels[i], a]);
        pairs.extend_from_slice(&[levels[i], a]);
    }
    let layout = if alpha { Layout::GrayAlpha } else { Layout::Gray };
    let img = Image::from_raw(width, height, data).unwrap().with_layout(layout).unwrap();
    let other = if alpha {
        DynamicImage::ImageLumaA8(image::ImageBuffer::from_raw(width, height, pairs).unwrap())
    } else {
        DynamicImage::ImageLuma8(image::ImageBuffer::from_raw(width, height, levels).unwrap())
    };
    (other, img)
}

fn dynamic(img: &Image) -> DynamicImage {
    let buf = image::RgbaImage::from_raw(img.width(), img.height(), img.as_raw().clone()).unwrap();
    DynamicImage::ImageRgba8(buf)
}

#[test]
fn invert_subtracts_colour_from_255_and_keeps_alpha() {
    let img = Image::from_raw(2, 1, vec![0, 1, 255, 40, 100, 200, 254, 0]).unwrap();
    let out = invert(img);
    assert_eq!((out.width(), out.height()), (2, 1));
    assert_eq!(out.into_raw(), vec![255, 254, 0, 40, 155, 55, 1, 0]);
}

#[test]
fn invert_twice_gives_the_image_back() {
    let img = sample(7, 5);
    assert_eq!(invert(invert(img.clone())), img);
}

#[test]
fn invert_agrees_with_dynamic_image() {
    let img = sample(6, 4);
    let mut other = dynamic(&img);
    other.invert();
    assert_eq!(invert(img).into_raw(), other.to_rgba().into_raw());
}

#[test]
fn brighten_by_zero_gives_the_image_back() {
    let img = sample(5, 6);
    assert_eq!(brighten(img.clone(), 0), img);
}

#[test]
fn brighten_adds_to_colour_and_keeps_alpha() {
    let img = Image::from_raw(1, 1, vec![10, 20, 30, 40]).unwrap();
    assert_eq!(brighten(img, 5).into_raw(), vec![15, 25, 35, 40]);
}

#[test]
fn brighten_saturates_at_both_ends() {
    let img = Image::from_raw(2, 1, vec![0, 100, 250, 7, 255, 5, 6, 200]).unwrap();
    assert_eq!(brighten(img.clone(), 10).into_raw(), vec![10, 110, 255, 7, 255, 15, 16, 200]);
    assert_eq!(brighten(img.clone(), -10).into_raw(), vec![0, 90, 240, 7, 245, 0, 0, 200]);
    assert_eq!(brighten(img.clone(), 255).into_raw(), vec![255, 255, 255, 7, 255, 255, 255, 200]);
    assert_eq!(brighten(img, -255).into_raw(), vec![0, 0, 0, 7, 0, 0, 0, 200]);
}

#[test]
fn brighten_by_extreme_amounts_saturates() {
    let img = Image::from_raw(2, 1, vec![0, 100, 250, 7, 255, 5, 6, 200]).unwrap();
    assert_eq!(brighten(img.clone(), 256).into_raw(), vec![255, 255, 255, 7, 255, 255, 255, 200]);
    assert_eq!(
        brighten(img.clone(), i32::MAX).into_raw(),
        vec![255, 255, 255, 7, 255, 255, 255, 200]
    );
    assert_eq!(brighten(img.clone(), i32::MAX - 254).into_raw(), vec![255, 255, 255, 7, 255, 255, 255, 200]);
    assert_eq!(brighten(img, i32::MIN).into_raw(), vec![0, 0, 0, 7, 0, 0, 0, 200]);
}

#[test]
fn brighten_agrees_with_dynamic_image() {
    for amount in [-300, -255, -17, -1, 0, 1, 42, 255] {
        let img = sample(6, 4);
        let other = dynamic(&img).brighten(amount);
        assert_eq!(brighten(img, amount).into_raw(), other.to_rgba().into_raw());
    }
}

#[test]
fn crop_has_the_size_asked_for() {
    let out = crop(sample(10, 8), 2, 3, 4, 5).unwrap();
    assert_eq!((out.width(), out.height()), (4, 5));
    assert_eq!(out.as_raw().len(), 4 * 4 * 5);
}

#[test]
fn crop_keeps_the_pixels_of_the_window() {
    let img = numbered(10, 8);
    let out = crop(img.clone(), 2, 3, 4, 5).unwrap();
    for j in 0..5 {
        for i in 0..4 {
            assert_eq!(out.get_pixel(i, j), img.get_pixel(2 + i, 3 + j));
            assert_eq!(out.get_pixel(i, j), Pixel { r: 2 + i as u8, g: 3 + j as u8, b: 200, a: 90 });
        }
    }
}

#[test]
fn crop_of_the_whole_image_gives_it_back() {
    let img = sample(6, 4);
    assert_eq!(crop(img.clone(), 0, 0, 6, 4), Ok(img));
}

#[test]
fn crop_may_be_empty() {
    let out = crop(sample(6, 4), 6, 4, 0, 0).unwrap();
    assert_eq!((out.width(), out.height()), (0, 0));
    assert!(out.into_raw().is_empty());
    let out = crop(sample(6, 4), 1, 1, 3, 0).unwrap();
    assert_eq!((out.width(), out.height()), (3, 0));
}

#[test]
fn crop_beyond_the_right_edge_is_refused() {
    assert_eq!(crop(sample(10, 8), 7, 0, 4, 1), Err(CropError::BeyondWidth));
    assert_eq!(crop(sample(10, 8), 11, 0, 0, 0), Err(CropError::BeyondWidth));
    assert_eq!(crop(sample(10, 8), 0, 0, 11, 8), Err(CropError::BeyondWidth));
}

#[test]
fn crop_beyond_the_lower_edge_is_refused() {
    assert_eq!(crop(sample(10, 8), 0, 5, 10, 4), Err(CropError::BeyondHeight));
    assert_eq!(crop(sample(10, 8), 0, 9, 1, 0), Err(CropError::BeyondHeight));
}

#[test]
fn crop_beyond_both_edges_reports_the_width() {
    assert_eq!(crop(sample(10, 8), 9, 7, 2, 2), Err(CropError::BeyondWidth));
}

#[test]
fn crop_with_sums_beyond_u32_is_refused() {
    assert_eq!(crop(sample(10, 8), u32::MAX, 0, 2, 1), Err(CropError::BeyondWidth));
    assert_eq!(crop(sample(10, 8), 1, 0, u32::MAX, 1), Err(CropError::BeyondWidth));
    assert_eq!(crop(sample(10, 8), 0, u32::MAX, 1, u32::MAX), Err(CropError::BeyondHeight));
}

#[test]
fn crop_agrees_with_dynamic_image() {
    let img = sample(9, 7);
    let other = dynamic(&img).crop(3, 2, 5, 4);
    assert_eq!(crop(img, 3, 2, 5, 4).unwrap().into_raw(), other.to_rgba().into_raw());
}

#[test]
fn rotate_90_moves_the_left_column_to_the_top() {
    let img = numbered(3, 2);
    let out = rotate(img.clone(), 90);
    assert_eq!((out.width(), out.height()), (2, 3));
    for y in 0..2 {
        for x in 0..3 {
            assert_eq!(out.get_pixel(1 - y, x), img.get_pixel(x, y));
        }
    }
    assert_eq!(out.get_pixel(0, 0), Pixel { r: 0, g: 1, b: 200, a: 90 });
    assert_eq!(out.get_pixel(1, 2), Pixel { r: 2, g: 0, b: 200, a: 90 });
}

#[test]
fn rotate_180_turns_the_image_upside_down() {
    let img = numbered(3, 2);
    let out = rotate(img.clone(), 180);
    assert_eq!((out.width(), out.height()), (3, 2));
    for y in 0..2 {
        for x in 0..3 {
            assert_eq!(out.get_pixel(2 - x, 1 - y), img.get_pixel(x, y));
        }
    }
    assert_eq!(out.get_pixel(0, 0), Pixel { r: 2, g: 1, b: 200, a: 90 });
}

#[test]
fn rotate_270_moves_the_top_row_to_the_left() {
    let img = numbered(3, 2);
    let out = rotate(img.clone(), 270);
    assert_eq!((out.width(), out.height()), (2, 3));
    for y in 0..2 {
        for x in 0..3 {
            assert_eq!(out.get_pixel(y, 2 - x), img.get_pixel(x, y));
        }
    }
    assert_eq!(out.get_pixel(0, 0), Pixel { r: 2, g: 0, b: 200, a: 90 });
}

#[test]
fn rotate_by_another_amount_changes_nothing() {
    let img = sample(5, 3);
    for amount in [0, 1, 45, 89, 91, 360, 450, u32::MAX] {
        assert_eq!(rotate(img.clone(), amount), img);
    }
}

#[test]
fn rotate_90_four_times_gives_the_image_back() {
    let img = sample(7, 4);
    let once = rotate(img.clone(), 90);
    assert_ne!(once, img);
    let full = rotate(rotate(rotate(once, 90), 90), 90);
    assert_eq!(full, img);
}

#[test]
fn rotations_add_up() {
    let img = sample(7, 4);
    assert_eq!(rotate(rotate(img.clone(), 90), 90), rotate(img.clone(), 180));
    assert_eq!(rotate(rotate(img.clone(), 180), 90), rotate(img.clone(), 270));
    assert_eq!(rotate(rotate(img.clone(), 270), 90), img);
}

#[test]
fn rotate_keeps_empty_images_empty() {
    let flat = Image::from_raw(0, 5, Vec::new()).unwrap();
    let out = rotate(flat, 90);
    assert_eq!((out.width(), out.height()), (5, 0));
    let out = rotate(out, 270);
    assert_eq!((out.width(), out.height()), (0, 5));
}

#[test]
fn rotate_agrees_with_dynamic_image() {
    let img = sample(6, 4);
    let other = dynamic(&img);
    assert_eq!(rotate(img.clone(), 90).into_raw(), other.rotate90().to_rgba().into_raw());
    assert_eq!(rotate(img.clone(), 180).into_raw(), other.rotate180().to_rgba().into_raw());
    assert_eq!(rotate(img, 270).into_raw(), other.rotate270().to_rgba().into_raw());
}

#[test]
fn grayscale_gives_opaque_grey_of_the_luminance() {
    let img = Image::from_raw(
        4,
        1,
        vec![255, 0, 0, 7, 0, 255, 0, 255, 0, 0, 255, 0, 0, 0, 0, 9],
    ).unwrap();
    let out = grayscale(img);
    assert_eq!((out.width(), out.height()), (4, 1));
    assert_eq!(
        out.into_raw(),
        vec![54, 54, 54, 255, 182, 182, 182, 255, 18, 18, 18, 255, 0, 0, 0, 255]
    );
}

#[test]
fn grayscale_agrees_with_dynamic_image() {
    let img = sample(8, 5);
    let other = dynamic(&img).grayscale();
    let luma = other.as_luma8().unwrap();
    let out = grayscale(img);
    for y in 0..5 {
        for x in 0..8 {
            let l = luma.get_pixel(x, y).data[0];
            assert_eq!(out.get_pixel(x, y), Pixel { r: l, g: l, b: l, a: 255 });
        }
    }
}

#[test]
fn grayscale_keeps_the_levels_of_a_grey_image() {
    let data = vec![13, 13, 13, 255, 26, 26, 26, 255, 200, 200, 200, 255];
    let plain = Image::from_raw(3, 1, data.clone()).unwrap();
    let coloured = plain.clone().with_layout(Layout::Rgb).unwrap();
    let grey = plain.with_layout(Layout::Gray).unwrap();
    assert_eq!(grayscale(grey).into_raw(), data);
    assert_eq!(
        grayscale(coloured).into_raw(),
        vec![12, 12, 12, 255, 25, 25, 25, 255, 200, 200, 200, 255]
    );
}

#[test]
fn grayscale_of_grey_with_alpha_keeps_the_level_and_drops_alpha() {
    let img = Image::from_raw(2, 1, vec![13, 13, 13, 40, 91, 91, 91, 0])
        .unwrap()
        .with_layout(Layout::GrayAlpha)
        .unwrap();
    let out = grayscale(img);
    assert_eq!(out.layout(), Layout::Gray);
    assert_eq!(out.into_raw(), vec![13, 13, 13, 255, 91, 91, 91, 255]);
}

#[test]
fn grayscale_gives_a_grey_layout() {
    for layout in [Layout::Rgb, Layout::Rgba, Layout::Gray, Layout::GrayAlpha] {
        let img = Image::from_raw(1, 1, vec![8, 8, 8, 255]).unwrap().with_layout(layout).unwrap();
        assert_eq!(grayscale(img).layout(), Layout::Gray);
    }
}

#[test]
fn edits_keep_the_layout() {
    for layout in [Layout::Rgb, Layout::Rgba, Layout::Gray, Layout::GrayAlpha] {
        let data = vec![8, 8, 8, 255, 9, 9, 9, 255, 1, 1, 1, 255, 2, 2, 2, 255];
        let img = Image::from_raw(2, 2, data).unwrap().with_layout(layout).unwrap();
        assert_eq!(invert(img.clone()).layout(), layout);
        assert_eq!(brighten(img.clone(), 300).layout(), layout);
        assert_eq!(brighten(img.clone(), -3).layout(), layout);
        assert_eq!(crop(img.clone(), 1, 0, 1, 2).unwrap().layout(), layout);
        for amount in [90, 180, 270, 5] {
            assert_eq!(rotate(img.clone(), amount).layout(), layout);
        }
    }
}

#[test]
fn edits_of_grey_images_agree_with_dynamic_image() {
    for alpha in [false, true] {
        let (mut other, img) = grey(5, 4, alpha);
        assert_eq!(img.as_raw(), &other.to_rgba().into_raw());
        assert_eq!(brighten(img.clone(), 40).into_raw(), other.brighten(40).to_rgba().into_raw());
        assert_eq!(brighten(img.clone(), -40).into_raw(), other.brighten(-40).to_rgba().into_raw());
        assert_eq!(rotate(img.clone(), 90).into_raw(), other.rotate90().to_rgba().into_raw());
        assert_eq!(rotate(img.clone(), 180).into_raw(), other.rotate180().to_rgba().into_raw());
        assert_eq!(rotate(img.clone(), 270).into_raw(), other.rotate270().to_rgba().into_raw());
        assert_eq!(
            crop(img.clone(), 1, 1, 3, 2).unwrap().into_raw(),
            other.crop(1, 1, 3, 2).to_rgba().into_raw()
        );
        assert_eq!(grayscale(img.clone()).into_raw(), other.grayscale().to_rgba().into_raw());
        other.invert();
        assert_eq!(invert(img).into_raw(), other.to_rgba().into_raw());
    }
}

#[test]
fn edits_of_images_without_pixels_keep_them_without_pixels() {
    let wide = Image::from_raw(0x4000_0000, 0, Vec::new()).unwrap();
    let tall = Image::from_raw(0, 0xffff_ffff, Vec::new()).unwrap();
    assert_eq!(invert(wide.clone()), wide);
    assert_eq!(invert(tall.clone()), tall);
    assert_eq!(brighten(wide.clone(), 7), wide);
    assert_eq!(brighten(tall.clone(), -7), tall);
    assert_eq!(rotate(wide.clone(), 180), wide);
    assert_eq!(rotate(tall.clone(), 180), tall);
    let turned = rotate(wide.clone(), 90);
    assert_eq!((turned.width(), turned.height()), (0, 0x4000_0000));
    let turned = rotate(wide.clone(), 270);
    assert_eq!((turned.width(), turned.height()), (0, 0x4000_0000));
    let turned = rotate(tall.clone(), 90);
    assert_eq!((turned.width(), turned.height()), (0xffff_ffff, 0));
    let turned = rotate(tall.clone(), 270);
    assert_eq!((turned.width(), turned.height()), (0xffff_ffff, 0));
    let cut = crop(wide.clone(), 5, 0, 0x3fff_fff0, 0).unwrap();
    assert_eq!((cut.width(), cut.height()), (0x3fff_fff0, 0));
    assert!(cut.into_raw().is_empty());
    let cut = crop(tall.clone(), 0, 9, 0, 0xffff_0000).unwrap();
    assert_eq!((cut.width(), cut.height()), (0, 0xffff_0000));
    assert_eq!(crop(wide.clone(), 0, 0, 1, 1), Err(CropError::BeyondHeight));
    assert_eq!(crop(tall, 0, 0, 1, 1), Err(CropError::BeyondWidth));
    let out = grayscale(wide);
    assert_eq!((out.width(), out.height()), (0x4000_0000, 0));
}
