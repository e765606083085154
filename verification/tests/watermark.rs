use photo_blog::watermark::{watermark_position, ImageSize, Position, COMPRESSION_QUALITY};

#[test]
fn watermark_sits_in_the_bottom_right_corner() {
    let image = ImageSize { width: 2560, height: 1440 };
    let mark = ImageSize { width: 300, height: 120 };
    assert_eq!(watermark_position(image, mark), Position { x: 2260, y: 1320 });
}

#[test]
fn watermark_of_the_image_size_sits_at_the_origin() {
    let size = ImageSize { width: 640, height: 480 };
    assert_eq!(watermark_position(size, size), Position { x: 0, y: 0 });
}

#[test]
fn watermark_larger_than_the_image_starts_outside_it() {
    let image = ImageSize { width: 100, height: 50 };
    let mark = ImageSize { width: 300, height: 120 };
    assert_eq!(watermark_position(image, mark), Position { x: -200, y: -70 });
}

#[test]
fn watermark_position_at_the_extremes() {
    let largest = ImageSize { width: u32::MAX, height: u32::MAX };
    let empty = ImageSize { width: 0, height: 0 };
    assert_eq!(
        watermark_position(largest, empty),
        Position { x: 4_294_967_295, y: 4_294_967_295 }
    );
    assert_eq!(
        watermark_position(empty, largest),
        Position { x: -4_294_967_295, y: -4_294_967_295 }
    );
}

#[test]
fn compression_quality_is_ninety_percent() {
    assert_eq!(COMPRESSION_QUALITY, 90);
}

fn pixel(image: &photon_rs::PhotonImage, x: u32, y: u32) -> Vec<u8> {
    let at = ((y * image.get_width() + x) * 4) as usize;
    image.get_raw_pixels()[at..at + 4].to_vec()
}

#[test]
fn overlay_at_the_position_covers_the_bottom_right_corner() {
    let black = vec![0, 0, 0, 255];
    let white = vec![255, 255, 255, 255];
    let mut image = photon_rs::PhotonImage::new(black.repeat(5 * 4), 5, 4);
    let mark = photon_rs::PhotonImage::new(white.repeat(2 * 3), 2, 3);
    let position = watermark_position(
        ImageSize { width: image.get_width(), height: image.get_height() },
        ImageSize { width: mark.get_width(), height: mark.get_height() },
    );
    assert_eq!(position, Position { x: 3, y: 1 });
    photon_rs::multiple::watermark(&mut image, &mark, position.x, position.y);
    for y in 0..4 {
        for x in 0..5 {
            let covered = x >= 3 && y >= 1;
            assert_eq!(pixel(&image, x, y), if covered { white.clone() } else { black.clone() });
        }
    }
}

#[test]
fn overlay_of_a_larger_watermark_shows_its_bottom_right_part() {
    let black = vec![0, 0, 0, 255];
    let mut mark_pixels = Vec::new();
    for y in 0..3_u8 {
        for x in 0..4_u8 {
            mark_pixels.extend_from_slice(&[10 * x, 10 * y, 7, 255]);
        }
    }
    let mut image = photon_rs::PhotonImage::new(black.repeat(2 * 2), 2, 2);
    let mark = photon_rs::PhotonImage::new(mark_pixels, 4, 3);
    let position =
        watermark_position(ImageSize { width: 2, height: 2 }, ImageSize { width: 4, height: 3 });
    assert_eq!(position, Position { x: -2, y: -1 });
    photon_rs::multiple::watermark(&mut image, &mark, position.x, position.y);
    assert_eq!(pixel(&image, 0, 0), vec![20, 10, 7, 255]);
    assert_eq!(pixel(&image, 1, 0), vec![30, 10, 7, 255]);
    assert_eq!(pixel(&image, 0, 1), vec![20, 20, 7, 255]);
    assert_eq!(pixel(&image, 1, 1), vec![30, 20, 7, 255]);
}
