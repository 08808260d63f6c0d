use thermal_frame::config::RenderError;
use thermal_frame::raster::can_upscale;
use thermal_frame::raster::draw_crosshair;
use thermal_frame::raster::encode_jpeg;
use thermal_frame::raster::mark_poi;
use thermal_frame::raster::upscale;
use thermal_frame::raster::Raster;

fn uniform(width: usize, height: usize, rgb: [u8; 3]) -> Raster {
    let mut data = Vec::new();
    for _ in 0..width * height {
        data.extend_from_slice(&rgb);
    }
    Raster::from_pixels(data, width, height).unwrap()
}

fn pixel(img: &Raster, x: usize, y: usize) -> [u8; 3] {
    let at = 3 * (y * img.width + x);
    [img.data[at], img.data[at + 1], img.data[at + 2]]
}

fn marked(img: &Raster, plain: [u8; 3], inverse: [u8; 3]) -> Vec<(usize, usize)> {
    let mut found = Vec::new();
    for y in 0..img.height {
        for x in 0..img.width {
            let p = pixel(img, x, y);
            if p == inverse {
                found.push((x, y));
            } else {
                assert_eq!(p, plain);
            }
        }
    }
    found
}

fn colourful(width: usize, height: usize) -> Raster {
    let data: Vec<u8> = (0..3 * width * height).map(|i| (i * 7 % 251) as u8).collect();
    Raster::from_pixels(data, width, height).unwrap()
}

#[test]
fn from_pixels_is_row_major() {
    let data: Vec<u8> = (0..18).collect();
    let img = Raster::from_pixels(data, 3, 2).unwrap();
    assert_eq!(pixel(&img, 0, 0), [0, 1, 2]);
    assert_eq!(pixel(&img, 2, 0), [6, 7, 8]);
    assert_eq!(pixel(&img, 0, 1), [9, 10, 11]);
    assert_eq!(pixel(&img, 4 % 3, 4 / 3), [12, 13, 14]);
}

#[test]
fn from_pixels_checks_the_length() {
    assert!(Raster::from_pixels(vec![0; 17], 3, 2).is_none());
    assert!(Raster::from_pixels(vec![0; 19], 3, 2).is_none());
    assert!(Raster::from_pixels(vec![0; 6], 3, 2).is_none());
    assert!(Raster::from_pixels(vec![0; 3], usize::MAX, 3).is_none());
    assert!(Raster::from_pixels(Vec::new(), 0, 7).is_some());
}

#[test]
fn upscale_by_one_is_identity() {
    let base = colourful(32, 24);
    let out = upscale(&base, 1);
    assert_eq!((out.width, out.height), (32, 24));
    assert_eq!(out.data, base.data);
}

#[test]
fn upscale_by_two_doubles_both_sides() {
    let base = colourful(32, 24);
    let out = upscale(&base, 2);
    assert_eq!((out.width, out.height), (64, 48));
    assert_eq!(out.data.len(), 3 * 64 * 48);
    assert_ne!(out.data, base.data);
}

#[test]
fn upscale_keeps_a_uniform_colour() {
    let base = uniform(4, 3, [200, 100, 50]);
    let out = upscale(&base, 3);
    assert_eq!((out.width, out.height), (12, 9));
    for y in 0..9 {
        for x in 0..12 {
            let p = pixel(&out, x, y);
            for c in 0..3 {
                assert!((p[c] as i32 - [200, 100, 50][c]).abs() <= 1);
            }
        }
    }
}

#[test]
fn upscale_of_an_empty_image() {
    let base = Raster::from_pixels(Vec::new(), 0, 0).unwrap();
    let out = upscale(&base, 5);
    assert_eq!((out.width, out.height), (0, 0));
    assert!(out.data.is_empty());
}

#[test]
fn can_upscale_knows_the_limits() {
    assert!(can_upscale(32, 24, 1));
    assert!(can_upscale(32, 24, 99));
    assert!(can_upscale(0, 0, 99));
    assert!(!can_upscale(usize::MAX, 1, 2));
    assert!(!can_upscale(1, usize::MAX, 2));
    assert!(can_upscale(0x80_0000, 1, 1));
    assert!(can_upscale(1, 0x80_0000, 1));
    assert!(can_upscale(0x40_0000, 1, 2));
    assert!(!can_upscale(0x80_0001, 1, 1));
    assert!(!can_upscale(1, 0x80_0001, 1));
    assert!(!can_upscale(0x40_0001, 1, 2));
    assert!(!can_upscale(0xFFFF_FFFF, 1, 1));
}

#[test]
fn crosshair_inverts_eight_pixels() {
    let mut img = uniform(9, 7, [10, 20, 30]);
    draw_crosshair(&mut img, 4, 3);
    let mut found = marked(&img, [10, 20, 30], [245, 235, 225]);
    found.sort();
    let mut expected = vec![(3, 3), (2, 3), (5, 3), (6, 3), (4, 2), (4, 1), (4, 4), (4, 5)];
    expected.sort();
    assert_eq!(found, expected);
    assert_eq!(pixel(&img, 4, 3), [10, 20, 30]);
    assert_eq!((img.width, img.height), (9, 7));
}

#[test]
fn crosshair_in_the_corner_skips_what_is_outside() {
    let mut img = uniform(9, 7, [0, 128, 255]);
    draw_crosshair(&mut img, 0, 0);
    let mut found = marked(&img, [0, 128, 255], [255, 127, 0]);
    found.sort();
    assert_eq!(found, vec![(0, 1), (0, 2), (1, 0), (2, 0)]);

    let mut img = uniform(9, 7, [0, 128, 255]);
    draw_crosshair(&mut img, 8, 6);
    let mut found = marked(&img, [0, 128, 255], [255, 127, 0]);
    found.sort();
    assert_eq!(found, vec![(6, 6), (7, 6), (8, 4), (8, 5)]);
}

#[test]
fn crosshair_never_wraps_to_the_next_row() {
    let mut img = uniform(4, 4, [1, 2, 3]);
    draw_crosshair(&mut img, 3, 1);
    let mut found = marked(&img, [1, 2, 3], [254, 253, 252]);
    found.sort();
    assert_eq!(found, vec![(1, 1), (2, 1), (3, 0), (3, 2), (3, 3)]);
}

#[test]
fn crosshair_just_outside_still_marks_its_arm() {
    let mut img = uniform(5, 5, [9, 9, 9]);
    draw_crosshair(&mut img, 5, 2);
    let mut found = marked(&img, [9, 9, 9], [246, 246, 246]);
    found.sort();
    assert_eq!(found, vec![(3, 2), (4, 2)]);
}

#[test]
fn crosshair_far_outside_changes_nothing() {
    let mut img = uniform(5, 5, [9, 9, 9]);
    draw_crosshair(&mut img, 100, 100);
    assert!(marked(&img, [9, 9, 9], [246, 246, 246]).is_empty());
    draw_crosshair(&mut img, usize::MAX, usize::MAX);
    assert!(marked(&img, [9, 9, 9], [246, 246, 246]).is_empty());
    draw_crosshair(&mut img, usize::MAX, 2);
    assert!(marked(&img, [9, 9, 9], [246, 246, 246]).is_empty());
}

#[test]
fn crosshair_twice_restores_the_image() {
    let mut img = colourful(8, 8);
    let before = img.data.clone();
    draw_crosshair(&mut img, 3, 3);
    assert_ne!(img.data, before);
    draw_crosshair(&mut img, 3, 3);
    assert_eq!(img.data, before);
}

#[test]
fn mark_poi_scales_a_grid_point() {
    let mut img = uniform(12, 12, [10, 20, 30]);
    mark_poi(&mut img, 2, 1, false, 3);
    let mut found = marked(&img, [10, 20, 30], [245, 235, 225]);
    found.sort();
    let mut expected = vec![(5, 3), (4, 3), (7, 3), (8, 3), (6, 2), (6, 1), (6, 4), (6, 5)];
    expected.sort();
    assert_eq!(found, expected);
}

#[test]
fn mark_poi_takes_a_scaled_point_as_it_is() {
    let mut img = uniform(12, 12, [10, 20, 30]);
    mark_poi(&mut img, 6, 3, true, 3);
    let mut found = marked(&img, [10, 20, 30], [245, 235, 225]);
    found.sort();
    let mut expected = vec![(5, 3), (4, 3), (7, 3), (8, 3), (6, 2), (6, 1), (6, 4), (6, 5)];
    expected.sort();
    assert_eq!(found, expected);
}

#[test]
fn mark_poi_beyond_the_machine_range_changes_nothing() {
    let mut img = uniform(12, 12, [10, 20, 30]);
    mark_poi(&mut img, usize::MAX, 3, false, 3);
    assert!(marked(&img, [10, 20, 30], [245, 235, 225]).is_empty());
    mark_poi(&mut img, 3, usize::MAX / 2, false, 3);
    assert!(marked(&img, [10, 20, 30], [245, 235, 225]).is_empty());
}

#[test]
fn encode_jpeg_gives_a_decodable_stream() {
    let img = colourful(32, 24);
    let bytes = encode_jpeg(&img).unwrap();
    assert_ne!(bytes, img.data);
    assert_eq!(&bytes[..2], &[0xFF, 0xD8]);
    assert_eq!(&bytes[bytes.len() - 2..], &[0xFF, 0xD9]);
    let decoded = image::load_from_memory(&bytes).unwrap();
    assert_eq!((decoded.width(), decoded.height()), (32, 24));
}

#[test]
fn encode_jpeg_is_repeatable() {
    let img = colourful(16, 8);
    assert_eq!(encode_jpeg(&img).unwrap(), encode_jpeg(&img).unwrap());
}

#[test]
fn encode_jpeg_takes_the_smallest_and_the_widest_image() {
    let bytes = encode_jpeg(&uniform(1, 1, [9, 8, 7])).unwrap();
    assert_eq!(&bytes[..2], &[0xFF, 0xD8]);
    let bytes = encode_jpeg(&uniform(65535, 1, [9, 8, 7])).unwrap();
    let decoded = image::load_from_memory(&bytes).unwrap();
    assert_eq!((decoded.width(), decoded.height()), (65535, 1));
    assert!(encode_jpeg(&uniform(1, 65535, [9, 8, 7])).is_ok());
}

#[test]
fn encode_jpeg_refuses_an_empty_image() {
    let img = Raster::from_pixels(Vec::new(), 0, 0).unwrap();
    assert_eq!(encode_jpeg(&img), Err(RenderError::Encode));
    let img = Raster::from_pixels(Vec::new(), 0, 4).unwrap();
    assert_eq!(encode_jpeg(&img), Err(RenderError::Encode));
}

#[test]
fn encode_jpeg_refuses_an_oversized_image() {
    let img = uniform(65536, 1, [1, 2, 3]);
    assert_eq!(encode_jpeg(&img), Err(RenderError::Encode));
    let img = uniform(1, 65536, [1, 2, 3]);
    assert_eq!(encode_jpeg(&img), Err(RenderError::Encode));
}
