use ferrum::camera::{
    BrightSpot, CameraError, CameraSensor, DEFAULT_BORDER_PERCENT, IMAGE_HEIGHT, IMAGE_WIDTH,
};
use image::{GrayImage, ImageFormat, Luma};
use std::io::Cursor;

fn jpeg_of(img: &GrayImage) -> Vec<u8> {
    let mut out = Cursor::new(Vec::new());
    img.write_to(&mut out, ImageFormat::Jpeg).expect("encode");
    out.into_inner()
}

/// Straightforward scan of a decoded frame, as the firmware does it.
fn scan(w: u32, h: u32, px: &[u8], percent: u32) -> (u32, u32) {
    let bx = (w * percent / 100).max(1);
    let by = (h * percent / 100).max(1);
    let (mut best, mut mx, mut my) = (0u8, 0u32, 0u32);
    for y in by..h - by {
        for x in bx..w - bx {
            let v = px[(y * w + x) as usize];
            if v > best {
                best = v;
                mx = x;
                my = y;
            }
        }
    }
    (mx, my)
}

#[test]
fn defaults() {
    assert_eq!(CameraSensor::new().border_percent, DEFAULT_BORDER_PERCENT);
    assert_eq!(CameraSensor::default(), CameraSensor::new());
    assert_eq!(DEFAULT_BORDER_PERCENT, 10);
    assert_eq!((IMAGE_WIDTH, IMAGE_HEIGHT), (2304, 1296));
}

#[test]
fn border_is_a_percentage_but_at_least_one() {
    let c = CameraSensor::new();
    assert_eq!(c.border(2304), 230);
    assert_eq!(c.border(5), 1);
    assert_eq!(c.border(0), 1);
    assert!(c.border_ok(2304, 1296));
    assert!(!c.border_ok(0, 10));
    assert!(c.border_ok(1, 1));
    assert!(!CameraSensor { border_percent: 200 }.border_ok(100, 100));
    assert!(!CameraSensor { border_percent: 10 }.border_ok(u32::MAX, 10));
}

#[test]
fn brightest_pixel_is_the_first_maximum_inside_the_window() {
    let c = CameraSensor::new();
    let (w, h) = (20u32, 10u32);
    let mut px = vec![0u8; (w * h) as usize];
    // brightest pixel on the border is ignored
    px[0] = 255;
    // two equal maxima inside: the first in row-major order wins
    px[(3 * w + 15) as usize] = 200;
    px[(5 * w + 4) as usize] = 200;
    px[(6 * w + 6) as usize] = 150;
    assert_eq!(c.brightest_pixel(w, h, &px), (15, 3));
}

#[test]
fn black_window_gives_the_origin() {
    let c = CameraSensor::new();
    let px = vec![0u8; 100];
    assert_eq!(c.brightest_pixel(10, 10, &px), (0, 0));
}

#[test]
fn analyze_decodes_and_scans_a_jpeg() {
    let mut img = GrayImage::from_pixel(64, 48, Luma([10]));
    for y in 30..38 {
        for x in 40..48 {
            img.put_pixel(x, y, Luma([250]));
        }
    }
    let bytes = jpeg_of(&img);
    let decoded = image::load_from_memory_with_format(&bytes, ImageFormat::Jpeg)
        .expect("decode")
        .to_luma8();
    let (ex, ey) = scan(64, 48, decoded.as_raw(), 10);
    let spot = CameraSensor::new().analyze_image(&bytes).expect("spot");
    assert_eq!(spot, BrightSpot { x: ex, y: ey, width: 64, height: 48 });
    assert!((38..50).contains(&spot.x) && (28..40).contains(&spot.y));
}

#[test]
fn analyze_rejects_non_jpeg_bytes() {
    match CameraSensor::new().analyze_image(b"not a jpeg at all") {
        Err(CameraError::Decode(msg)) => assert!(!msg.is_empty()),
        other => panic!("unexpected {:?}", other),
    }
}

#[test]
fn analyze_rejects_an_impossible_border() {
    let img = GrayImage::from_pixel(16, 16, Luma([80]));
    let bytes = jpeg_of(&img);
    // a border wider than the frame cannot be excluded
    let c = CameraSensor { border_percent: 200 };
    assert_eq!(c.analyze_image(&bytes), Err(CameraError::Geometry));
    // borders that leave an empty window are fine: nothing is searched
    let c = CameraSensor { border_percent: 60 };
    assert_eq!(c.analyze_image(&bytes), Ok(BrightSpot { x: 0, y: 0, width: 16, height: 16 }));
}

#[test]
fn analyze_luma_scans_a_decoded_frame() {
    let c = CameraSensor::new();
    let (w, h) = (20u32, 10u32);
    let mut px = vec![0u8; (w * h) as usize];
    px[(4 * w + 7) as usize] = 90;
    assert_eq!(c.analyze_luma(w, h, &px), Ok(BrightSpot { x: 7, y: 4, width: 20, height: 10 }));
    let big = CameraSensor { border_percent: 200 };
    assert_eq!(big.analyze_luma(w, h, &px), Err(CameraError::Geometry));
}

#[test]
fn analyze_decoded_maps_each_decoder_result() {
    let c = CameraSensor::new();
    assert_eq!(
        c.analyze_decoded(Err("bad marker".to_string())),
        Err(CameraError::Decode("bad marker".to_string()))
    );
    let mut px = vec![0u8; 200];
    px[5 * 20 + 3] = 40;
    assert_eq!(
        c.analyze_decoded(Ok((20, 10, px.clone()))),
        Ok(BrightSpot { x: 3, y: 5, width: 20, height: 10 })
    );
    assert_eq!(
        CameraSensor { border_percent: 200 }.analyze_decoded(Ok((20, 10, px))),
        Err(CameraError::Geometry)
    );
}

#[test]
fn bytes_without_the_start_marker_never_decode() {
    let c = CameraSensor::new();
    for bytes in [&b""[..], &b"\xFF"[..], &b"\xD8\xFF\xE0"[..], &b"\x89PNG\r\n"[..]] {
        assert!(matches!(c.analyze_image(bytes), Err(CameraError::Decode(_))));
    }
}
