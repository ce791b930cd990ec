use tracer::ppm::{encode_image, header, pixel_line, PpmError, Rgb8};
use tracer::settings::RenderSettings;

#[test]
fn header_text() {
    assert_eq!(header(200, 100), b"P3\n200 100\n255\n".to_vec());
    assert_eq!(header(800, 450), b"P3\n800 450\n255\n".to_vec());
}

#[test]
fn pixel_line_text() {
    assert_eq!(pixel_line(Rgb8 { r: 255, g: 0, b: 7 }), b"255 0 7\n".to_vec());
    assert_eq!(pixel_line(Rgb8 { r: 10, g: 99, b: 100 }), b"10 99 100\n".to_vec());
}

#[test]
fn whole_image() {
    let s = RenderSettings::new(2, 2, 1, 1).unwrap();
    let pixels = vec![
        Rgb8 { r: 1, g: 2, b: 3 },
        Rgb8 { r: 40, g: 50, b: 60 },
        Rgb8 { r: 255, g: 255, b: 255 },
        Rgb8 { r: 0, g: 0, b: 0 },
    ];
    let out = encode_image(&s, &pixels).unwrap();
    assert_eq!(
        String::from_utf8(out).unwrap(),
        "P3\n2 2\n255\n1 2 3\n40 50 60\n255 255 255\n0 0 0\n"
    );
}

#[test]
fn wrong_pixel_count() {
    let s = RenderSettings::new(2, 2, 1, 1).unwrap();
    let pixels = vec![Rgb8 { r: 1, g: 2, b: 3 }; 3];
    assert_eq!(encode_image(&s, &pixels), Err(PpmError::SizeMismatch));
    let pixels = vec![Rgb8 { r: 1, g: 2, b: 3 }; 5];
    assert_eq!(encode_image(&s, &pixels), Err(PpmError::SizeMismatch));
}
