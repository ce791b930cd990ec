use tracer::settings::{image_height, RenderSettings, SettingsError};

#[test]
fn accepts_ordinary_settings() {
    let s = RenderSettings::new(800, 450, 100, 50).unwrap();
    assert_eq!(s.width, 800);
    assert_eq!(s.height, 450);
    assert_eq!(s.samples_per_pixel, 100);
    assert_eq!(s.max_depth, 50);
    assert_eq!(s.pixel_count(), 360_000);
}

#[test]
fn rejects_small_images() {
    assert_eq!(RenderSettings::new(1, 100, 1, 1), Err(SettingsError::ImageTooSmall));
    assert_eq!(RenderSettings::new(100, 0, 1, 1), Err(SettingsError::ImageTooSmall));
    assert_eq!(RenderSettings::new(0, 0, 0, 1), Err(SettingsError::ImageTooSmall));
    assert!(RenderSettings::new(2, 2, 1, 0).is_ok());
}

#[test]
fn rejects_zero_samples() {
    assert_eq!(RenderSettings::new(200, 100, 0, 1), Err(SettingsError::NoSamples));
}

#[test]
fn rejects_pixel_count_overflow() {
    assert_eq!(
        RenderSettings::new(usize::MAX / 2 + 1, 2, 1, 1),
        Err(SettingsError::TooManyPixels)
    );
    assert!(RenderSettings::new(usize::MAX / 2, 2, 1, 1).is_ok());
}

#[test]
fn height_from_sixteen_by_nine() {
    assert_eq!(image_height(800, 16, 9), Ok(450));
    assert_eq!(image_height(400, 16, 9), Ok(225));
    assert_eq!(image_height(100, 16, 9), Ok(56));
    assert_eq!(image_height(200, 2, 1), Ok(100));
}

#[test]
fn malformed_aspect_ratio() {
    assert_eq!(image_height(800, 0, 9), Err(SettingsError::MalformedAspectRatio));
    assert_eq!(image_height(800, 16, 0), Err(SettingsError::MalformedAspectRatio));
    assert_eq!(
        RenderSettings::from_aspect(800, 0, 1, 10, 10),
        Err(SettingsError::MalformedAspectRatio)
    );
}

#[test]
fn height_overflow() {
    assert_eq!(image_height(usize::MAX, 1, 2), Err(SettingsError::TooManyPixels));
}

#[test]
fn settings_from_aspect() {
    let s = RenderSettings::from_aspect(800, 16, 9, 100, 50).unwrap();
    assert_eq!(s, RenderSettings { width: 800, height: 450, samples_per_pixel: 100, max_depth: 50 });
    assert_eq!(RenderSettings::from_aspect(3, 16, 9, 1, 1), Err(SettingsError::ImageTooSmall));
    assert_eq!(RenderSettings::from_aspect(200, 2, 1, 0, 1), Err(SettingsError::NoSamples));
}
