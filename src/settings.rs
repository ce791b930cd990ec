use vstd::prelude::*;

verus! {

/// Why a render configuration was refused.
#[derive(Clone, Copy, Debug, PartialEq, Eq, Structural)]
pub enum SettingsError {
    /// Width or height below two pixels: screen coordinates are normalized by `size - 1`.
    ImageTooSmall,
    /// Width times height does not fit in a `usize`.
    TooManyPixels,
    /// Zero samples per pixel.
    NoSamples,
    /// An aspect ratio with a zero term.
    MalformedAspectRatio,
}

/// The integer part of a render configuration: image size, samples per pixel
/// and the cap on the number of bounces of one light path.
#[derive(Clone, Copy, Debug, PartialEq, Eq, Structural)]
pub struct RenderSettings {
    pub width: usize,
    pub height: usize,
    pub samples_per_pixel: u32,
    pub max_depth: u32,
}

/// The error that `RenderSettings::new` reports for these values, if any.
pub open spec fn settings_error(
    width: int,
    height: int,
    samples_per_pixel: int,
) -> Option<SettingsError> {
    if width < 2 || height < 2 {
        Some(SettingsError::ImageTooSmall)
    } else if width * height > usize::MAX {
        Some(SettingsError::TooManyPixels)
    } else if samples_per_pixel < 1 {
        Some(SettingsError::NoSamples)
    } else {
        None
    }
}

impl RenderSettings {
    /// Settings that rendering accepts.
    pub open spec fn wf(&self) -> bool {
        settings_error(self.width as int, self.height as int, self.samples_per_pixel as int)
            is None
    }

    /// Number of pixels in the image.
    pub open spec fn pixels(&self) -> nat {
        (self.width * self.height) as nat
    }

    /// Checks and gathers a configuration.
    pub fn new(width: usize, height: usize, samples_per_pixel: u32, max_depth: u32) -> (r: Result<
        RenderSettings,
        SettingsError,
    >)
        ensures
            match settings_error(width as int, height as int, samples_per_pixel as int) {
                Some(e) => r == Err::<RenderSettings, SettingsError>(e),
                None => r == Ok::<RenderSettings, SettingsError>(
                    RenderSettings { width, height, samples_per_pixel, max_depth },
                ),
            },
            r is Ok ==> r->Ok_0.wf(),
    {
        if width < 2 || height < 2 {
            return Err(SettingsError::ImageTooSmall);
        }
        if width > usize::MAX / height {
            assert(width * height > usize::MAX) by (nonlinear_arith)
                requires
                    width > usize::MAX / height,
                    height >= 2,
            ;
            return Err(SettingsError::TooManyPixels);
        }
        assert(width * height <= usize::MAX) by (nonlinear_arith)
            requires
                width <= usize::MAX / height,
                height >= 2,
        ;
        if samples_per_pixel < 1 {
            return Err(SettingsError::NoSamples);
        }
        Ok(RenderSettings { width, height, samples_per_pixel, max_depth })
    }

    /// Number of pixels in the image.
    pub fn pixel_count(&self) -> (r: usize)
        requires
            self.wf(),
        ensures
            r == self.pixels(),
    {
        self.width * self.height
    }
}

/// Image height for `width` at an aspect ratio of `aspect_width : aspect_height`
/// (width over height), rounded down.
pub open spec fn height_for(width: int, aspect_width: int, aspect_height: int) -> int {
    width * aspect_height / aspect_width
}

/// Height of an image `width` pixels wide whose aspect ratio (width over height)
/// is `aspect_width : aspect_height`, rounded down to whole pixels.
pub fn image_height(width: usize, aspect_width: u32, aspect_height: u32) -> (r: Result<
    usize,
    SettingsError,
>)
    ensures
        aspect_width == 0 || aspect_height == 0 ==> r == Err::<usize, SettingsError>(
            SettingsError::MalformedAspectRatio,
        ),
        aspect_width > 0 && aspect_height > 0 && height_for(
            width as int,
            aspect_width as int,
            aspect_height as int,
        ) > usize::MAX ==> r == Err::<usize, SettingsError>(SettingsError::TooManyPixels),
        aspect_width > 0 && aspect_height > 0 && height_for(
            width as int,
            aspect_width as int,
            aspect_height as int,
        ) <= usize::MAX ==> r == Ok::<usize, SettingsError>(
            height_for(width as int, aspect_width as int, aspect_height as int) as usize,
        ),
{
    if aspect_width == 0 || aspect_height == 0 {
        return Err(SettingsError::MalformedAspectRatio);
    }
    assert((width as u128) * (aspect_height as u128) <= u128::MAX) by (nonlinear_arith)
        requires
            width <= usize::MAX,
            aspect_height <= u32::MAX,
            usize::MAX <= u64::MAX,
    ;
    let scaled: u128 = (width as u128) * (aspect_height as u128);
    let h: u128 = scaled / (aspect_width as u128);
    if h > usize::MAX as u128 {
        return Err(SettingsError::TooManyPixels);
    }
    Ok(h as usize)
}

impl RenderSettings {
    /// Checks and gathers a configuration whose height follows from the width and
    /// an aspect ratio `aspect_width : aspect_height` (width over height).
    pub fn from_aspect(
        width: usize,
        aspect_width: u32,
        aspect_height: u32,
        samples_per_pixel: u32,
        max_depth: u32,
    ) -> (r: Result<RenderSettings, SettingsError>)
        ensures
            aspect_width == 0 || aspect_height == 0 ==> r == Err::<RenderSettings, SettingsError>(
                SettingsError::MalformedAspectRatio,
            ),
            aspect_width > 0 && aspect_height > 0 ==> {
                let h = height_for(width as int, aspect_width as int, aspect_height as int);
                if h > usize::MAX {
                    r == Err::<RenderSettings, SettingsError>(SettingsError::TooManyPixels)
                } else {
                    match settings_error(width as int, h, samples_per_pixel as int) {
                        Some(e) => r == Err::<RenderSettings, SettingsError>(e),
                        None => r == Ok::<RenderSettings, SettingsError>(
                            RenderSettings {
                                width,
                                height: h as usize,
                                samples_per_pixel,
                                max_depth,
                            },
                        ),
                    }
                }
            },
            r is Ok ==> r->Ok_0.wf(),
    {
        match image_height(width, aspect_width, aspect_height) {
            Err(e) => Err(e),
            Ok(height) => RenderSettings::new(width, height, samples_per_pixel, max_depth),
        }
    }
}

} // verus!
