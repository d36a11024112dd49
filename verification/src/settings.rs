//! What a render is configured by.

use vstd::prelude::*;
use crate::integrator::MAX_DEPTH;

verus! {

/// Why a set of numbers is no configuration.
#[derive(Clone, Copy, Debug, PartialEq, Eq, Structural)]
pub enum SettingsError {
    ZeroWidth,
    ZeroHeight,
    ZeroSamples,
    ZeroDepth,
}

/// The size of the image, the samples taken of each pixel, and the depth
/// limit of a path. Each is a positive number; they do not constrain one
/// another.
#[derive(Clone, Copy, Debug, PartialEq, Eq, Structural)]
pub struct Settings {
    pub width: u32,
    pub height: u32,
    pub samples: u32,
    pub max_depth: u32,
}

impl Settings {
    /// Every number is positive.
    pub open spec fn wf(self) -> bool {
        self.width > 0 && self.height > 0 && self.samples > 0 && self.max_depth > 0
    }

    /// The first of the four numbers that is zero, named by its error.
    pub open spec fn first_zero(
        width: u32,
        height: u32,
        samples: u32,
        max_depth: u32,
    ) -> Option<SettingsError> {
        if width == 0 {
            Some(SettingsError::ZeroWidth)
        } else if height == 0 {
            Some(SettingsError::ZeroHeight)
        } else if samples == 0 {
            Some(SettingsError::ZeroSamples)
        } else if max_depth == 0 {
            Some(SettingsError::ZeroDepth)
        } else {
            None
        }
    }

    /// Accepts four positive numbers, and refuses any others by the first
    /// that is zero.
    pub fn new(
        width: u32,
        height: u32,
        samples: u32,
        max_depth: u32,
    ) -> (made: Result<Settings, SettingsError>)
        ensures
            match made {
                Ok(s) => {
                    &&& Self::first_zero(width, height, samples, max_depth) is None
                    &&& s == (Settings { width, height, samples, max_depth })
                    &&& s.wf()
                },
                Err(e) => Self::first_zero(width, height, samples, max_depth) == Some(e),
            },
    {
        if width == 0 {
            Err(SettingsError::ZeroWidth)
        } else if height == 0 {
            Err(SettingsError::ZeroHeight)
        } else if samples == 0 {
            Err(SettingsError::ZeroSamples)
        } else if max_depth == 0 {
            Err(SettingsError::ZeroDepth)
        } else {
            Ok(Settings { width, height, samples, max_depth })
        }
    }

    /// An image of 200 by 100 pixels, 100 samples of each, and the usual
    /// depth limit.
    pub fn standard() -> (s: Settings)
        ensures
            s == (Settings { width: 200, height: 100, samples: 100, max_depth: MAX_DEPTH }),
            s.wf(),
    {
        Settings { width: 200, height: 100, samples: 100, max_depth: MAX_DEPTH }
    }
}

} // verus!
