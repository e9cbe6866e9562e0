//! Animation settings of one line-boil instance, the material extension that
//! carries them to the shader, and the marker that requests the effect.
//!
//! Every setting is a single-precision number held by its IEEE 754 bit pattern,
//! the form in which the uniform buffer stores it: `0x3F80_0000` is one.
//! `f32::to_bits` and `f32::from_bits` convert at the edge.

use vstd::prelude::*;

verus! {

/// Bit pattern of 0.02, the default displacement.
pub const INTENSITY_DEFAULT: u32 = 0x3CA3_D70A;

/// Bit pattern of 0.04, the displacement of the aggressive preset.
pub const INTENSITY_AGGRESSIVE: u32 = 0x3D23_D70A;

/// Bit pattern of 0.008, the displacement of the subtle preset.
pub const INTENSITY_SUBTLE: u32 = 0x3C03_126F;

/// Bit pattern of 6.0, the default number of held frames per second.
pub const FRAME_RATE_DEFAULT: u32 = 0x40C0_0000;

/// Bit pattern of 4.0, the frame rate of the aggressive preset.
pub const FRAME_RATE_AGGRESSIVE: u32 = 0x4080_0000;

/// Bit pattern of 8.0, the frame rate of the subtle preset.
pub const FRAME_RATE_SUBTLE: u32 = 0x4100_0000;

/// Bit pattern of 8.0, the default turbulence scale.
pub const NOISE_FREQUENCY_DEFAULT: u32 = 0x4100_0000;

/// Bit pattern of 12.0, the turbulence scale of the aggressive preset.
pub const NOISE_FREQUENCY_AGGRESSIVE: u32 = 0x4140_0000;

/// Bit pattern of 6.0, the turbulence scale of the subtle preset.
pub const NOISE_FREQUENCY_SUBTLE: u32 = 0x40C0_0000;

/// Bit pattern of 0.0: the seed of every preset, and the time before the first frame.
pub const ZERO: u32 = 0x0000_0000;

/// Settings for the line boil vertex displacement effect.
#[derive(Clone, Copy, Debug, PartialEq, Eq, Structural)]
pub struct LineBoilSettings {
    /// Displacement intensity (how far vertices move).
    /// Higher values give more aggressive jitter.
    pub intensity: u32,
    /// Frames per second for time quantization.
    /// Lower values give more "held" frames, the classic animation look.
    pub frame_rate: u32,
    /// Noise frequency: the scale of the turbulence.
    /// Higher values give more chaotic per-vertex variation.
    pub noise_frequency: u32,
    /// Seed offset that decorrelates the noise of different instances.
    pub seed: u32,
    /// Elapsed time, stamped once per frame. Not meant to be set by hand.
    pub time: u32,
}

impl LineBoilSettings {
    /// The settings a marker has when nothing was chosen.
    pub open spec fn standard() -> LineBoilSettings {
        LineBoilSettings {
            intensity: INTENSITY_DEFAULT,
            frame_rate: FRAME_RATE_DEFAULT,
            noise_frequency: NOISE_FREQUENCY_DEFAULT,
            seed: ZERO,
            time: ZERO,
        }
    }

    /// These settings with `time` in place of their time.
    pub open spec fn at_time(self, time: u32) -> LineBoilSettings {
        LineBoilSettings { time, ..self }
    }

    /// Whether two settings agree on everything but the time.
    pub open spec fn same_look(self, other: LineBoilSettings) -> bool {
        &&& self.intensity == other.intensity
        &&& self.frame_rate == other.frame_rate
        &&& self.noise_frequency == other.noise_frequency
        &&& self.seed == other.seed
    }
}

impl LineBoilSettings {
    /// These settings at the time `time`.
    pub fn with_time(self, time: u32) -> (r: Self)
        ensures
            r == self.at_time(time),
    {
        let mut out = self;
        out.time = time;
        out
    }
}

impl Default for LineBoilSettings {
    fn default() -> (r: Self)
        ensures
            r == LineBoilSettings::standard(),
    {
        LineBoilSettings {
            intensity: INTENSITY_DEFAULT,
            frame_rate: FRAME_RATE_DEFAULT,
            noise_frequency: NOISE_FREQUENCY_DEFAULT,
            seed: ZERO,
            time: ZERO,
        }
    }
}

/// The line boil material extension: what a composed material adds to its base.
#[derive(Clone, Copy, Debug, PartialEq, Eq, Structural)]
pub struct LineBoilMaterial {
    pub settings: LineBoilSettings,
}

impl Default for LineBoilMaterial {
    fn default() -> (r: Self)
        ensures
            r.settings == LineBoilSettings::standard(),
    {
        LineBoilMaterial { settings: LineBoilSettings::default() }
    }
}

/// Marker that applies the line boil effect to a node and the meshes beneath it.
#[derive(Clone, Copy, Debug, PartialEq, Eq, Structural)]
pub struct LineBoil {
    pub settings: LineBoilSettings,
}

impl Default for LineBoil {
    fn default() -> (r: Self)
        ensures
            r.settings == LineBoilSettings::standard(),
    {
        LineBoil { settings: LineBoilSettings::default() }
    }
}

impl LineBoil {
    /// Create a new LineBoil with default settings.
    pub fn new() -> (r: Self)
        ensures
            r.settings == LineBoilSettings::standard(),
    {
        Self::default()
    }

    /// Set the displacement intensity.
    pub fn with_intensity(self, intensity: u32) -> (r: Self)
        ensures
            r.settings == (LineBoilSettings { intensity, ..self.settings }),
    {
        let mut out = self;
        out.settings.intensity = intensity;
        out
    }

    /// Set the frame rate for time quantization.
    pub fn with_frame_rate(self, fps: u32) -> (r: Self)
        ensures
            r.settings == (LineBoilSettings { frame_rate: fps, ..self.settings }),
    {
        let mut out = self;
        out.settings.frame_rate = fps;
        out
    }

    /// Set the noise frequency.
    pub fn with_noise_frequency(self, freq: u32) -> (r: Self)
        ensures
            r.settings == (LineBoilSettings { noise_frequency: freq, ..self.settings }),
    {
        let mut out = self;
        out.settings.noise_frequency = freq;
        out
    }

    /// Set the noise seed for variation.
    pub fn with_seed(self, seed: u32) -> (r: Self)
        ensures
            r.settings == (LineBoilSettings { seed, ..self.settings }),
    {
        let mut out = self;
        out.settings.seed = seed;
        out
    }

    /// Create with the aggressive jitter preset:
    /// intensity 0.04, frame rate 4.0, noise frequency 12.0.
    pub fn aggressive() -> (r: Self)
        ensures
            r.settings == (LineBoilSettings {
                intensity: INTENSITY_AGGRESSIVE,
                frame_rate: FRAME_RATE_AGGRESSIVE,
                noise_frequency: NOISE_FREQUENCY_AGGRESSIVE,
                seed: ZERO,
                time: ZERO,
            }),
    {
        LineBoil {
            settings: LineBoilSettings {
                intensity: INTENSITY_AGGRESSIVE,
                frame_rate: FRAME_RATE_AGGRESSIVE,
                noise_frequency: NOISE_FREQUENCY_AGGRESSIVE,
                seed: ZERO,
                time: ZERO,
            },
        }
    }

    /// Create with the subtle boil preset:
    /// intensity 0.008, frame rate 8.0, noise frequency 6.0.
    pub fn subtle() -> (r: Self)
        ensures
            r.settings == (LineBoilSettings {
                intensity: INTENSITY_SUBTLE,
                frame_rate: FRAME_RATE_SUBTLE,
                noise_frequency: NOISE_FREQUENCY_SUBTLE,
                seed: ZERO,
                time: ZERO,
            }),
    {
        LineBoil {
            settings: LineBoilSettings {
                intensity: INTENSITY_SUBTLE,
                frame_rate: FRAME_RATE_SUBTLE,
                noise_frequency: NOISE_FREQUENCY_SUBTLE,
                seed: ZERO,
                time: ZERO,
            },
        }
    }
}

} // verus!
