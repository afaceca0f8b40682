use vstd::prelude::*;
use crate::wire::str_eq;

verus! {

/// Errors reported by the audio processing stage.
#[derive(Clone, Copy, Debug, PartialEq, Eq)]
pub enum AudioProcessingError {
    ProcessingFailed,
    NotInitialized,
    InvalidParameter,
}

/// Acoustic echo cancellation aggressiveness.
#[derive(Clone, Copy, Debug, PartialEq, Eq)]
pub enum AecMode {
    Disabled,
    Mild,
    Moderate,
    Aggressive,
    VeryAggressive,
}

impl AecMode {
    /// The mode selected by a numeric level: 0 to 3 pick the first four
    /// modes in order, anything larger picks the most aggressive one.
    pub open spec fn spec_from_level(level: u32) -> AecMode {
        if level == 0 {
            AecMode::Disabled
        } else if level == 1 {
            AecMode::Mild
        } else if level == 2 {
            AecMode::Moderate
        } else if level == 3 {
            AecMode::Aggressive
        } else {
            AecMode::VeryAggressive
        }
    }

    pub fn from_level(level: u32) -> (mode: AecMode)
        ensures
            mode == Self::spec_from_level(level),
    {
        match level {
            0 => AecMode::Disabled,
            1 => AecMode::Mild,
            2 => AecMode::Moderate,
            3 => AecMode::Aggressive,
            _ => AecMode::VeryAggressive,
        }
    }
}

/// Noise suppression strength.
#[derive(Clone, Copy, Debug, PartialEq, Eq)]
pub enum NoiseSuppressionLevel {
    Disabled,
    Low,
    Moderate,
    High,
}

impl NoiseSuppressionLevel {
    /// Levels 0 to 2 pick the first three strengths in order; anything
    /// larger picks the strongest.
    pub open spec fn spec_from_level(level: u32) -> NoiseSuppressionLevel {
        if level == 0 {
            NoiseSuppressionLevel::Disabled
        } else if level == 1 {
            NoiseSuppressionLevel::Low
        } else if level == 2 {
            NoiseSuppressionLevel::Moderate
        } else {
            NoiseSuppressionLevel::High
        }
    }

    pub fn from_level(level: u32) -> (l: NoiseSuppressionLevel)
        ensures
            l == Self::spec_from_level(level),
    {
        match level {
            0 => NoiseSuppressionLevel::Disabled,
            1 => NoiseSuppressionLevel::Low,
            2 => NoiseSuppressionLevel::Moderate,
            _ => NoiseSuppressionLevel::High,
        }
    }
}

/// Automatic gain control mode.
#[derive(Clone, Copy, Debug, PartialEq, Eq)]
pub enum AgcMode {
    Disabled,
    AdaptiveAnalog,
    AdaptiveDigital,
    FixedDigital,
}

impl AgcMode {
    /// The mode named by an already lowercased name: hyphen and underscore
    /// spellings of the three active modes; anything else disables.
    pub open spec fn spec_from_lower(s: Seq<char>) -> AgcMode {
        if s == "adaptive-analog"@ || s == "adaptive_analog"@ {
            AgcMode::AdaptiveAnalog
        } else if s == "adaptive-digital"@ || s == "adaptive_digital"@ {
            AgcMode::AdaptiveDigital
        } else if s == "fixed-digital"@ || s == "fixed_digital"@ {
            AgcMode::FixedDigital
        } else {
            AgcMode::Disabled
        }
    }

    /// The mode named by `s`, compared without regard to case.
    pub fn from_str(s: &str) -> (m: AgcMode)
        ensures
            m == Self::spec_from_lower(crate::text::lowercase(s@)),
    {
        let lower = crate::text::to_lowercase(s);
        Self::from_lower(lower.as_str())
    }

    /// The mode named by a lowercased name.
    pub fn from_lower(s: &str) -> (m: AgcMode)
        ensures
            m == Self::spec_from_lower(s@),
    {
        if str_eq(s, "adaptive-analog") || str_eq(s, "adaptive_analog") {
            AgcMode::AdaptiveAnalog
        } else if str_eq(s, "adaptive-digital") || str_eq(s, "adaptive_digital") {
            AgcMode::AdaptiveDigital
        } else if str_eq(s, "fixed-digital") || str_eq(s, "fixed_digital") {
            AgcMode::FixedDigital
        } else {
            AgcMode::Disabled
        }
    }
}

/// Settings of the audio processing stage.
#[derive(Clone, Debug)]
pub struct AudioProcessingConfig {
    pub aec_enabled: bool,
    pub aec_mode: AecMode,
    pub aec_suppression_level: u32,
    pub noise_suppression_enabled: bool,
    pub noise_suppression_level: NoiseSuppressionLevel,
    pub agc_enabled: bool,
    pub agc_mode: AgcMode,
    pub agc_target_level: i32,
    pub agc_compression_gain: i32,
    pub high_pass_filter_enabled: bool,
    pub voice_detection_enabled: bool,
    pub transient_suppression_enabled: bool,
    pub echo_controllers_enabled: bool,
}

impl Default for AudioProcessingConfig {
    fn default() -> (c: Self)
        ensures
            c == (AudioProcessingConfig {
                aec_enabled: true,
                aec_mode: AecMode::Moderate,
                aec_suppression_level: 2,
                noise_suppression_enabled: true,
                noise_suppression_level: NoiseSuppressionLevel::Moderate,
                agc_enabled: true,
                agc_mode: AgcMode::AdaptiveDigital,
                agc_target_level: 3,
                agc_compression_gain: 9,
                high_pass_filter_enabled: true,
                voice_detection_enabled: false,
                transient_suppression_enabled: false,
                echo_controllers_enabled: true,
            }),
    {
        AudioProcessingConfig {
            aec_enabled: true,
            aec_mode: AecMode::Moderate,
            aec_suppression_level: 2,
            noise_suppression_enabled: true,
            noise_suppression_level: NoiseSuppressionLevel::Moderate,
            agc_enabled: true,
            agc_mode: AgcMode::AdaptiveDigital,
            agc_target_level: 3,
            agc_compression_gain: 9,
            high_pass_filter_enabled: true,
            voice_detection_enabled: false,
            transient_suppression_enabled: false,
            echo_controllers_enabled: true,
        }
    }
}

} // verus!
