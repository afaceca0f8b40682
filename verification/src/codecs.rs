//! Codec identifiers, encoder and decoder settings, and frame containers.
use vstd::prelude::*;
use crate::wire::str_eq;
use crate::text::{ascii_lower, is_ascii_text, lowercase, to_lowercase};

verus! {

#[derive(Clone, Copy, Debug, PartialEq, Eq)]
pub enum CodecError {
    EncodeError,
    DecodeError,
    UnsupportedCodec,
    InvalidParameter,
    NotInitialized,
}

#[derive(Clone, Copy, Debug, PartialEq, Eq, Hash)]
pub enum CodecType {
    Opus,
    G722,
    Pcmu,
    Pcma,
    VP8,
    VP9,
    H264,
    AV1,
    Unknown,
}

impl CodecType {
    /// The codec that a lowercased MIME type or bare codec name denotes.
    pub open spec fn spec_from_lower(s: Seq<char>) -> CodecType {
        if s == "audio/opus"@ || s == "opus"@ {
            CodecType::Opus
        } else if s == "audio/g722"@ || s == "g722"@ {
            CodecType::G722
        } else if s == "audio/pcmu"@ || s == "pcmu"@ || s == "audio/PCMU"@ {
            CodecType::Pcmu
        } else if s == "audio/pcma"@ || s == "pcma"@ || s == "audio/PCMA"@ {
            CodecType::Pcma
        } else if s == "video/vp8"@ || s == "vp8"@ {
            CodecType::VP8
        } else if s == "video/vp9"@ || s == "vp9"@ {
            CodecType::VP9
        } else if s == "video/h264"@ || s == "h264"@ || s == "video/H264"@ {
            CodecType::H264
        } else if s == "video/av1"@ || s == "av1"@ {
            CodecType::AV1
        } else {
            CodecType::Unknown
        }
    }

    /// The codec named by a MIME type or codec name, regardless of case.
    pub fn from_mime(mime: &str) -> (c: CodecType)
        ensures
            c == Self::spec_from_lower(lowercase(mime@)),
            is_ascii_text(mime@) ==> c == Self::spec_from_lower(ascii_lower(mime@)),
    {
        let lower = to_lowercase(mime);
        Self::from_lower(lower.as_str())
    }

    /// The codec named by a lowercased MIME type or codec name.
    pub fn from_lower(s: &str) -> (c: CodecType)
        ensures
            c == Self::spec_from_lower(s@),
    {
        if str_eq(s, "audio/opus") || str_eq(s, "opus") {
            CodecType::Opus
        } else if str_eq(s, "audio/g722") || str_eq(s, "g722") {
            CodecType::G722
        } else if str_eq(s, "audio/pcmu") || str_eq(s, "pcmu") || str_eq(s, "audio/PCMU") {
            CodecType::Pcmu
        } else if str_eq(s, "audio/pcma") || str_eq(s, "pcma") || str_eq(s, "audio/PCMA") {
            CodecType::Pcma
        } else if str_eq(s, "video/vp8") || str_eq(s, "vp8") {
            CodecType::VP8
        } else if str_eq(s, "video/vp9") || str_eq(s, "vp9") {
            CodecType::VP9
        } else if str_eq(s, "video/h264") || str_eq(s, "h264") || str_eq(s, "video/H264") {
            CodecType::H264
        } else if str_eq(s, "video/av1") || str_eq(s, "av1") {
            CodecType::AV1
        } else {
            CodecType::Unknown
        }
    }

    pub open spec fn spec_as_str(self) -> Seq<char> {
        match self {
            CodecType::Opus => "opus"@,
            CodecType::G722 => "G722"@,
            CodecType::Pcmu => "PCMU"@,
            CodecType::Pcma => "PCMA"@,
            CodecType::VP8 => "VP8"@,
            CodecType::VP9 => "VP9"@,
            CodecType::H264 => "H264"@,
            CodecType::AV1 => "AV1"@,
            CodecType::Unknown => "unknown"@,
        }
    }

    /// The codec's name as used in SDP.
    pub fn as_str(&self) -> (s: &'static str)
        ensures
            s@ == self.spec_as_str(),
    {
        match self {
            CodecType::Opus => "opus",
            CodecType::G722 => "G722",
            CodecType::Pcmu => "PCMU",
            CodecType::Pcma => "PCMA",
            CodecType::VP8 => "VP8",
            CodecType::VP9 => "VP9",
            CodecType::H264 => "H264",
            CodecType::AV1 => "AV1",
            CodecType::Unknown => "unknown",
        }
    }

    pub open spec fn spec_is_audio(self) -> bool {
        self == CodecType::Opus || self == CodecType::G722 || self == CodecType::Pcmu || self == CodecType::Pcma
    }

    pub open spec fn spec_is_video(self) -> bool {
        self == CodecType::VP8 || self == CodecType::VP9 || self == CodecType::H264 || self == CodecType::AV1
    }

    pub fn is_audio(&self) -> (b: bool)
        ensures
            b == self.spec_is_audio(),
    {
        match self {
            CodecType::Opus | CodecType::G722 | CodecType::Pcmu | CodecType::Pcma => true,
            _ => false,
        }
    }

    pub fn is_video(&self) -> (b: bool)
        ensures
            b == self.spec_is_video(),
    {
        match self {
            CodecType::VP8 | CodecType::VP9 | CodecType::H264 | CodecType::AV1 => true,
            _ => false,
        }
    }
}

/// Every codec's name is ASCII, and its ASCII lowercase names the codec
/// again, so `from_mime` reads back what `as_str` gives.
pub proof fn codec_name_roundtrip_law(c: CodecType)
    ensures
        is_ascii_text(c.spec_as_str()),
        CodecType::spec_from_lower(ascii_lower(c.spec_as_str())) == c,
{
    reveal_strlit("opus");
    reveal_strlit("G722");
    reveal_strlit("PCMU");
    reveal_strlit("PCMA");
    reveal_strlit("VP8");
    reveal_strlit("VP9");
    reveal_strlit("H264");
    reveal_strlit("AV1");
    reveal_strlit("unknown");
    reveal_strlit("audio/opus");
    reveal_strlit("g722");
    reveal_strlit("audio/g722");
    reveal_strlit("pcmu");
    reveal_strlit("audio/pcmu");
    reveal_strlit("audio/PCMU");
    reveal_strlit("pcma");
    reveal_strlit("audio/pcma");
    reveal_strlit("audio/PCMA");
    reveal_strlit("vp8");
    reveal_strlit("video/vp8");
    reveal_strlit("vp9");
    reveal_strlit("video/vp9");
    reveal_strlit("h264");
    reveal_strlit("video/h264");
    reveal_strlit("video/H264");
    reveal_strlit("av1");
    reveal_strlit("video/av1");
    let n = c.spec_as_str();
    let l = ascii_lower(n);
    match c {
        CodecType::Opus => {
            assert(l =~= "opus"@);
        },
        CodecType::G722 => {
            assert(l =~= "g722"@);
            assert(l[0] != "opus"@[0]);
        },
        CodecType::Pcmu => {
            assert(l =~= "pcmu"@);
            assert(l[0] != "opus"@[0] && l[0] != "g722"@[0]);
        },
        CodecType::Pcma => {
            assert(l =~= "pcma"@);
            assert(l[0] != "opus"@[0] && l[0] != "g722"@[0] && l[3] != "pcmu"@[3]);
        },
        CodecType::VP8 => {
            assert(l =~= "vp8"@);
        },
        CodecType::VP9 => {
            assert(l =~= "vp9"@);
            assert(l[2] != "vp8"@[2]);
        },
        CodecType::H264 => {
            assert(l =~= "h264"@);
            assert(l[0] != "opus"@[0] && l[0] != "g722"@[0] && l[0] != "pcmu"@[0] && l[0] != "pcma"@[0]);
        },
        CodecType::AV1 => {
            assert(l =~= "av1"@);
            assert(l[0] != "vp8"@[0] && l[0] != "vp9"@[0]);
        },
        CodecType::Unknown => {
            assert(l =~= "unknown"@);
        },
    }
}

/// No codec is both an audio and a video codec.
pub proof fn codec_kind_exclusive_law(c: CodecType)
    ensures
        !(c.spec_is_audio() && c.spec_is_video()),
{
}

#[derive(Clone, Copy, Debug, PartialEq, Eq)]
pub enum AudioApplication {
    VoIP,
    Audiobook,
    LowDelay,
}

impl AudioApplication {
    /// The application named by a lowercased name; unknown names mean VoIP.
    pub open spec fn spec_from_lower(s: Seq<char>) -> AudioApplication {
        if s == "voip"@ {
            AudioApplication::VoIP
        } else if s == "audiobook"@ {
            AudioApplication::Audiobook
        } else if s == "lowdelay"@ || s == "restricted-lowdelay"@ {
            AudioApplication::LowDelay
        } else {
            AudioApplication::VoIP
        }
    }

    /// The application named by `s`, regardless of case.
    pub fn from_str(s: &str) -> (a: AudioApplication)
        ensures
            a == Self::spec_from_lower(lowercase(s@)),
    {
        let lower = to_lowercase(s);
        Self::from_lower(lower.as_str())
    }

    /// The application named by a lowercased name.
    pub fn from_lower(s: &str) -> (a: AudioApplication)
        ensures
            a == Self::spec_from_lower(s@),
    {
        if str_eq(s, "voip") {
            AudioApplication::VoIP
        } else if str_eq(s, "audiobook") {
            AudioApplication::Audiobook
        } else if str_eq(s, "lowdelay") || str_eq(s, "restricted-lowdelay") {
            AudioApplication::LowDelay
        } else {
            AudioApplication::VoIP
        }
    }
}

#[derive(Clone, Debug)]
pub struct AudioEncoderConfig {
    pub sample_rate: u32,
    pub channels: u32,
    pub bitrate: i32,
    pub application: AudioApplication,
    pub frame_size_ms: u32,
    pub use_vbr: bool,
    pub use_constrained_vbr: bool,
    pub use_dtx: bool,
    pub use_fec: bool,
}

impl Default for AudioEncoderConfig {
    fn default() -> (c: Self)
        ensures
            c == (AudioEncoderConfig {
                sample_rate: 48000,
                channels: 2,
                bitrate: 64000,
                application: AudioApplication::VoIP,
                frame_size_ms: 20,
                use_vbr: true,
                use_constrained_vbr: true,
                use_dtx: false,
                use_fec: false,
            }),
    {
        AudioEncoderConfig {
            sample_rate: 48000,
            channels: 2,
            bitrate: 64000,
            application: AudioApplication::VoIP,
            frame_size_ms: 20,
            use_vbr: true,
            use_constrained_vbr: true,
            use_dtx: false,
            use_fec: false,
        }
    }
}

#[derive(Clone, Copy, Debug, PartialEq, Eq)]
pub enum VideoComplexity {
    Low,
    Normal,
    High,
    VeryHigh,
}

#[derive(Clone, Debug)]
pub struct VideoDecoderConfig {
    pub width: u32,
    pub height: u32,
    pub num_temporal_layers: u8,
    pub num_spatial_layers: u8,
    pub hardware_acceleration: bool,
}

impl Default for VideoDecoderConfig {
    fn default() -> (c: Self)
        ensures
            c == (VideoDecoderConfig {
                width: 0,
                height: 0,
                num_temporal_layers: 1,
                num_spatial_layers: 1,
                hardware_acceleration: true,
            }),
    {
        VideoDecoderConfig {
            width: 0,
            height: 0,
            num_temporal_layers: 1,
            num_spatial_layers: 1,
            hardware_acceleration: true,
        }
    }
}

#[derive(Clone, Copy, Debug, PartialEq, Eq)]
pub enum VideoRotation {
    Rotation0,
    Rotation90,
    Rotation180,
    Rotation270,
}

impl VideoRotation {
    pub open spec fn spec_from_u8(v: u8) -> VideoRotation {
        if v == 90 {
            VideoRotation::Rotation90
        } else if v == 180 {
            VideoRotation::Rotation180
        } else if v == 14 {
            VideoRotation::Rotation270
        } else {
            VideoRotation::Rotation0
        }
    }

    pub open spec fn spec_to_u8(self) -> u8 {
        match self {
            VideoRotation::Rotation0 => 0,
            VideoRotation::Rotation90 => 90,
            VideoRotation::Rotation180 => 180,
            VideoRotation::Rotation270 => 14,
        }
    }

    /// The rotation for 0, 90, 180 or 270 degrees, where 270, which does not
    /// fit a byte, is written as its low byte 14; any other value means no
    /// rotation.
    pub fn from_u8(v: u8) -> (r: VideoRotation)
        ensures
            r == Self::spec_from_u8(v),
    {
        match v {
            0 => VideoRotation::Rotation0,
            90 => VideoRotation::Rotation90,
            180 => VideoRotation::Rotation180,
            14 => VideoRotation::Rotation270,
            _ => VideoRotation::Rotation0,
        }
    }

    /// The rotation in degrees, as a byte; 270 wraps to 14.
    pub fn to_u8(&self) -> (v: u8)
        ensures
            v == self.spec_to_u8(),
    {
        match self {
            VideoRotation::Rotation0 => 0,
            VideoRotation::Rotation90 => 90,
            VideoRotation::Rotation180 => 180,
            VideoRotation::Rotation270 => 14,
        }
    }
}

/// Reading back the byte of a rotation gives the same rotation.
pub proof fn rotation_roundtrip_law(r: VideoRotation)
    ensures
        VideoRotation::spec_from_u8(r.spec_to_u8()) == r,
{
}

#[derive(Clone, Debug)]
pub struct ColorSpace {
    pub primaries: ColorPrimaries,
    pub transfer: ColorTransfer,
    pub matrix: ColorMatrix,
    pub range: ColorRange,
}

#[derive(Clone, Copy, Debug, PartialEq, Eq)]
pub enum ColorPrimaries {
    BT709,
    BT601,
    BT2020,
}

#[derive(Clone, Copy, Debug, PartialEq, Eq)]
pub enum ColorTransfer {
    BT709,
    BT601,
    SMPTE240M,
    Linear,
    Log,
    LogSqrt,
}

#[derive(Clone, Copy, Debug, PartialEq, Eq)]
pub enum ColorMatrix {
    BT709,
    BT601,
    BT2020,
}

#[derive(Clone, Copy, Debug, PartialEq, Eq)]
pub enum ColorRange {
    Full,
    Limited,
}

/// A raw video frame.
#[derive(Clone, Debug)]
pub struct VideoFrame {
    pub data: Vec<u8>,
    pub width: u32,
    pub height: u32,
    pub timestamp_us: u64,
    pub rotation: VideoRotation,
    pub color_space: Option<ColorSpace>,
}

impl VideoFrame {
    pub fn new_i420(data: Vec<u8>, width: u32, height: u32) -> (f: Self)
        ensures
            f == (VideoFrame {
                data,
                width,
                height,
                timestamp_us: 0,
                rotation: VideoRotation::Rotation0,
                color_space: None,
            }),
    {
        VideoFrame { data, width, height, timestamp_us: 0, rotation: VideoRotation::Rotation0, color_space: None }
    }

    pub fn new_argb(data: Vec<u8>, width: u32, height: u32) -> (f: Self)
        ensures
            f == (VideoFrame {
                data,
                width,
                height,
                timestamp_us: 0,
                rotation: VideoRotation::Rotation0,
                color_space: None,
            }),
    {
        VideoFrame { data, width, height, timestamp_us: 0, rotation: VideoRotation::Rotation0, color_space: None }
    }
}

#[derive(Clone, Copy, Debug, Default)]
pub struct PacketInfo {
    pub is_retransmission: bool,
    pub is_fec: bool,
    pub simulated: bool,
}

/// An encoded video frame.
#[derive(Clone, Debug)]
pub struct EncodedFrame {
    pub data: Vec<u8>,
    pub keyframe: bool,
    pub timestamp: u32,
    pub codec_type: CodecType,
    pub width: u32,
    pub height: u32,
    pub temporal_layer: u8,
    pub spatial_layer: u8,
    pub qp: Option<u32>,
    pub ntp_time_ms: Option<i64>,
    pub packet_info: PacketInfo,
}

/// A frame of `codec` with no size, layers or timing details set.
pub open spec fn plain_frame(data: Vec<u8>, keyframe: bool, timestamp: u32, codec: CodecType) -> EncodedFrame {
    EncodedFrame {
        data,
        keyframe,
        timestamp,
        codec_type: codec,
        width: 0,
        height: 0,
        temporal_layer: 0,
        spatial_layer: 0,
        qp: None,
        ntp_time_ms: None,
        packet_info: PacketInfo { is_retransmission: false, is_fec: false, simulated: false },
    }
}

impl EncodedFrame {
    fn plain(data: Vec<u8>, keyframe: bool, timestamp: u32, codec: CodecType) -> (f: Self)
        ensures
            f == plain_frame(data, keyframe, timestamp, codec),
    {
        EncodedFrame {
            data,
            keyframe,
            timestamp,
            codec_type: codec,
            width: 0,
            height: 0,
            temporal_layer: 0,
            spatial_layer: 0,
            qp: None,
            ntp_time_ms: None,
            packet_info: PacketInfo { is_retransmission: false, is_fec: false, simulated: false },
        }
    }

    pub fn new_vp8(data: Vec<u8>, keyframe: bool, timestamp: u32) -> (f: Self)
        ensures
            f == plain_frame(data, keyframe, timestamp, CodecType::VP8),
    {
        Self::plain(data, keyframe, timestamp, CodecType::VP8)
    }

    pub fn new_vp9(data: Vec<u8>, keyframe: bool, timestamp: u32, spatial: u8, temporal: u8) -> (f: Self)
        ensures
            f == (EncodedFrame {
                temporal_layer: temporal,
                spatial_layer: spatial,
                ..plain_frame(data, keyframe, timestamp, CodecType::VP9)
            }),
    {
        let mut f = Self::plain(data, keyframe, timestamp, CodecType::VP9);
        f.temporal_layer = temporal;
        f.spatial_layer = spatial;
        f
    }

    pub fn new_h264(data: Vec<u8>, keyframe: bool, timestamp: u32) -> (f: Self)
        ensures
            f == plain_frame(data, keyframe, timestamp, CodecType::H264),
    {
        Self::plain(data, keyframe, timestamp, CodecType::H264)
    }
}

} // verus!
