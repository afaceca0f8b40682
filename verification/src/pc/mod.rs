pub mod transceiver;
pub mod configuration;
pub mod peer_connection;

pub use self::configuration::{RtcConfiguration, IceServer, IceTransportPolicy, BundlePolicy};
pub use self::peer_connection::{PeerConnection, PeerConnectionState, SignalingState, SessionDescription};
pub use self::transceiver::{RtpTransceiver, TransceiverDirection, MediaKind};
pub mod sdp;
pub mod sdp_parse;
pub mod sdp_minimal;
pub mod sdp_roundtrip;
