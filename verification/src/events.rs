//! Event payloads and connection states reported to applications.
use vstd::prelude::*;

verus! {

#[derive(Clone, Debug)]
pub struct IceCandidateEvent {
    pub candidate: String,
    pub sdp_mid: Option<String>,
    pub sdp_mline_index: Option<i32>,
}

#[derive(Clone, Debug, PartialEq, Eq)]
pub enum IceConnectionState {
    New,
    Checking,
    Connected,
    Completed,
    Failed,
    Disconnected,
    Closed,
}

impl IceConnectionState {
    pub open spec fn spec_name(&self) -> Seq<char> {
        match self {
            IceConnectionState::New => "new"@,
            IceConnectionState::Checking => "checking"@,
            IceConnectionState::Connected => "connected"@,
            IceConnectionState::Completed => "completed"@,
            IceConnectionState::Failed => "failed"@,
            IceConnectionState::Disconnected => "disconnected"@,
            IceConnectionState::Closed => "closed"@,
        }
    }

    /// The state's name as the W3C API spells it.
    pub fn name(&self) -> (s: &'static str)
        ensures
            s@ == self.spec_name(),
    {
        match self {
            IceConnectionState::New => "new",
            IceConnectionState::Checking => "checking",
            IceConnectionState::Connected => "connected",
            IceConnectionState::Completed => "completed",
            IceConnectionState::Failed => "failed",
            IceConnectionState::Disconnected => "disconnected",
            IceConnectionState::Closed => "closed",
        }
    }
}

#[derive(Clone, Debug, PartialEq, Eq)]
pub enum PeerConnectionState {
    New,
    Connecting,
    Connected,
    Disconnected,
    Failed,
    Closed,
}

impl PeerConnectionState {
    pub open spec fn spec_name(&self) -> Seq<char> {
        match self {
            PeerConnectionState::New => "new"@,
            PeerConnectionState::Connecting => "connecting"@,
            PeerConnectionState::Connected => "connected"@,
            PeerConnectionState::Disconnected => "disconnected"@,
            PeerConnectionState::Failed => "failed"@,
            PeerConnectionState::Closed => "closed"@,
        }
    }

    /// The state's name as the W3C API spells it.
    pub fn name(&self) -> (s: &'static str)
        ensures
            s@ == self.spec_name(),
    {
        match self {
            PeerConnectionState::New => "new",
            PeerConnectionState::Connecting => "connecting",
            PeerConnectionState::Connected => "connected",
            PeerConnectionState::Disconnected => "disconnected",
            PeerConnectionState::Failed => "failed",
            PeerConnectionState::Closed => "closed",
        }
    }
}

#[derive(Clone, Debug, PartialEq, Eq)]
pub enum SignalingState {
    Stable,
    HaveLocalOffer,
    HaveRemoteOffer,
    HaveLocalPranswer,
    HaveRemotePranswer,
    Closed,
}

#[derive(Clone, Debug, PartialEq, Eq)]
pub enum MediaKind {
    Audio,
    Video,
}

#[derive(Clone, Debug)]
pub struct TrackEvent {
    pub track_id: String,
    pub stream_id: String,
    pub kind: MediaKind,
    pub ssrc: u32,
}

#[derive(Clone, Debug)]
pub struct DataChannelEvent {
    pub label: String,
    pub protocol: String,
    pub channel_type: DataChannelType,
    pub ordered: bool,
    pub max_retransmits: Option<u16>,
}

#[derive(Clone, Debug, PartialEq, Eq)]
pub enum DataChannelType {
    DataChannelReliable,
    DataChannelReliableUnordered,
    DataChannelPartialReliable,
    DataChannelPartialReliableUnordered,
}

#[derive(Clone, Debug, PartialEq, Eq)]
pub enum IceGatheringState {
    New,
    Gathering,
    Complete,
}

#[derive(Clone, Debug)]
pub struct IceCandidateError {
    pub address: Option<String>,
    pub port: Option<u16>,
    pub url: Option<String>,
    pub error_code: i32,
    pub error_text: String,
}

} // verus!
