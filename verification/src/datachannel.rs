//! Data channels: their send queues, the manager that creates and finds
//! them, and the control and data message formats.
use vstd::prelude::*;
use vstd::string::StringSliceAdditionalSpecFns;
use crate::text::{copy_string, owned};
use crate::wire::{be16, push_all, push_u16, read_u16, u16_be};

verus! {

#[verifier::external_type_specification]
#[verifier::external_body]
pub struct ExBytes(bytes::Bytes);

/// The bytes a `Bytes` buffer holds.
pub uninterp spec fn bytes_content(b: bytes::Bytes) -> Seq<u8>;

/// `Bytes::clone`: another handle on the same bytes.
pub assume_specification[ <bytes::Bytes as core::clone::Clone>::clone ](b: &bytes::Bytes) -> (r: bytes::Bytes)
    ensures
        bytes_content(r) == bytes_content(*b),
;

/// `Bytes::copy_from_slice`: a buffer holding a copy of `data`.
#[verifier::external_body]
fn bytes_copy_from_slice(data: &[u8]) -> (b: bytes::Bytes)
    ensures
        bytes_content(b) == data@,
{
    bytes::Bytes::copy_from_slice(data)
}

/// `Bytes::from(Vec<u8>)`: a buffer holding the vector's bytes.
#[verifier::external_body]
fn bytes_from_vec(v: Vec<u8>) -> (b: bytes::Bytes)
    ensures
        bytes_content(b) == v@,
{
    bytes::Bytes::from(v)
}

/// `Bytes::len`: the number of bytes held.
#[verifier::external_body]
fn bytes_len(b: &bytes::Bytes) -> (n: usize)
    ensures
        n == bytes_content(*b).len(),
{
    b.len()
}

/// `Bytes::as_ref`: the bytes held, as a slice.
#[verifier::external_body]
fn bytes_as_slice(b: &bytes::Bytes) -> (s: &[u8])
    ensures
        s@ == bytes_content(*b),
{
    b.as_ref()
}

/// The text that `String::from_utf8_lossy` makes of bytes: their
/// characters, with each invalid sequence replaced by U+FFFD.
pub uninterp spec fn utf8_lossy(b: Seq<u8>) -> Seq<char>;

/// `String::from_utf8_lossy` (made owned): valid UTF-8 decodes to its
/// characters unchanged.
#[verifier::external_body]
fn from_utf8_lossy(b: &[u8]) -> (s: String)
    ensures
        s@ == utf8_lossy(b@),
        vstd::utf8::valid_utf8(b@) ==> s@ == vstd::utf8::decode_utf8(b@),
{
    String::from_utf8_lossy(b).to_string()
}

#[derive(Debug)]
pub enum DataChannelError {
    NotOpen,
    BufferFull,
    InvalidState,
    SendError,
}

#[derive(Clone, Copy, Debug, PartialEq, Eq, Structural)]
pub enum DataChannelState {
    Connecting,
    Open,
    Closing,
    Closed,
}

impl Default for DataChannelState {
    fn default() -> (s: Self)
        ensures
            s == DataChannelState::Connecting,
    {
        DataChannelState::Connecting
    }
}

#[derive(Clone, Copy, Debug, PartialEq, Eq, Structural)]
pub enum DataChannelType {
    Control,
    Data,
}

impl DataChannelType {
    /// The type's code in an open message.
    pub fn as_u8(&self) -> (b: u8)
        ensures
            b == (match *self {
                DataChannelType::Control => 0u8,
                DataChannelType::Data => 1u8,
            }),
    {
        match self {
            DataChannelType::Control => 0,
            DataChannelType::Data => 1,
        }
    }
}

#[derive(Clone, Debug)]
pub enum DataChannelMessage {
    Text(bytes::Bytes),
    Binary(bytes::Bytes),
}

/// The payload of a message.
pub open spec fn msg_bytes(m: DataChannelMessage) -> Seq<u8> {
    match m {
        DataChannelMessage::Text(b) => bytes_content(b),
        DataChannelMessage::Binary(b) => bytes_content(b),
    }
}

/// The total payload of queued messages.
pub open spec fn queued_total(s: Seq<DataChannelMessage>) -> nat
    decreases s.len(),
{
    if s.len() == 0 {
        0
    } else {
        queued_total(s.drop_last()) + msg_bytes(s.last()).len()
    }
}

proof fn lemma_queued_total_front(s: Seq<DataChannelMessage>)
    requires
        s.len() > 0,
    ensures
        queued_total(s) == msg_bytes(s[0]).len() + queued_total(s.drop_first()),
    decreases s.len(),
{
    if s.len() > 1 {
        lemma_queued_total_front(s.drop_last());
        assert(s.drop_last().drop_first() =~= s.drop_first().drop_last());
        assert(s.drop_last()[0] == s[0]);
        assert(s.drop_first().last() == s.last());
    } else {
        assert(s.drop_first() =~= Seq::<DataChannelMessage>::empty());
        assert(s.drop_last() =~= Seq::<DataChannelMessage>::empty());
        assert(s.last() == s[0]);
    }
}

fn message_size(msg: &DataChannelMessage) -> (n: usize)
    ensures
        n == msg_bytes(*msg).len(),
{
    match msg {
        DataChannelMessage::Text(t) => bytes_len(t),
        DataChannelMessage::Binary(b) => bytes_len(b),
    }
}

/// The most a channel buffers: 16 MiB.
pub const MAX_BUFFERED: usize = 16777216;

pub struct DataChannelConfig {
    pub ordered: bool,
    pub max_packet_lifetime_ms: Option<u32>,
    pub max_retransmits: Option<u16>,
    pub label: String,
    pub protocol: String,
    pub negotiated: bool,
}

impl Default for DataChannelConfig {
    fn default() -> (c: Self)
        ensures
            c.ordered,
            c.max_packet_lifetime_ms is None,
            c.max_retransmits is None,
            c.label@.len() == 0,
            c.protocol@.len() == 0,
            !c.negotiated,
    {
        DataChannelConfig {
            ordered: true,
            max_packet_lifetime_ms: None,
            max_retransmits: None,
            label: String::new(),
            protocol: String::new(),
            negotiated: false,
        }
    }
}

impl DataChannelConfig {
    /// A copy of the configuration.
    pub fn duplicate(&self) -> (c: Self)
        ensures
            c.ordered == self.ordered,
            c.max_packet_lifetime_ms == self.max_packet_lifetime_ms,
            c.max_retransmits == self.max_retransmits,
            c.label@ == self.label@,
            c.protocol@ == self.protocol@,
            c.negotiated == self.negotiated,
    {
        DataChannelConfig {
            ordered: self.ordered,
            max_packet_lifetime_ms: self.max_packet_lifetime_ms,
            max_retransmits: self.max_retransmits,
            label: copy_string(&self.label),
            protocol: copy_string(&self.protocol),
            negotiated: self.negotiated,
        }
    }
}

pub struct DataChannel {
    pub id: u16,
    pub config: DataChannelConfig,
    state: DataChannelState,
    buffered_amount: usize,
    buffered_amount_low_threshold: usize,
    messages: std::collections::VecDeque<DataChannelMessage>,
}

impl DataChannel {
    pub closed spec fn spec_id(&self) -> u16 {
        self.id
    }

    pub closed spec fn spec_config(&self) -> DataChannelConfig {
        self.config
    }

    pub closed spec fn spec_state(&self) -> DataChannelState {
        self.state
    }

    pub closed spec fn spec_buffered(&self) -> nat {
        self.buffered_amount as nat
    }

    pub closed spec fn spec_threshold(&self) -> nat {
        self.buffered_amount_low_threshold as nat
    }

    /// The queued messages, oldest first.
    pub closed spec fn queue(&self) -> Seq<DataChannelMessage> {
        self.messages@
    }

    /// The channel's bookkeeping: the buffered amount is at most 16 MiB and
    /// covers what is queued.
    pub open spec fn wf(&self) -> bool {
        &&& self.spec_buffered() <= MAX_BUFFERED
        &&& queued_total(self.queue()) <= self.spec_buffered()
    }

    /// Whether the buffered amount is exactly what is queued (as it is
    /// until the channel is closed).
    pub open spec fn tracks_queue(&self) -> bool {
        queued_total(self.queue()) == self.spec_buffered()
    }

    pub fn new(id: u16, config: DataChannelConfig) -> (c: Self)
        ensures
            c.spec_id() == id,
            c.spec_config() == config,
            c.spec_state() == DataChannelState::Connecting,
            c.spec_buffered() == 0,
            c.spec_threshold() == 65536,
            c.queue().len() == 0,
            c.wf(),
            c.tracks_queue(),
    {
        DataChannel {
            id,
            config,
            state: DataChannelState::Connecting,
            buffered_amount: 0,
            buffered_amount_low_threshold: 65536,
            messages: std::collections::VecDeque::new(),
        }
    }

    /// Queues a text message of the UTF-8 bytes of `text`.
    pub fn send_text(&mut self, text: &str) -> (r: Result<(), DataChannelError>)
        requires
            old(self).wf(),
            text.spec_bytes().len() <= usize::MAX - MAX_BUFFERED,
        ensures
            final(self).wf(),
            final(self).spec_id() == old(self).spec_id(),
            final(self).spec_config() == old(self).spec_config(),
            final(self).spec_state() == old(self).spec_state(),
            final(self).spec_threshold() == old(self).spec_threshold(),
            old(self).spec_state() != DataChannelState::Open ==> (match r {
                Err(DataChannelError::NotOpen) => true,
                _ => false,
            }) && final(self).queue() == old(self).queue() && final(self).spec_buffered() == old(self).spec_buffered(),
            old(self).spec_state() == DataChannelState::Open && old(self).spec_buffered() + text.spec_bytes().len()
                > MAX_BUFFERED ==> (match r {
                Err(DataChannelError::BufferFull) => true,
                _ => false,
            }) && final(self).queue() == old(self).queue() && final(self).spec_buffered() == old(self).spec_buffered(),
            old(self).spec_state() == DataChannelState::Open && old(self).spec_buffered() + text.spec_bytes().len()
                <= MAX_BUFFERED ==> r is Ok && final(self).spec_buffered() == old(self).spec_buffered()
                + text.spec_bytes().len() && final(self).queue().len() == old(self).queue().len() + 1
                && final(self).queue().drop_last() == old(self).queue() && final(self).queue().last() is Text
                && msg_bytes(final(self).queue().last()) == text.spec_bytes(),
            old(self).tracks_queue() ==> final(self).tracks_queue(),
    {
        let b = bytes_copy_from_slice(text.as_bytes());
        self.send(DataChannelMessage::Text(b))
    }

    /// Queues a binary message holding a copy of `data`.
    pub fn send_binary(&mut self, data: &[u8]) -> (r: Result<(), DataChannelError>)
        requires
            old(self).wf(),
            data@.len() <= usize::MAX - MAX_BUFFERED,
        ensures
            final(self).wf(),
            final(self).spec_id() == old(self).spec_id(),
            final(self).spec_config() == old(self).spec_config(),
            final(self).spec_state() == old(self).spec_state(),
            final(self).spec_threshold() == old(self).spec_threshold(),
            old(self).spec_state() != DataChannelState::Open ==> (match r {
                Err(DataChannelError::NotOpen) => true,
                _ => false,
            }) && final(self).queue() == old(self).queue() && final(self).spec_buffered() == old(self).spec_buffered(),
            old(self).spec_state() == DataChannelState::Open && old(self).spec_buffered() + data@.len() > MAX_BUFFERED
                ==> (match r {
                Err(DataChannelError::BufferFull) => true,
                _ => false,
            }) && final(self).queue() == old(self).queue() && final(self).spec_buffered() == old(self).spec_buffered(),
            old(self).spec_state() == DataChannelState::Open && old(self).spec_buffered() + data@.len()
                <= MAX_BUFFERED ==> r is Ok && final(self).spec_buffered() == old(self).spec_buffered() + data@.len()
                && final(self).queue().len() == old(self).queue().len() + 1 && final(self).queue().drop_last()
                == old(self).queue() && final(self).queue().last() is Binary && msg_bytes(final(self).queue().last())
                == data@,
            old(self).tracks_queue() ==> final(self).tracks_queue(),
    {
        let b = bytes_copy_from_slice(data);
        self.send(DataChannelMessage::Binary(b))
    }

    /// Queues `msg` when the channel is open and its payload keeps the
    /// buffered amount within 16 MiB.
    fn send(&mut self, msg: DataChannelMessage) -> (r: Result<(), DataChannelError>)
        requires
            old(self).wf(),
            msg_bytes(msg).len() <= usize::MAX - MAX_BUFFERED,
        ensures
            final(self).wf(),
            final(self).spec_id() == old(self).spec_id(),
            final(self).spec_config() == old(self).spec_config(),
            final(self).spec_state() == old(self).spec_state(),
            final(self).spec_threshold() == old(self).spec_threshold(),
            old(self).spec_state() != DataChannelState::Open ==> (match r {
                Err(DataChannelError::NotOpen) => true,
                _ => false,
            }) && final(self).queue() == old(self).queue() && final(self).spec_buffered() == old(self).spec_buffered(),
            old(self).spec_state() == DataChannelState::Open && old(self).spec_buffered() + msg_bytes(msg).len()
                > MAX_BUFFERED ==> (match r {
                Err(DataChannelError::BufferFull) => true,
                _ => false,
            }) && final(self).queue() == old(self).queue() && final(self).spec_buffered() == old(self).spec_buffered(),
            old(self).spec_state() == DataChannelState::Open && old(self).spec_buffered() + msg_bytes(msg).len()
                <= MAX_BUFFERED ==> r is Ok && final(self).spec_buffered() == old(self).spec_buffered() + msg_bytes(
                msg,
            ).len() && final(self).queue() == old(self).queue().push(msg),
            old(self).tracks_queue() ==> final(self).tracks_queue(),
    {
        if self.state != DataChannelState::Open {
            return Err(DataChannelError::NotOpen);
        }
        let size = message_size(&msg);
        let current = self.buffered_amount;
        if current + size > MAX_BUFFERED {
            return Err(DataChannelError::BufferFull);
        }
        self.buffered_amount = current + size;
        let ghost q = self.messages@;
        self.messages.push_back(msg);
        assert(self.messages@.drop_last() =~= q);
        Ok(())
    }

    /// Takes the oldest queued message, giving its payload back to the
    /// buffered amount.
    pub fn pop_message(&mut self) -> (r: Option<DataChannelMessage>)
        requires
            old(self).wf(),
        ensures
            final(self).wf(),
            final(self).spec_id() == old(self).spec_id(),
            final(self).spec_config() == old(self).spec_config(),
            final(self).spec_state() == old(self).spec_state(),
            final(self).spec_threshold() == old(self).spec_threshold(),
            old(self).queue().len() == 0 ==> r is None && final(self).queue() == old(self).queue()
                && final(self).spec_buffered() == old(self).spec_buffered(),
            old(self).queue().len() > 0 ==> r == Some(old(self).queue()[0]) && final(self).queue() == old(
                self,
            ).queue().drop_first() && final(self).spec_buffered() == old(self).spec_buffered() - msg_bytes(
                old(self).queue()[0],
            ).len(),
            old(self).tracks_queue() ==> final(self).tracks_queue(),
    {
        let ghost q = self.messages@;
        let msg = match self.messages.pop_front() {
            Some(m) => m,
            None => {
                return None;
            },
        };
        proof {
            lemma_queued_total_front(q);
        }
        let size = message_size(&msg);
        self.buffered_amount = self.buffered_amount - size;
        Some(msg)
    }

    pub fn buffered_amount(&self) -> (n: usize)
        ensures
            n == self.spec_buffered(),
    {
        self.buffered_amount
    }

    pub fn set_buffered_amount_low_threshold(&mut self, threshold: usize)
        ensures
            final(self).spec_threshold() == threshold,
            final(self).spec_buffered() == old(self).spec_buffered(),
            final(self).queue() == old(self).queue(),
            final(self).spec_state() == old(self).spec_state(),
            final(self).spec_id() == old(self).spec_id(),
            final(self).spec_config() == old(self).spec_config(),
    {
        self.buffered_amount_low_threshold = threshold;
    }

    pub fn buffered_amount_low_threshold(&self) -> (n: usize)
        ensures
            n == self.spec_threshold(),
    {
        self.buffered_amount_low_threshold
    }

    pub fn is_open(&self) -> (b: bool)
        ensures
            b == (self.spec_state() == DataChannelState::Open),
    {
        self.state == DataChannelState::Open
    }

    pub fn is_closed(&self) -> (b: bool)
        ensures
            b == (self.spec_state() == DataChannelState::Closed),
    {
        self.state == DataChannelState::Closed
    }

    pub fn state(&self) -> (s: DataChannelState)
        ensures
            s == self.spec_state(),
    {
        self.state
    }

    pub fn open(&mut self)
        ensures
            final(self).spec_state() == DataChannelState::Open,
            final(self).spec_buffered() == old(self).spec_buffered(),
            final(self).spec_threshold() == old(self).spec_threshold(),
            final(self).queue() == old(self).queue(),
            final(self).spec_id() == old(self).spec_id(),
            final(self).spec_config() == old(self).spec_config(),
    {
        self.state = DataChannelState::Open;
    }

    /// Closes the channel and drops what is queued; the buffered amount is
    /// left as it was.
    pub fn close(&mut self)
        requires
            old(self).wf(),
        ensures
            final(self).wf(),
            final(self).spec_state() == DataChannelState::Closed,
            final(self).queue().len() == 0,
            final(self).spec_buffered() == old(self).spec_buffered(),
            final(self).spec_threshold() == old(self).spec_threshold(),
            final(self).spec_id() == old(self).spec_id(),
            final(self).spec_config() == old(self).spec_config(),
    {
        self.state = DataChannelState::Closed;
        self.messages.clear();
    }
}

/// The data channels of a connection, with the id the next one gets.
pub struct DataChannelManager {
    channels: Vec<DataChannel>,
    next_channel_id: u16,
}

/// The open channels among `s`, in order.
pub open spec fn open_only(s: Seq<DataChannel>) -> Seq<DataChannel>
    decreases s.len(),
{
    if s.len() == 0 {
        s
    } else if s.last().spec_state() == DataChannelState::Open {
        open_only(s.drop_last()).push(s.last())
    } else {
        open_only(s.drop_last())
    }
}

/// The channels with a given id removed.
pub open spec fn without_id(s: Seq<u16>, id: u16) -> Seq<u16>
    decreases s.len(),
{
    if s.len() == 0 {
        s
    } else if s.last() == id {
        without_id(s.drop_last(), id)
    } else {
        without_id(s.drop_last(), id).push(s.last())
    }
}

impl DataChannelManager {
    /// The ids of the channels, in creation order.
    pub closed spec fn ids(&self) -> Seq<u16> {
        self.channels@.map_values(|c: DataChannel| c.id)
    }

    /// The channels, in creation order.
    pub closed spec fn channel_list(&self) -> Seq<DataChannel> {
        self.channels@
    }

    pub closed spec fn spec_next_id(&self) -> u16 {
        self.next_channel_id
    }

    pub closed spec fn wf(&self) -> bool {
        forall|i: int| 0 <= i < self.channels@.len() ==> (#[trigger] self.channels@[i]).wf()
    }

    pub fn new() -> (m: Self)
        ensures
            m.ids() == Seq::<u16>::empty(),
            m.spec_next_id() == 0,
            m.wf(),
    {
        let m = DataChannelManager { channels: Vec::new(), next_channel_id: 0 };
        assert(m.ids() =~= Seq::<u16>::empty());
        m
    }

    /// Adds a channel with the next id (which then advances, wrapping),
    /// labelled `label` when its configuration has no label, opened when
    /// `open` holds; returns a copy of it as created.
    fn add_channel(&mut self, label: &str, config: DataChannelConfig, open: bool) -> (c: DataChannel)
        requires
            old(self).wf(),
        ensures
            final(self).wf(),
            c.wf(),
            c.tracks_queue(),
            c.spec_id() == old(self).spec_next_id(),
            final(self).ids() == old(self).ids().push(c.spec_id()),
            final(self).spec_next_id() == (if old(self).spec_next_id() == u16::MAX { 0 } else { old(
                self,
            ).spec_next_id() + 1 }),
            c.spec_config().label@ == (if config.label@.len() == 0 { label@ } else { config.label@ }),
            c.spec_config().protocol@ == config.protocol@,
            c.spec_config().ordered == config.ordered,
            c.spec_config().negotiated == config.negotiated,
            c.spec_config().max_packet_lifetime_ms == config.max_packet_lifetime_ms,
            c.spec_config().max_retransmits == config.max_retransmits,
            c.spec_state() == (if open { DataChannelState::Open } else { DataChannelState::Connecting }),
            c.queue().len() == 0,
            c.spec_buffered() == 0,
    {
        let id = self.next_channel_id;
        self.next_channel_id = if id == u16::MAX { 0 } else { id + 1 };
        let mut cfg = config;
        if cfg.label.as_str().is_empty() {
            cfg.label = owned(label);
        }
        let copy = cfg.duplicate();
        let mut channel = DataChannel::new(id, cfg);
        let mut out = DataChannel::new(id, copy);
        if open {
            channel.open();
            out.open();
        }
        let ghost before = self.channels@;
        self.channels.push(channel);
        assert(self.ids() =~= old(self).ids().push(id));
        assert forall|i: int| 0 <= i < self.channels@.len() implies (#[trigger] self.channels@[i]).wf() by {
            if i < before.len() {
                assert(self.channels@[i] == before[i]);
            }
        }
        out
    }

    /// Creates a channel (see `add_channel`) in the connecting state.
    pub fn create_data_channel(&mut self, label: &str, config: DataChannelConfig) -> (c: DataChannel)
        requires
            old(self).wf(),
        ensures
            final(self).wf(),
            c.wf(),
            c.spec_id() == old(self).spec_next_id(),
            final(self).ids() == old(self).ids().push(c.spec_id()),
            final(self).spec_next_id() == (if old(self).spec_next_id() == u16::MAX { 0 } else { old(
                self,
            ).spec_next_id() + 1 }),
            c.spec_config().label@ == (if config.label@.len() == 0 { label@ } else { config.label@ }),
            c.spec_config().protocol@ == config.protocol@,
            c.spec_config().ordered == config.ordered,
            c.spec_state() == DataChannelState::Connecting,
            c.queue().len() == 0,
    {
        self.add_channel(label, config, false)
    }

    /// The first channel with id `id`.
    pub fn get_channel(&self, id: u16) -> (r: Option<&DataChannel>)
        ensures
            match r {
                Some(c) => c.spec_id() == id && exists|i: int| 0 <= i < self.ids().len() && self.ids()[i] == id && forall|
                    j: int,
                | 0 <= j < i ==> self.ids()[j] != id,
                None => forall|i: int| 0 <= i < self.ids().len() ==> self.ids()[i] != id,
            },
    {
        let mut i: usize = 0;
        while i < self.channels.len()
            invariant
                i <= self.channels@.len(),
                forall|j: int| 0 <= j < i ==> self.ids()[j] != id,
            decreases self.channels@.len() - i,
        {
            assert(self.ids()[i as int] == self.channels@[i as int].id);
            if self.channels[i].id == id {
                return Some(&self.channels[i]);
            }
            i = i + 1;
        }
        None
    }

    /// Drops every channel with id `id`.
    pub fn remove_channel(&mut self, id: u16)
        requires
            old(self).wf(),
        ensures
            final(self).wf(),
            final(self).ids() == without_id(old(self).ids(), id),
            final(self).spec_next_id() == old(self).spec_next_id(),
    {
        let mut rest: Vec<DataChannel> = Vec::new();
        std::mem::swap(&mut rest, &mut self.channels);
        let ghost os = rest@;
        assert(os.map_values(|c: DataChannel| c.id) == old(self).ids());
        let mut kept: Vec<DataChannel> = Vec::new();
        let total = rest.len();
        assert(os.skip(0) =~= os);
        assert(os.take(0).map_values(|c: DataChannel| c.id) =~= Seq::<u16>::empty());
        let mut n: usize = 0;
        while rest.len() > 0
            invariant
                os == old(self).channels@,
                os.len() == total,
                forall|i: int| 0 <= i < os.len() ==> (#[trigger] os[i]).wf(),
                n <= os.len(),
                rest@ == os.skip(n as int),
                forall|i: int| 0 <= i < kept@.len() ==> (#[trigger] kept@[i]).wf(),
                kept@.map_values(|c: DataChannel| c.id) == without_id(os.take(n as int).map_values(|c: DataChannel| c.id), id),
            decreases rest@.len(),
        {
            let c = rest.remove(0);
            assert(c == os[n as int]);
            assert(os.skip(n as int).remove(0) =~= os.skip(n + 1));
            let ghost before = kept@;
            let ghost t = os.take(n + 1).map_values(|c: DataChannel| c.id);
            assert(t.drop_last() =~= os.take(n as int).map_values(|c: DataChannel| c.id));
            assert(t.last() == c.id);
            if c.id != id {
                kept.push(c);
                assert(kept@.map_values(|c: DataChannel| c.id) =~= before.map_values(|c: DataChannel| c.id).push(
                    t.last(),
                ));
            }
            n = n + 1;
        }
        assert(os.take(os.len() as int) =~= os);
        self.channels = kept;
    }

    /// The channels, in creation order.
    pub fn channels(&self) -> (v: &Vec<DataChannel>)
        ensures
            v@.map_values(|c: DataChannel| c.spec_id()) == self.ids(),
    {
        &self.channels
    }

    /// The open channels, in creation order.
    pub fn open_channels(&self) -> (v: Vec<&DataChannel>)
        ensures
            v@.len() == open_only(self.channel_list()).len(),
            forall|i: int| 0 <= i < v@.len() ==> *(#[trigger] v@[i]) == open_only(self.channel_list())[i],
    {
        let mut v: Vec<&DataChannel> = Vec::new();
        let mut i: usize = 0;
        while i < self.channels.len()
            invariant
                i <= self.channels@.len(),
                v@.len() == open_only(self.channels@.take(i as int)).len(),
                forall|k: int|
                    0 <= k < v@.len() ==> *(#[trigger] v@[k]) == open_only(self.channels@.take(i as int))[k],
            decreases self.channels@.len() - i,
        {
            let ghost before = v@;
            assert(self.channels@.take(i + 1).drop_last() =~= self.channels@.take(i as int));
            if self.channels[i].is_open() {
                v.push(&self.channels[i]);
            }
            i = i + 1;
        }
        assert(self.channels@.take(i as int) =~= self.channels@);
        v
    }
}

impl Default for DataChannelManager {
    fn default() -> (m: Self)
        ensures
            m.ids() == Seq::<u16>::empty(),
            m.spec_next_id() == 0,
            m.wf(),
    {
        Self::new()
    }
}

/// The control message that opens a channel: type 0, flags (bit 1 set for
/// unordered delivery), the label's length and bytes, the protocol's
/// length and bytes.
pub open spec fn open_message_bytes(label: Seq<u8>, protocol: Seq<u8>, ordered: bool) -> Seq<u8> {
    seq![0u8, if ordered { 0u8 } else { 2u8 }] + be16((label.len() % 0x1_0000) as u16) + label + be16(
        (protocol.len() % 0x1_0000) as u16,
    ) + protocol
}

/// What an open message announces: the label bytes, the protocol bytes,
/// and whether delivery is ordered; `None` when it is too short for the
/// label and the protocol length. A protocol longer than what follows is
/// not admitted.
pub open spec fn open_message_fields(data: Seq<u8>) -> Option<(Seq<u8>, Seq<u8>, bool)> {
    if data.len() < 4 {
        None
    } else {
        let ll = u16_be(data[2], data[3]) as int;
        if data.len() < 4 + ll + 2 {
            None
        } else {
            let pl = u16_be(data[4 + ll], data[5 + ll]) as int;
            let ordered = data[1] & 2 == 0;
            let protocol = if pl > 0 { data.subrange(6 + ll, 6 + ll + pl) } else { Seq::empty() };
            Some((data.subrange(4, 4 + ll), protocol, ordered))
        }
    }
}

/// Whether an open message's protocol fits in it.
pub open spec fn open_message_fits(data: Seq<u8>) -> bool {
    data.len() >= 4 && data.len() >= 4 + u16_be(data[2], data[3]) + 2 ==> {
        let ll = u16_be(data[2], data[3]) as int;
        let pl = u16_be(data[4 + ll], data[5 + ll]) as int;
        pl > 0 ==> data.len() >= 6 + ll + pl
    }
}

/// Reading an open message gives back the label, protocol and ordering it
/// was made of, when both lengths fit in 16 bits.
pub proof fn open_message_roundtrip_law(label: Seq<u8>, protocol: Seq<u8>, ordered: bool)
    requires
        label.len() <= 0xFFFF,
        protocol.len() <= 0xFFFF,
    ensures
        open_message_fields(open_message_bytes(label, protocol, ordered)) == Some((label, protocol, ordered)),
        open_message_fits(open_message_bytes(label, protocol, ordered)),
{
    let m = open_message_bytes(label, protocol, ordered);
    let ll = label.len() as int;
    crate::wire::lemma_be16_roundtrip(label.len() as u16);
    crate::wire::lemma_be16_roundtrip(protocol.len() as u16);
    assert(u16_be(m[2], m[3]) == ll);
    assert(m[4 + ll] == be16(protocol.len() as u16)[0]);
    assert(m[5 + ll] == be16(protocol.len() as u16)[1]);
    assert(m.subrange(4, 4 + ll) =~= label);
    assert(m.subrange(6 + ll, 6 + ll + protocol.len()) =~= protocol);
    let f: u8 = if ordered { 0u8 } else { 2u8 };
    assert(f & 2 == 0 <==> f == 0) by (bit_vector)
        requires
            f == 0 || f == 2,
    ;
    if protocol.len() == 0 {
        assert(protocol =~= Seq::<u8>::empty());
    }
}

/// A data message: type 0 (text) or 1 (binary), then the payload.
pub open spec fn data_message_bytes(m: DataChannelMessage) -> Seq<u8> {
    seq![if m is Text { 0u8 } else { 1u8 }] + msg_bytes(m)
}

/// Reading a data message gives back the kind and payload it was made of.
pub proof fn data_message_roundtrip_law(m: DataChannelMessage)
    ensures
        data_message_bytes(m).len() > 0,
        (data_message_bytes(m)[0] == 0 || data_message_bytes(m)[0] == 2) <==> m is Text,
        data_message_bytes(m).drop_first() == msg_bytes(m),
{
    assert(data_message_bytes(m).drop_first() =~= msg_bytes(m));
}

/// Opens channels for incoming control messages and frames data messages.
pub struct DataChannelProtocol {
    manager: DataChannelManager,
    sctp_stream_id: u16,
}

impl DataChannelProtocol {
    pub closed spec fn spec_manager(&self) -> DataChannelManager {
        self.manager
    }

    pub fn new() -> (p: Self)
        ensures
            p.spec_manager().ids() == Seq::<u16>::empty(),
            p.spec_manager().spec_next_id() == 0,
            p.spec_manager().wf(),
    {
        DataChannelProtocol { manager: DataChannelManager::new(), sctp_stream_id: 0 }
    }

    pub fn create_channel(&mut self, label: &str, config: DataChannelConfig) -> (c: DataChannel)
        requires
            old(self).spec_manager().wf(),
        ensures
            final(self).spec_manager().wf(),
            c.spec_id() == old(self).spec_manager().spec_next_id(),
            final(self).spec_manager().ids() == old(self).spec_manager().ids().push(c.spec_id()),
            c.spec_config().label@ == (if config.label@.len() == 0 { label@ } else { config.label@ }),
            c.spec_config().protocol@ == config.protocol@,
            c.spec_config().ordered == config.ordered,
            c.spec_state() == DataChannelState::Connecting,
    {
        self.manager.create_data_channel(label, config)
    }

    /// Opens a channel for an open message: the label (two-byte length at
    /// byte 2) and protocol are read as UTF-8 (invalid sequences replaced),
    /// delivery is ordered unless flag bit 1 is set. Too short a message is
    /// an invalid state; a protocol longer than the rest is not admitted.
    pub fn handle_open_message(&mut self, data: &[u8]) -> (r: Result<DataChannel, DataChannelError>)
        requires
            old(self).spec_manager().wf(),
            open_message_fits(data@),
        ensures
            final(self).spec_manager().wf(),
            match open_message_fields(data@) {
                None => (match r {
                    Err(DataChannelError::InvalidState) => true,
                    _ => false,
                }) && final(self).spec_manager().ids() == old(self).spec_manager().ids(),
                Some((label, protocol, ordered)) => match r {
                    Ok(c) => {
                        &&& c.spec_config().label@ == utf8_lossy(label)
                        &&& c.spec_config().protocol@ == (if protocol.len() > 0 { utf8_lossy(protocol) } else { Seq::empty() })
                        &&& c.spec_config().ordered == ordered
                        &&& c.spec_config().max_packet_lifetime_ms is None
                        &&& c.spec_config().max_retransmits is None
                        &&& !c.spec_config().negotiated
                        &&& c.spec_state() == DataChannelState::Open
                        &&& c.spec_id() == old(self).spec_manager().spec_next_id()
                        &&& final(self).spec_manager().ids() == old(self).spec_manager().ids().push(c.spec_id())
                    },
                    Err(_) => false,
                },
            },
    {
        if data.len() < 4 {
            return Err(DataChannelError::InvalidState);
        }
        let flags = data[1];
        let label_len = read_u16(data, 2) as usize;
        if data.len() < 4 + label_len + 2 {
            return Err(DataChannelError::InvalidState);
        }
        let label = from_utf8_lossy(crate::wire::sub_vec(data, 4, 4 + label_len).as_slice());
        let proto_len_offset = 4 + label_len;
        let proto_len = read_u16(data, proto_len_offset) as usize;
        let protocol = if proto_len > 0 {
            let proto_start = proto_len_offset + 2;
            from_utf8_lossy(crate::wire::sub_vec(data, proto_start, proto_start + proto_len).as_slice())
        } else {
            String::new()
        };
        let ordered = (flags & 0x02) == 0;
        let label_copy = copy_string(&label);
        let config = DataChannelConfig {
            label,
            protocol,
            ordered,
            max_packet_lifetime_ms: None,
            max_retransmits: None,
            negotiated: false,
        };
        let c = self.manager.add_channel(label_copy.as_str(), config, true);
        Ok(c)
    }

    /// The open message for a label, a protocol and the ordering.
    pub fn encode_open_message(&self, label: &str, protocol: &str, ordered: bool) -> (msg: Vec<u8>)
        ensures
            msg@ == open_message_bytes(label.spec_bytes(), protocol.spec_bytes(), ordered),
    {
        let label_bytes = label.as_bytes();
        let proto_bytes = protocol.as_bytes();
        let mut msg: Vec<u8> = Vec::new();
        msg.push(DataChannelType::Control.as_u8());
        let flags: u8 = if !ordered { 0x02 } else { 0 };
        msg.push(flags);
        push_u16(&mut msg, (label_bytes.len() % 0x1_0000) as u16);
        push_all(&mut msg, label_bytes);
        push_u16(&mut msg, (proto_bytes.len() % 0x1_0000) as u16);
        push_all(&mut msg, proto_bytes);
        assert(msg@ =~= open_message_bytes(label.spec_bytes(), protocol.spec_bytes(), ordered));
        msg
    }

    /// Reads a data message: type 0 or 2 is text, 1 or 3 binary; anything
    /// else, or nothing, is an invalid state.
    pub fn handle_data_message(&self, data: &[u8]) -> (r: Result<DataChannelMessage, DataChannelError>)
        ensures
            data@.len() == 0 ==> (match r {
                Err(DataChannelError::InvalidState) => true,
                _ => false,
            }),
            data@.len() > 0 ==> (match r {
                Ok(m) => (data@[0] == 0 || data@[0] == 2) == (m is Text) && (data@[0] <= 3) && msg_bytes(m)
                    == data@.drop_first(),
                Err(DataChannelError::InvalidState) => data@[0] > 3,
                Err(_) => false,
            }),
    {
        if data.len() == 0 {
            return Err(DataChannelError::InvalidState);
        }
        let msg_type = data[0];
        let rest = crate::wire::sub_vec(data, 1, data.len());
        assert(rest@ =~= data@.drop_first());
        if msg_type == 0x00 || msg_type == 0x02 {
            Ok(DataChannelMessage::Text(bytes_from_vec(rest)))
        } else if msg_type == 0x01 || msg_type == 0x03 {
            Ok(DataChannelMessage::Binary(bytes_from_vec(rest)))
        } else {
            Err(DataChannelError::InvalidState)
        }
    }

    /// Frames a data message: its type byte, then its payload.
    pub fn encode_data_message(&self, msg: &DataChannelMessage) -> (out: Vec<u8>)
        ensures
            out@ == data_message_bytes(*msg),
    {
        let mut out: Vec<u8> = Vec::new();
        match msg {
            DataChannelMessage::Text(t) => {
                out.push(0x00);
                push_all(&mut out, bytes_as_slice(t));
            },
            DataChannelMessage::Binary(b) => {
                out.push(0x01);
                push_all(&mut out, bytes_as_slice(b));
            },
        }
        assert(out@ =~= data_message_bytes(*msg));
        out
    }

    pub fn manager(&self) -> (m: &DataChannelManager)
        ensures
            *m == self.spec_manager(),
    {
        &self.manager
    }
}

impl Default for DataChannelProtocol {
    fn default() -> (p: Self)
        ensures
            p.spec_manager().ids() == Seq::<u16>::empty(),
            p.spec_manager().spec_next_id() == 0,
            p.spec_manager().wf(),
    {
        Self::new()
    }
}

} // verus!
