pub mod audio;
pub mod wire;
pub mod text;
pub mod ring;
pub mod byte_ring;
pub mod index_ring;
pub mod latency_ring;
pub mod cc;
pub mod clock;
pub mod observability;
pub mod codecs;
pub mod pc;
pub mod events;
pub mod packet;
pub mod jitter_buffer;
pub mod ice;
pub mod net;
pub mod crypto;
pub mod dtls;
pub mod scan;
pub mod datachannel;
pub mod e2ee;
pub mod pacer;
pub mod media_engine;
pub mod dtls_key;
pub mod engine_handle;
pub mod engine_shard;
