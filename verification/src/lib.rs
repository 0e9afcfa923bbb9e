//! Verified core of a desktop music player: DSD-over-PCM packing, DSD
//! container parsing, encoder-delay detection, gapless trimming, the play
//! queue and playback session state, bounded sample buffers, search-query
//! normalisation, tag-edit planning and safe-write bookkeeping.

pub mod arith;
pub mod dop;
pub mod text;
pub mod encoder_delay;
pub mod types;
pub mod queue;
pub mod engine;
pub mod sample_ring;
pub mod gapless;
pub mod dsd;
pub mod safe_write;
pub mod models;
pub mod search;
pub mod tags;
pub mod identity;
pub mod scan;
pub mod memory_source;
pub mod devices;
pub mod dff;
pub mod channels;
pub mod settings;
pub mod wasapi_plan;
pub mod asio_plan;
pub mod decode_plan;
