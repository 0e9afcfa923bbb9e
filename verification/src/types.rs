//! Playback types shared by the queue and the engine.

use vstd::prelude::*;

verus! {

/// Transport state of the player.
#[derive(Debug, Clone, Copy, PartialEq, Eq, Structural)]
pub enum PlaybackState {
    Stopped,
    Playing,
    Paused,
}

/// What the player knows about a track.
#[derive(Debug)]
pub struct TrackInfo {
    pub id: i64,
    pub path: String,
    pub title: Option<String>,
    pub artist: Option<String>,
    pub album: Option<String>,
    pub duration_ms: Option<u64>,
    pub sample_rate: Option<u32>,
    pub bit_depth: Option<u16>,
    pub channels: Option<u16>,
    pub codec: Option<String>,
    pub container: Option<String>,
    /// DSD sample rate in Hz (2_822_400 for DSD64); `None` for PCM tracks.
    pub dsd_rate_hz: Option<u32>,
    /// DSD channel count; `None` for PCM tracks.
    pub dsd_channels: Option<u16>,
}

fn clone_opt_string(o: &Option<String>) -> (r: Option<String>)
    ensures
        r == *o,
{
    match o {
        Some(s) => Some(s.clone()),
        None => None,
    }
}

impl Clone for TrackInfo {
    fn clone(&self) -> (r: Self)
        ensures
            r == *self,
    {
        TrackInfo {
            id: self.id,
            path: self.path.clone(),
            title: clone_opt_string(&self.title),
            artist: clone_opt_string(&self.artist),
            album: clone_opt_string(&self.album),
            duration_ms: self.duration_ms,
            sample_rate: self.sample_rate,
            bit_depth: self.bit_depth,
            channels: self.channels,
            codec: clone_opt_string(&self.codec),
            container: clone_opt_string(&self.container),
            dsd_rate_hz: self.dsd_rate_hz,
            dsd_channels: self.dsd_channels,
        }
    }
}

impl TrackInfo {
    /// A DSD track has a positive DSD rate.
    pub open spec fn spec_is_dsd(&self) -> bool {
        self.dsd_rate_hz matches Some(r) && r > 0
    }

    /// True if this is a DSD track (DSF/DFF).
    pub fn is_dsd(&self) -> (b: bool)
        ensures
            b == self.spec_is_dsd(),
    {
        match self.dsd_rate_hz {
            Some(r) => r > 0,
            None => false,
        }
    }
}

} // verus!
