//! The clipping subsystem: commands and events between the UI and the
//! capture backend, and the capture configuration.
use vstd::prelude::*;

pub mod backend;
pub mod browser;
pub mod buffer;
pub mod detector;
pub mod gsr_install;
pub mod hotkey;
pub mod library;
pub mod portal;
pub mod remix;
pub mod settings;
pub mod thumbnail;
pub mod wizard;

verus! {

/// Capture configuration. Built from settings + portal pick at arm time.
#[derive(Debug, Clone)]
pub struct CaptureConfig {
    pub buffer_secs: u32,
    pub bitrate_mbps: u32,
    pub framerate: u32,
    pub portal_restore_token: Option<String>,
    pub headset_sink_monitor: String,
    pub include_per_source_tracks: bool,
    pub include_mic: bool,
    /// Directory the recorder writes clips into.
    pub output_dir: String,
}

pub fn copy_token(t: &Option<String>) -> (r: Option<String>)
    ensures
        r == *t,
{
    match t {
        Some(s) => Some(s.clone()),
        None => None,
    }
}

impl CaptureConfig {
    /// A copy equal to `self` in every field.
    pub fn duplicate(&self) -> (r: CaptureConfig)
        ensures
            r == *self,
    {
        CaptureConfig {
            buffer_secs: self.buffer_secs,
            bitrate_mbps: self.bitrate_mbps,
            framerate: self.framerate,
            portal_restore_token: copy_token(&self.portal_restore_token),
            headset_sink_monitor: self.headset_sink_monitor.clone(),
            include_per_source_tracks: self.include_per_source_tracks,
            include_mic: self.include_mic,
            output_dir: self.output_dir.clone(),
        }
    }
}

impl Default for CaptureConfig {
    /// 60 s buffer, 25 Mbps, 60 fps, every audio track, no token, empty
    /// monitor and output directory.
    fn default() -> (r: Self)
        ensures
            r.buffer_secs == 60,
            r.bitrate_mbps == 25,
            r.framerate == 60,
            r.portal_restore_token is None,
            r.headset_sink_monitor@ == Seq::<char>::empty(),
            r.include_per_source_tracks,
            r.include_mic,
            r.output_dir@ == Seq::<char>::empty(),
    {
        CaptureConfig {
            buffer_secs: 60,
            bitrate_mbps: 25,
            framerate: 60,
            portal_restore_token: None,
            headset_sink_monitor: String::new(),
            include_per_source_tracks: true,
            include_mic: true,
            output_dir: String::new(),
        }
    }
}

/// Commands sent from the UI to the capture backend.
#[derive(Debug)]
pub enum ClipCommand {
    /// Begin replay-mode capture with the given config.
    StartReplay { config: CaptureConfig },
    /// Stop and tear down the capture.
    StopReplay,
    /// Save the buffer (full duration).
    SaveClip,
    /// Save the last 30 s.
    SaveClipShort,
    /// Save the last 60 s.
    SaveClipMedium,
    /// Save the last 120 s.
    SaveClipLong,
    /// Tear down current capture and reload with new config.
    Reconfigure { config: CaptureConfig },
    /// The user paused: stop the replay session and clear the restart limiter.
    PauseRecording,
    /// The user resumed: clear the restart limiter.
    ResumeRecording,
    /// Final shutdown.
    Shutdown,
}

/// Events sent from the capture backend to the UI.
#[derive(Debug)]
pub enum BackendEvent {
    Armed,
    Disarmed,
    Saved { path: String, duration_ms: u64 },
    BackendDied { reason: String },
    Error { context: String, message: String },
}

} // verus!
