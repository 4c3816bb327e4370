//! Audio: the shapes the interface sees of input devices and of capture.
//! Capturing from a microphone happens outside the library.

use vstd::prelude::*;

pub mod buffer;

verus! {

/// A discoverable audio input device.
#[derive(Debug, Clone)]
pub struct AudioDeviceInfo {
    pub id: String,
    pub name: String,
    pub is_default: bool,
    pub default_sample_rate: u32,
    pub channels: u16,
}

/// Snapshot of the capture state for the UI.
#[derive(Debug, Clone)]
pub struct AudioCaptureState {
    pub capturing: bool,
    pub device_id: Option<String>,
    pub sample_rate: Option<u32>,
    pub channels: Option<u16>,
    pub buffered_samples: usize,
}

} // verus!
