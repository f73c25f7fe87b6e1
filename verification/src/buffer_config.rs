//! Sizes of the export's bounded channels, scaled by the host's memory.

use vstd::prelude::*;
use std::time::Duration;
use sysinfo::System;

verus! {

/// One gibibyte, in bytes.
pub const GIB: u64 = 0x4000_0000;

/// `sysinfo::System`, the handle through which the host is asked; opaque here.
#[verifier::external_type_specification]
#[verifier::external_body]
pub struct ExSystem(System);

/// `sysinfo::System::new` makes a handle with nothing loaded; nothing is
/// claimed of it.
pub assume_specification[ System::new ]() -> (system: System);

/// `sysinfo::System::refresh_memory` reloads the memory figures; nothing is
/// claimed of the handle afterwards.
pub assume_specification[ System::refresh_memory ](system: &mut System);

/// `sysinfo::System::total_memory` gives the size of the RAM in bytes, which
/// depends on the machine: nothing is claimed of the number.
pub assume_specification[ System::total_memory ](system: &System) -> (bytes: u64);

/// The span of time that `Duration::from_secs` makes of a number of seconds.
pub uninterp spec fn duration_of_secs(secs: u64) -> Duration;

/// `std::time::Duration::from_secs` depends on its argument alone.
pub assume_specification[ Duration::from_secs ](secs: u64) -> (span: Duration)
    ensures
        span == duration_of_secs(secs),
;

/// How long the channels of an export are, and how long a send may wait.
pub struct ExportBufferConfig {
    pub rendered_frame_buffer: usize,
    pub encoder_input_buffer: usize,
    pub send_timeout: Duration,
}

impl ExportBufferConfig {
    /// The capacity of the channel of rendered frames on a host with
    /// `total_bytes` of memory: 64 from 32 GiB, 32 from 16 GiB, 16 from
    /// 8 GiB, else 8.
    pub open spec fn rendered_frames_for(total_bytes: u64) -> usize {
        if total_bytes >= 32 * GIB {
            64
        } else if total_bytes >= 16 * GIB {
            32
        } else if total_bytes >= 8 * GIB {
            16
        } else {
            8
        }
    }

    /// The configuration for a host with `total_bytes` of memory. The
    /// encoder's channel is half as long as the renderer's.
    pub fn for_total_memory(total_bytes: u64) -> (config: Self)
        ensures
            config.rendered_frame_buffer == Self::rendered_frames_for(total_bytes),
            config.encoder_input_buffer == Self::rendered_frames_for(total_bytes) / 2,
            config.send_timeout == duration_of_secs(5),
    {
        let rendered: usize = if total_bytes >= 32 * GIB {
            64
        } else if total_bytes >= 16 * GIB {
            32
        } else if total_bytes >= 8 * GIB {
            16
        } else {
            8
        };
        ExportBufferConfig {
            rendered_frame_buffer: rendered,
            encoder_input_buffer: rendered / 2,
            send_timeout: Duration::from_secs(5),
        }
    }

    /// The configuration for this host, from the memory it reports.
    pub fn for_current_system() -> (config: Self)
        ensures
            exists|total_bytes: u64|
                config.rendered_frame_buffer == #[trigger] Self::rendered_frames_for(total_bytes),
            config.encoder_input_buffer == config.rendered_frame_buffer / 2,
            config.send_timeout == duration_of_secs(5),
    {
        let total_bytes: u64 = get_total_memory();
        Self::for_total_memory(total_bytes)
    }
}

fn get_total_memory() -> (bytes: u64) {
    let mut sys = System::new();
    sys.refresh_memory();
    sys.total_memory()
}

} // verus!
