//! Documented software-only idle estimates. These are not real sensors; their
//! provenance is always the software fallback.

use vstd::prelude::*;

verus! {

/// Pattern of 35 °C, a typical idle die temperature.
pub const GPU_TEMP_C: u32 = 0x420c_0000;

/// Pattern of 25 W.
pub const POWER_W: u32 = 0x41c8_0000;

/// Pattern of 0.7 V.
pub const VDDCR_GFX_V: u32 = 0x3f33_3333;

/// Pattern of 210 MHz.
pub const GPU_CLOCK_MHZ: u32 = 0x4352_0000;

/// Pattern of 405 MHz.
pub const MEM_CLOCK_MHZ: u32 = 0x43ca_8000;

/// Pattern of 30 %.
pub const FAN_SPEED_PCT: u32 = 0x41f0_0000;

/// Pattern of a legitimate idle utilization of 0 %, distinct from missing.
pub const MEM_UTIL_PCT: u32 = 0;

} // verus!
