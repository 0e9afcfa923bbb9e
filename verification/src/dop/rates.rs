//! Standard DSD rates and the DoP PCM rates that carry them.

use vstd::prelude::*;

verus! {

/// DSD64: 2.8224 MHz (64 * 44.1 kHz).
pub const DSD64: u32 = 2_822_400;

/// DSD128: 5.6448 MHz (128 * 44.1 kHz).
pub const DSD128: u32 = 5_644_800;

/// DSD256: 11.2896 MHz (256 * 44.1 kHz).
pub const DSD256: u32 = 11_289_600;

/// DSD512: 22.5792 MHz (512 * 44.1 kHz).
pub const DSD512: u32 = 22_579_200;

/// DoP rate for DSD64: 176.4 kHz.
pub const DOP_DSD64: u32 = 176_400;

/// DoP rate for DSD128: 352.8 kHz.
pub const DOP_DSD128: u32 = 352_800;

/// DoP rate for DSD256: 705.6 kHz.
pub const DOP_DSD256: u32 = 705_600;

} // verus!
