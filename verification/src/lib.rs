//! Vehicle telematics gateway core: CAN signal acquisition and decoding,
//! inter-process packet framing, and the pure decision logic of the
//! surrounding transport bindings.
use vstd::prelude::*;

pub mod catalog;
pub mod dbc;
pub mod decode;
pub mod errors;
pub mod icom;
pub mod index;
pub mod laws;
pub mod logging;
pub mod modem;
pub mod netinfo;
pub mod session;
pub mod spi;
pub mod syscfg;
pub mod wifi;

verus! {

/// Extended (29-bit) form of a CAN identifier.
pub open spec fn spec_extended_id(raw: u32) -> u32 {
    raw & 0x1FFF_FFFF
}

/// Normalize a raw CAN identifier to its extended 29-bit form.
pub fn extended_id(raw: u32) -> (r: u32)
    ensures
        r == spec_extended_id(raw),
{
    raw & 0x1FFF_FFFF
}

} // verus!
