//! Pure decision logic of the Wi-Fi tooling: device states, security
//! classification, and the textual address parsers.
use vstd::prelude::*;
use vstd::string::StringSliceAdditionalSpecFns;
use crate::dbc::{lemma_find_bounds, spec_all_digits, spec_digits_value, spec_find};

verus! {

/// The connection states a network device reports.
#[derive(Debug, Clone, Copy, PartialEq, Eq, Structural)]
pub enum DeviceState {
    Unknown,
    Unmanaged,
    Unavailable,
    Disconnected,
    Prepare,
    Config,
    NeedAuth,
    IPConfig,
    IPCheck,
    Secondaries,
    Activated,
    Deactivating,
    Failed,
}

/// The numeric code of each device state on the management bus.
pub open spec fn spec_device_state_code(s: DeviceState) -> u32 {
    match s {
        DeviceState::Unknown => 0,
        DeviceState::Unmanaged => 10,
        DeviceState::Unavailable => 20,
        DeviceState::Disconnected => 30,
        DeviceState::Prepare => 40,
        DeviceState::Config => 50,
        DeviceState::NeedAuth => 60,
        DeviceState::IPConfig => 70,
        DeviceState::IPCheck => 80,
        DeviceState::Secondaries => 90,
        DeviceState::Activated => 100,
        DeviceState::Deactivating => 110,
        DeviceState::Failed => 120,
    }
}

/// Which state a numeric code denotes; codes off the table denote none.
pub open spec fn spec_device_state_from(value: u32) -> Option<DeviceState> {
    if value == 0 {
        Some(DeviceState::Unknown)
    } else if value == 10 {
        Some(DeviceState::Unmanaged)
    } else if value == 20 {
        Some(DeviceState::Unavailable)
    } else if value == 30 {
        Some(DeviceState::Disconnected)
    } else if value == 40 {
        Some(DeviceState::Prepare)
    } else if value == 50 {
        Some(DeviceState::Config)
    } else if value == 60 {
        Some(DeviceState::NeedAuth)
    } else if value == 70 {
        Some(DeviceState::IPConfig)
    } else if value == 80 {
        Some(DeviceState::IPCheck)
    } else if value == 90 {
        Some(DeviceState::Secondaries)
    } else if value == 100 {
        Some(DeviceState::Activated)
    } else if value == 110 {
        Some(DeviceState::Deactivating)
    } else if value == 120 {
        Some(DeviceState::Failed)
    } else {
        None
    }
}

impl DeviceState {
    /// The state a numeric code denotes, if any.
    pub fn from_u32(value: u32) -> (r: Option<DeviceState>)
        ensures
            r == spec_device_state_from(value),
    {
        match value {
            0 => Some(DeviceState::Unknown),
            10 => Some(DeviceState::Unmanaged),
            20 => Some(DeviceState::Unavailable),
            30 => Some(DeviceState::Disconnected),
            40 => Some(DeviceState::Prepare),
            50 => Some(DeviceState::Config),
            60 => Some(DeviceState::NeedAuth),
            70 => Some(DeviceState::IPConfig),
            80 => Some(DeviceState::IPCheck),
            90 => Some(DeviceState::Secondaries),
            100 => Some(DeviceState::Activated),
            110 => Some(DeviceState::Deactivating),
            120 => Some(DeviceState::Failed),
            _ => None,
        }
    }

    /// The numeric code of this state.
    pub fn as_u32(&self) -> (r: u32)
        ensures
            r == spec_device_state_code(*self),
    {
        match self {
            DeviceState::Unknown => 0,
            DeviceState::Unmanaged => 10,
            DeviceState::Unavailable => 20,
            DeviceState::Disconnected => 30,
            DeviceState::Prepare => 40,
            DeviceState::Config => 50,
            DeviceState::NeedAuth => 60,
            DeviceState::IPConfig => 70,
            DeviceState::IPCheck => 80,
            DeviceState::Secondaries => 90,
            DeviceState::Activated => 100,
            DeviceState::Deactivating => 110,
            DeviceState::Failed => 120,
        }
    }
}

/// Round trip: every state comes back from its own code, and every code on
/// the table names the state that produced it.
pub proof fn lemma_device_state_round_trip(s: DeviceState, value: u32)
    ensures
        spec_device_state_from(spec_device_state_code(s)) == Some(s),
        spec_device_state_from(value) matches Some(t) ==> spec_device_state_code(t) == value,
{
}

/// The security classes of an access point.
#[derive(Debug, Clone, Copy, PartialEq, Eq, Structural)]
pub enum WifiSecurity {
    WifiSecOpen,
    WifiSecWep,
    WifiSecWpa,
    WifiSecWpa23,
}

/// An access point record assembled from scan results.
#[derive(Debug, PartialEq, Eq, Clone, Copy)]
pub struct WifiInfo {
    pub mac: [u8; 6],
    pub freq: u32,
    pub rssi: u8,
    pub security: WifiSecurity,
    pub ip4_addr: [u8; 4],
}

/// A stored network profile.
#[derive(Debug, PartialEq, Eq, Clone)]
pub struct WifiStoredInfo {
    pub created: String,
    pub security: WifiSecurity,
    pub psk: String,
    pub seen_bssid: Vec<String>,
}

/// The security class an access point's three flag words denote: any RSN
/// flag means WPA2/WPA3, else any WPA flag means WPA, else the privacy bit
/// means WEP, else the network is open.
pub open spec fn spec_security_from_flags(flags: u32, wpa_flags: u32, rsn_flags: u32)
    -> WifiSecurity {
    if rsn_flags != 0 {
        WifiSecurity::WifiSecWpa23
    } else if wpa_flags != 0 {
        WifiSecurity::WifiSecWpa
    } else if flags & 0x01 != 0 {
        WifiSecurity::WifiSecWep
    } else {
        WifiSecurity::WifiSecOpen
    }
}

/// Classify an access point by its three flag words.
pub fn security_from_flags(flags: u32, wpa_flags: u32, rsn_flags: u32) -> (r: WifiSecurity)
    ensures
        r == spec_security_from_flags(flags, wpa_flags, rsn_flags),
{
    if rsn_flags != 0 {
        WifiSecurity::WifiSecWpa23
    } else if wpa_flags != 0 {
        WifiSecurity::WifiSecWpa
    } else if flags & 0x01 != 0 {
        WifiSecurity::WifiSecWep
    } else {
        WifiSecurity::WifiSecOpen
    }
}

/// The key-management value `wpa-psk`, in bytes.
pub open spec fn spec_key_wpa_psk() -> Seq<u8> {
    seq![119u8, 112u8, 97u8, 45u8, 112u8, 115u8, 107u8]
}

/// The key-management value `wpa2-psk`, in bytes.
pub open spec fn spec_key_wpa2_psk() -> Seq<u8> {
    seq![119u8, 112u8, 97u8, 50u8, 45u8, 112u8, 115u8, 107u8]
}

/// The key-management value `none`, in bytes.
pub open spec fn spec_key_none() -> Seq<u8> {
    seq![110u8, 111u8, 110u8, 101u8]
}

/// The security class a stored profile's key-management entry denotes; a
/// missing security section is an open network, an unrecognized entry is
/// filed as WEP.
pub open spec fn spec_security_from_key_mgmt(key_mgmt: Option<Seq<u8>>) -> WifiSecurity {
    match key_mgmt {
        None => WifiSecurity::WifiSecOpen,
        Some(k) => {
            if k == spec_key_wpa_psk() {
                WifiSecurity::WifiSecWpa
            } else if k == spec_key_wpa2_psk() {
                WifiSecurity::WifiSecWpa23
            } else if k == spec_key_none() {
                WifiSecurity::WifiSecOpen
            } else {
                WifiSecurity::WifiSecWep
            }
        },
    }
}

fn is_key_wpa_psk(k: &[u8]) -> (r: bool)
    ensures
        r == (k@ =~= spec_key_wpa_psk()),
{
    k.len() == 7 && k[0] == 119 && k[1] == 112 && k[2] == 97 && k[3] == 45 && k[4] == 112 && k[5]
        == 115 && k[6] == 107
}

fn is_key_wpa2_psk(k: &[u8]) -> (r: bool)
    ensures
        r == (k@ =~= spec_key_wpa2_psk()),
{
    k.len() == 8 && k[0] == 119 && k[1] == 112 && k[2] == 97 && k[3] == 50 && k[4] == 45 && k[5]
        == 112 && k[6] == 115 && k[7] == 107
}

fn is_key_none(k: &[u8]) -> (r: bool)
    ensures
        r == (k@ =~= spec_key_none()),
{
    k.len() == 4 && k[0] == 110 && k[1] == 111 && k[2] == 110 && k[3] == 101
}

/// Classify a stored profile by its key-management entry (handed over as the
/// entry's bytes, or nothing when the profile has no security section).
pub fn security_from_key_mgmt(key_mgmt: Option<&[u8]>) -> (r: WifiSecurity)
    ensures
        r == spec_security_from_key_mgmt(
            match key_mgmt {
                Some(k) => Some(k@),
                None => None,
            },
        ),
{
    match key_mgmt {
        None => WifiSecurity::WifiSecOpen,
        Some(k) => {
            if is_key_wpa_psk(k) {
                WifiSecurity::WifiSecWpa
            } else if is_key_wpa2_psk(k) {
                WifiSecurity::WifiSecWpa23
            } else if is_key_none(k) {
                WifiSecurity::WifiSecOpen
            } else {
                WifiSecurity::WifiSecWep
            }
        },
    }
}

/// Splitting a byte sequence at every occurrence of `b`; empty pieces are
/// kept, and even an empty input yields one (empty) piece.
pub open spec fn spec_split(s: Seq<u8>, b: u8) -> Seq<Seq<u8>>
    decreases s.len(),
    when s.len() >= 0
    via spec_split_decreases
{
    let n = spec_find(s, b);
    if n == s.len() {
        seq![s]
    } else {
        seq![s.take(n)] + spec_split(s.skip(n + 1), b)
    }
}

#[via_fn]
proof fn spec_split_decreases(s: Seq<u8>, b: u8) {
    lemma_find_bounds(s, b);
}

/// Split a byte slice at every occurrence of `b`.
pub fn split_bytes(s: &[u8], b: u8) -> (r: Vec<Vec<u8>>)
    ensures
        r.deep_view() =~= spec_split(s@, b),
{
    let mut out: Vec<Vec<u8>> = Vec::new();
    let mut cur: Vec<u8> = Vec::new();
    let ghost mut part_start: int = 0;
    let mut i: usize = 0;
    proof {
        assert(s@.skip(0) =~= s@);
        assert(out.deep_view() =~~= Seq::<Seq<u8>>::empty());
        assert(Seq::<Seq<u8>>::empty() + spec_split(s@, b) =~= spec_split(s@, b));
    }
    while i < s.len()
        invariant
            0 <= part_start <= i as int <= s@.len(),
            cur@ =~= s@.subrange(part_start, i as int),
            forall|j: int| part_start <= j < i as int ==> s@[j] != b,
            spec_split(s@, b) =~= out.deep_view() + spec_split(s@.skip(part_start), b),
        decreases s@.len() - i,
    {
        if s[i] == b {
            proof {
                let rem = s@.skip(part_start);
                assert(forall|j: int|
                    0 <= j < i as int - part_start ==> rem[j] == s@[part_start + j] && rem[j] != b);
                assert(rem[i as int - part_start] == b);
                crate::dbc::lemma_find_unique(rem, b, i as int - part_start);
                assert(rem.take(i as int - part_start) =~= cur@);
                assert(rem.skip(i as int - part_start + 1) =~= s@.skip(i + 1));
                assert(spec_split(rem, b) =~= seq![cur@] + spec_split(s@.skip(i + 1), b));
            }
            let ghost old_out = out.deep_view();
            let ghost cur_view = cur@;
            out.push(cur);
            cur = Vec::new();
            i = i + 1;
            proof {
                part_start = i as int;
                assert(out.deep_view() =~~= old_out.push(cur_view));
            }
        } else {
            cur.push(s[i]);
            i = i + 1;
        }
    }
    proof {
        let rem = s@.skip(part_start);
        assert(forall|j: int| 0 <= j < rem.len() ==> rem[j] == s@[part_start + j] && rem[j] != b);
        crate::dbc::lemma_find_unique(rem, b, rem.len() as int);
        assert(rem =~= cur@);
        assert(spec_split(rem, b) =~= seq![cur@]);
    }
    let ghost old_out = out.deep_view();
    let ghost cur_view = cur@;
    out.push(cur);
    proof {
        assert(out.deep_view() =~~= old_out.push(cur_view));
    }
    out
}

/// A hexadecimal digit.
pub open spec fn spec_is_hex_digit(b: u8) -> bool {
    (48 <= b <= 57) || (97 <= b <= 102) || (65 <= b <= 70)
}

/// The value of a hexadecimal digit.
pub open spec fn spec_hex_digit_value(b: u8) -> int {
    if 48 <= b <= 57 {
        b - 48
    } else if 97 <= b <= 102 {
        b - 87
    } else {
        b - 55
    }
}

/// The numeric value of a hexadecimal string, most significant digit first.
pub open spec fn spec_hex_value(s: Seq<u8>) -> int
    decreases s.len(),
{
    if s.len() == 0 {
        0
    } else {
        spec_hex_value(s.drop_last()) * 16 + spec_hex_digit_value(s.last())
    }
}

/// A nonempty all-hexadecimal token whose value fits one byte.
pub open spec fn spec_parse_hex_digits(s: Seq<u8>) -> Option<u8> {
    if s.len() > 0 && (forall|i: int| 0 <= i < s.len() ==> spec_is_hex_digit(s[i]))
        && spec_hex_value(s) <= 255 {
        Some(spec_hex_value(s) as u8)
    } else {
        None
    }
}

/// What parsing one colon-separated part of a hardware address yields:
/// hexadecimal digits, after one tolerated leading plus sign, whose value
/// fits one byte — the same inputs the standard unsigned radix parser takes.
pub open spec fn spec_parse_hex_u8(s: Seq<u8>) -> Option<u8> {
    if s.len() > 0 && s[0] == 43 {
        spec_parse_hex_digits(s.drop_first())
    } else {
        spec_parse_hex_digits(s)
    }
}

fn hex_digit_value(b: u8) -> (r: Option<u8>)
    ensures
        (r is Some) == spec_is_hex_digit(b),
        r matches Some(v) ==> v == spec_hex_digit_value(b),
{
    if 48 <= b && b <= 57 {
        Some(b - 48)
    } else if 97 <= b && b <= 102 {
        Some(b - 87)
    } else if 65 <= b && b <= 70 {
        Some(b - 55)
    } else {
        None
    }
}

/// Parse one hexadecimal byte, tolerating one leading plus sign.
pub fn parse_hex_u8(s: &[u8]) -> (r: Option<u8>)
    ensures
        r == spec_parse_hex_u8(s@),
{
    if s.len() > 0 && s[0] == 43 {
        let body = &s[1..s.len()];
        proof {
            assert(body@ =~= s@.drop_first());
        }
        parse_hex_digits(body)
    } else {
        parse_hex_digits(s)
    }
}

fn parse_hex_digits(s: &[u8]) -> (r: Option<u8>)
    ensures
        r == spec_parse_hex_digits(s@),
{
    if s.len() == 0 {
        return None;
    }
    let mut acc: u32 = 0;
    let mut i: usize = 0;
    while i < s.len()
        invariant
            i <= s@.len(),
            s@.len() > 0,
            forall|j: int| 0 <= j < i ==> spec_is_hex_digit(s@[j]),
            acc == spec_hex_value(s@.take(i as int)),
            acc <= 255,
        decreases s@.len() - i,
    {
        let d = match hex_digit_value(s[i]) {
            Some(d) => d,
            None => {
                return None;
            },
        };
        proof {
            assert(s@.take(i + 1).drop_last() =~= s@.take(i as int));
            assert(s@.take(i + 1).last() == s@[i as int]);
        }
        let next: u32 = acc * 16 + (d as u32);
        if next > 255 {
            proof {
                if forall|j: int| 0 <= j < s@.len() ==> spec_is_hex_digit(s@[j]) {
                    lemma_hex_value_grows(s@, i + 1);
                }
            }
            return None;
        }
        acc = next;
        i = i + 1;
    }
    proof {
        assert(s@.take(s@.len() as int) =~= s@);
    }
    Some(acc as u8)
}

proof fn lemma_hex_value_nonneg(s: Seq<u8>)
    requires
        forall|i: int| 0 <= i < s.len() ==> spec_is_hex_digit(s[i]),
    ensures
        spec_hex_value(s) >= 0,
    decreases s.len(),
{
    if s.len() > 0 {
        assert(forall|i: int| 0 <= i < s.drop_last().len() ==> s.drop_last()[i] == s[i]);
        lemma_hex_value_nonneg(s.drop_last());
    }
}

proof fn lemma_hex_value_grows(s: Seq<u8>, i: int)
    requires
        0 <= i <= s.len(),
        forall|j: int| 0 <= j < s.len() ==> spec_is_hex_digit(s[j]),
    ensures
        spec_hex_value(s.take(i)) <= spec_hex_value(s),
    decreases s.len() - i,
{
    if i == s.len() {
        assert(s.take(i) =~= s);
    } else {
        lemma_hex_value_grows(s, i + 1);
        assert(s.take(i + 1).drop_last() =~= s.take(i));
        assert(s.take(i + 1).last() == s[i]);
        assert(spec_hex_value(s.take(i)) >= 0) by {
            assert(forall|j: int| 0 <= j < i ==> s.take(i)[j] == s[j]);
            lemma_hex_value_nonneg(s.take(i));
        }
        assert(spec_hex_digit_value(s[i]) >= 0);
    }
}

/// The six bytes of a colon-separated hardware address, when the text has
/// exactly six parts and every part is a hexadecimal byte.
pub open spec fn spec_mac_bytes(s: Seq<u8>) -> Option<Seq<u8>> {
    let parts = spec_split(s, 58);
    if parts.len() == 6 && (forall|i: int|
        0 <= i < 6 ==> #[trigger] spec_parse_hex_u8(parts[i]) is Some) {
        Some(Seq::new(6, |i: int| spec_parse_hex_u8(parts[i])->0))
    } else {
        None
    }
}

/// Parse a colon-separated hardware address into its six bytes.
pub fn mac_str_to_array(mac: &str) -> (r: Result<[u8; 6], &'static str>)
    ensures
        (r is Ok) == (spec_mac_bytes(mac.spec_bytes()) is Some),
        r matches Ok(a) ==> spec_mac_bytes(mac.spec_bytes()) == Some(a@),
        r matches Err(e) ==> e@ == "Invalid MAC address format"@,
{
    let parts = split_bytes(mac.as_bytes(), 58);
    let ghost sparts = spec_split(mac.spec_bytes(), 58);
    proof {
        assert(forall|k: int| 0 <= k < sparts.len() ==> sparts[k] =~= parts@[k].deep_view());
        assert(forall|k: int| 0 <= k < parts@.len() ==> parts@[k].deep_view() =~= parts@[k]@);
    }
    if parts.len() != 6 {
        return Err("Invalid MAC address format");
    }
    let mut mac_bytes = [0u8; 6];
    let mut i: usize = 0;
    while i < 6
        invariant
            i <= 6,
            parts@.len() == 6,
            sparts == spec_split(mac.spec_bytes(), 58),
            sparts.len() == 6,
            forall|k: int| 0 <= k < 6 ==> sparts[k] =~= parts@[k]@,
            mac_bytes@.len() == 6,
            forall|k: int| 0 <= k < i ==> #[trigger] spec_parse_hex_u8(sparts[k]) == Some(
                mac_bytes@[k],
            ),
        decreases 6 - i,
    {
        match parse_hex_u8(parts[i].as_slice()) {
            Some(v) => {
                mac_bytes[i] = v;
                proof {
                    assert(spec_parse_hex_u8(sparts[i as int]) == Some(v));
                }
            },
            None => {
                proof {
                    assert(spec_parse_hex_u8(sparts[i as int]) is None);
                }
                return Err("Invalid MAC address format");
            },
        }
        i = i + 1;
    }
    proof {
        assert(spec_mac_bytes(mac.spec_bytes()) == Some(mac_bytes@)) by {
            assert(forall|k: int|
                0 <= k < 6 ==> #[trigger] spec_parse_hex_u8(sparts[k]) is Some);
            assert(Seq::new(6, |k: int| spec_parse_hex_u8(sparts[k])->0) =~= mac_bytes@);
        }
    }
    Ok(mac_bytes)
}

/// One octet of a dotted-quad address: a nonempty all-decimal token without
/// a superfluous leading zero, whose value fits one byte.
pub open spec fn spec_ipv4_octet(p: Seq<u8>) -> Option<u8> {
    if spec_all_digits(p) && (p.len() == 1 || p[0] != 48) && spec_digits_value(p) <= 255 {
        Some(spec_digits_value(p) as u8)
    } else {
        None
    }
}

/// The four bytes a dotted-quad text denotes, or all zeroes when the text is
/// not a well-formed address.
pub open spec fn spec_ip_bytes(s: Seq<u8>) -> Seq<u8> {
    let parts = spec_split(s, 46);
    if parts.len() == 4 && (forall|i: int|
        0 <= i < 4 ==> #[trigger] spec_ipv4_octet(parts[i]) is Some) {
        Seq::new(4, |i: int| spec_ipv4_octet(parts[i])->0)
    } else {
        seq![0u8, 0u8, 0u8, 0u8]
    }
}

/// Parse a dotted-quad address; a malformed text yields all zeroes.
pub fn ip_to_bytes(ip_str: &str) -> (r: [u8; 4])
    ensures
        r@ =~= spec_ip_bytes(ip_str.spec_bytes()),
{
    let parts = split_bytes(ip_str.as_bytes(), 46);
    let ghost sparts = spec_split(ip_str.spec_bytes(), 46);
    proof {
        assert(forall|k: int| 0 <= k < sparts.len() ==> sparts[k] =~= parts@[k].deep_view());
        assert(forall|k: int| 0 <= k < parts@.len() ==> parts@[k].deep_view() =~= parts@[k]@);
    }
    if parts.len() != 4 {
        return [0u8; 4];
    }
    let mut out = [0u8; 4];
    let mut i: usize = 0;
    while i < 4
        invariant
            i <= 4,
            parts@.len() == 4,
            sparts == spec_split(ip_str.spec_bytes(), 46),
            sparts.len() == 4,
            forall|k: int| 0 <= k < 4 ==> sparts[k] =~= parts@[k]@,
            out@.len() == 4,
            forall|k: int| 0 <= k < i ==> #[trigger] spec_ipv4_octet(sparts[k]) == Some(out@[k]),
        decreases 4 - i,
    {
        let p = &parts[i];
        let v = match crate::dbc::parse_u32(p.as_slice()) {
            Some(v) => v,
            None => {
                proof {
                    assert(spec_ipv4_octet(sparts[i as int]) is None);
                }
                return [0u8; 4];
            },
        };
        proof {
            crate::dbc::lemma_parse_u32_value(sparts[i as int]);
        }
        if v > 255 || (p.len() > 1 && p[0] == 48) {
            proof {
                assert(spec_ipv4_octet(sparts[i as int]) is None);
            }
            return [0u8; 4];
        }
        out[i] = v as u8;
        proof {
            assert(spec_ipv4_octet(sparts[i as int]) == Some(v as u8));
        }
        i = i + 1;
    }
    proof {
        assert(spec_ip_bytes(ip_str.spec_bytes()) =~= out@) by {
            assert(forall|k: int| 0 <= k < 4 ==> #[trigger] spec_ipv4_octet(sparts[k]) is Some);
            assert(Seq::new(4, |k: int| spec_ipv4_octet(sparts[k])->0) =~= out@);
        }
    }
    out
}

/// Validate a connection request before it is handed to the network
/// manager: the network name must fit 32 bytes and the passphrase must hold
/// at least 8.
pub fn check_wifi_credentials(ssid: &str, password: &str) -> (r: Result<(), &'static str>)
    ensures
        (r is Ok) == (ssid.spec_bytes().len() <= 32 && password.spec_bytes().len() >= 8),
        r matches Err(e) ==> {
            &&& ssid.spec_bytes().len() > 32 ==> e@ == "SSID Invalid"@
            &&& (ssid.spec_bytes().len() <= 32 && password.spec_bytes().len() < 8) ==> e@
                == "Password invalid!"@
        },
{
    if ssid.as_bytes().len() > 32 {
        return Err("SSID Invalid");
    }
    if password.as_bytes().len() < 8 {
        return Err("Password invalid!");
    }
    Ok(())
}

} // verus!
