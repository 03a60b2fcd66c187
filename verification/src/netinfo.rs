//! Connectivity status records and their wire codec.
//!
//! These records travel between processes as length-prefixed byte vectors.
//! Textual fields are carried as raw bytes; the signal level, a 32-bit float
//! on the wire, is carried as its bit pattern, so the codec is byte-exact.
use vstd::prelude::*;

verus! {

/// The four little-endian bytes of a 32-bit value.
pub open spec fn spec_u32_le_bytes(v: u32) -> Seq<u8> {
    seq![
        (v & 0xFF) as u8,
        ((v >> 8) & 0xFF) as u8,
        ((v >> 16) & 0xFF) as u8,
        ((v >> 24) & 0xFF) as u8,
    ]
}

/// The 32-bit value carried by four little-endian bytes.
pub open spec fn spec_u32_le(b0: u8, b1: u8, b2: u8, b3: u8) -> u32 {
    (b0 + b1 * 0x100 + b2 * 0x1_0000 + b3 * 0x100_0000) as u32
}

proof fn lemma_u32_le(b0: u8, b1: u8, b2: u8, b3: u8)
    ensures
        (b0 as u32) | ((b1 as u32) << 8) | ((b2 as u32) << 16) | ((b3 as u32) << 24)
            == spec_u32_le(b0, b1, b2, b3),
        spec_u32_le_bytes(spec_u32_le(b0, b1, b2, b3)) =~= seq![b0, b1, b2, b3],
{
    let v = spec_u32_le(b0, b1, b2, b3);
    assert((b0 as u32) | ((b1 as u32) << 8) | ((b2 as u32) << 16) | ((b3 as u32) << 24) == ((b0
        + b1 * 0x100 + b2 * 0x1_0000 + b3 * 0x100_0000) as u32) && ((b0 + b1 * 0x100 + b2
        * 0x1_0000 + b3 * 0x100_0000) as u32) & 0xFF == b0 && (((b0 + b1 * 0x100 + b2 * 0x1_0000
        + b3 * 0x100_0000) as u32) >> 8) & 0xFF == b1 && (((b0 + b1 * 0x100 + b2 * 0x1_0000 + b3
        * 0x100_0000) as u32) >> 16) & 0xFF == b2 && (((b0 + b1 * 0x100 + b2 * 0x1_0000 + b3
        * 0x100_0000) as u32) >> 24) & 0xFF == b3) by (bit_vector);
}

proof fn lemma_u32_le_split(v: u32)
    ensures
        spec_u32_le(
            (v & 0xFF) as u8,
            ((v >> 8) & 0xFF) as u8,
            ((v >> 16) & 0xFF) as u8,
            ((v >> 24) & 0xFF) as u8,
        ) == v,
{
    assert((((v & 0xFF) as u8) as u32) | (((((v >> 8) & 0xFF) as u8) as u32) << 8) | (((((v >> 16)
        & 0xFF) as u8) as u32) << 16) | (((((v >> 24) & 0xFF) as u8) as u32) << 24) == v)
        by (bit_vector);
    lemma_u32_le(
        (v & 0xFF) as u8,
        ((v >> 8) & 0xFF) as u8,
        ((v >> 16) & 0xFF) as u8,
        ((v >> 24) & 0xFF) as u8,
    );
}

/// Read a 32-bit little-endian value out of four bytes.
pub fn u32_from_le(b0: u8, b1: u8, b2: u8, b3: u8) -> (r: u32)
    ensures
        r == spec_u32_le(b0, b1, b2, b3),
        spec_u32_le_bytes(r) =~= seq![b0, b1, b2, b3],
{
    proof {
        lemma_u32_le(b0, b1, b2, b3);
    }
    (b0 as u32) | ((b1 as u32) << 8) | ((b2 as u32) << 16) | ((b3 as u32) << 24)
}

fn push_u32_le(out: &mut Vec<u8>, v: u32)
    ensures
        final(out)@ =~= old(out)@ + spec_u32_le_bytes(v),
{
    proof {
        assert((v & 0xFF) < 256 && ((v >> 8) & 0xFF) < 256 && ((v >> 16) & 0xFF) < 256 && ((v
            >> 24) & 0xFF) < 256) by (bit_vector);
    }
    out.push((v & 0xFF) as u8);
    out.push(((v >> 8) & 0xFF) as u8);
    out.push(((v >> 16) & 0xFF) as u8);
    out.push(((v >> 24) & 0xFF) as u8);
}

/// The Wi-Fi side of the system status.
#[derive(Debug, Clone)]
pub struct WifiInfo {
    /// Network name, as raw bytes; at most 255 of them fit the length prefix.
    pub ssid: Vec<u8>,
    pub mac: [u8; 6],
    /// Bit pattern of the 32-bit float signal level.
    pub signal: u32,
    pub ipv4: [u8; 4],
    pub ipv6: [u8; 8],
    /// Security level.
    pub sec: u8,
    pub internetable: bool,
}

/// A byte vector long enough to carry the Wi-Fi record its length prefix
/// announces.
pub open spec fn spec_wifi_parse_ok(b: Seq<u8>) -> bool {
    b.len() > 0 && b.len() >= 25 + b[0]
}

/// The Wi-Fi record carried at the front of a byte vector, field by field.
pub open spec fn spec_wifi_fields(w: WifiInfo, b: Seq<u8>) -> bool {
    let n = b[0] as int;
    &&& w.ssid@ =~= b.subrange(1, 1 + n)
    &&& w.mac@ =~= b.subrange(1 + n, 7 + n)
    &&& w.signal == spec_u32_le(b[7 + n], b[8 + n], b[9 + n], b[10 + n])
    &&& w.ipv4@ =~= b.subrange(11 + n, 15 + n)
    &&& w.ipv6@ =~= b.subrange(15 + n, 23 + n)
    &&& w.sec == b[23 + n]
    &&& w.internetable == (b[24 + n] != 0)
    &&& w.wf()
}

/// The serialized form of a Wi-Fi record: SSID length, SSID bytes, MAC,
/// little-endian signal bits, IPv4, IPv6, security, internet flag.
pub open spec fn spec_wifi_bytes(w: WifiInfo) -> Seq<u8> {
    seq![w.ssid@.len() as u8] + w.ssid@ + w.mac@ + spec_u32_le_bytes(w.signal) + w.ipv4@ + w.ipv6@
        + seq![w.sec, if w.internetable { 1u8 } else { 0u8 }]
}

impl WifiInfo {
    /// The SSID fits its one-byte length prefix.
    pub open spec fn wf(self) -> bool {
        self.ssid@.len() <= 255
    }

    /// An empty record.
    pub fn new() -> (r: Self)
        ensures
            r.ssid@ =~= Seq::<u8>::empty(),
            r.mac@ =~= Seq::new(6, |i: int| 0u8),
            r.signal == 0,
            r.ipv4@ =~= Seq::new(4, |i: int| 0u8),
            r.ipv6@ =~= Seq::new(8, |i: int| 0u8),
            r.sec == 0,
            !r.internetable,
            r.wf(),
    {
        WifiInfo {
            ssid: Vec::new(),
            mac: [0u8; 6],
            signal: 0,
            ipv4: [0u8; 4],
            ipv6: [0u8; 8],
            sec: 0,
            internetable: false,
        }
    }

    /// Deserialize a record. Fails on an empty input and on one shorter than
    /// its SSID length prefix implies.
    pub fn from_vec(bytes: &[u8]) -> (r: Result<Self, String>)
        ensures
            (r is Ok) == spec_wifi_parse_ok(bytes@),
            r matches Ok(w) ==> spec_wifi_fields(w, bytes@),
            r matches Err(e) ==> (bytes@.len() == 0 ==> e@ == "Input bytes are empty"@) && (
            bytes@.len() > 0 ==> e@ == "Invalid input byte length"@),
    {
        if bytes.len() == 0 {
            return Err("Input bytes are empty".to_owned());
        }
        let ssid_len = bytes[0] as usize;
        if bytes.len() < 25 + ssid_len {
            return Err("Invalid input byte length".to_owned());
        }

        let ssid = crate::dbc::copy_bytes(&bytes[1..1 + ssid_len]);
        let mut mac = [0u8; 6];
        let mut k: usize = 0;
        while k < 6
            invariant
                k <= 6,
                ssid_len <= 255,
                bytes@.len() >= 25 + ssid_len,
                mac@.len() == 6,
                forall|j: int| 0 <= j < k ==> mac@[j] == bytes@[1 + ssid_len + j],
            decreases 6 - k,
        {
            mac[k] = bytes[1 + ssid_len + k];
            k = k + 1;
        }
        let signal = u32_from_le(
            bytes[7 + ssid_len],
            bytes[8 + ssid_len],
            bytes[9 + ssid_len],
            bytes[10 + ssid_len],
        );
        let mut ipv4 = [0u8; 4];
        let mut k4: usize = 0;
        while k4 < 4
            invariant
                k4 <= 4,
                ssid_len <= 255,
                bytes@.len() >= 25 + ssid_len,
                ipv4@.len() == 4,
                forall|j: int| 0 <= j < k4 ==> ipv4@[j] == bytes@[11 + ssid_len + j],
            decreases 4 - k4,
        {
            ipv4[k4] = bytes[11 + ssid_len + k4];
            k4 = k4 + 1;
        }
        let mut ipv6 = [0u8; 8];
        let mut k6: usize = 0;
        while k6 < 8
            invariant
                k6 <= 8,
                ssid_len <= 255,
                bytes@.len() >= 25 + ssid_len,
                ipv6@.len() == 8,
                forall|j: int| 0 <= j < k6 ==> ipv6@[j] == bytes@[15 + ssid_len + j],
            decreases 8 - k6,
        {
            ipv6[k6] = bytes[15 + ssid_len + k6];
            k6 = k6 + 1;
        }
        let sec = bytes[23 + ssid_len];
        let internetable = bytes[24 + ssid_len] != 0;

        let w = WifiInfo { ssid, mac, signal, ipv4, ipv6, sec, internetable };
        proof {
            assert(w.ssid@ =~= bytes@.subrange(1, 1 + ssid_len as int));
            assert(w.mac@ =~= bytes@.subrange(1 + ssid_len as int, 7 + ssid_len as int));
            assert(w.ipv4@ =~= bytes@.subrange(11 + ssid_len as int, 15 + ssid_len as int));
            assert(w.ipv6@ =~= bytes@.subrange(15 + ssid_len as int, 23 + ssid_len as int));
        }
        Ok(w)
    }

    /// Serialize the record.
    pub fn to_vec(&self) -> (r: Vec<u8>)
        requires
            self.wf(),
        ensures
            r@ =~= spec_wifi_bytes(*self),
            r@.len() == 25 + self.ssid@.len(),
    {
        let mut bytes: Vec<u8> = Vec::new();
        bytes.push(self.ssid.len() as u8);
        let mut k: usize = 0;
        while k < self.ssid.len()
            invariant
                k <= self.ssid@.len(),
                bytes@ =~= seq![self.ssid@.len() as u8] + self.ssid@.take(k as int),
            decreases self.ssid@.len() - k,
        {
            proof {
                assert(self.ssid@.take(k + 1) =~= self.ssid@.take(k as int).push(
                    self.ssid@[k as int],
                ));
            }
            bytes.push(self.ssid[k]);
            k = k + 1;
        }
        proof {
            assert(self.ssid@.take(self.ssid@.len() as int) =~= self.ssid@);
        }
        let mut km: usize = 0;
        while km < 6
            invariant
                km <= 6,
                bytes@ =~= seq![self.ssid@.len() as u8] + self.ssid@ + self.mac@.take(km as int),
            decreases 6 - km,
        {
            proof {
                assert(self.mac@.take(km + 1) =~= self.mac@.take(km as int).push(
                    self.mac@[km as int],
                ));
            }
            bytes.push(self.mac[km]);
            km = km + 1;
        }
        proof {
            assert(self.mac@.take(6) =~= self.mac@);
        }
        push_u32_le(&mut bytes, self.signal);
        let mut k4: usize = 0;
        while k4 < 4
            invariant
                k4 <= 4,
                bytes@ =~= seq![self.ssid@.len() as u8] + self.ssid@ + self.mac@
                    + spec_u32_le_bytes(self.signal) + self.ipv4@.take(k4 as int),
            decreases 4 - k4,
        {
            proof {
                assert(self.ipv4@.take(k4 + 1) =~= self.ipv4@.take(k4 as int).push(
                    self.ipv4@[k4 as int],
                ));
            }
            bytes.push(self.ipv4[k4]);
            k4 = k4 + 1;
        }
        proof {
            assert(self.ipv4@.take(4) =~= self.ipv4@);
        }
        let mut k6: usize = 0;
        while k6 < 8
            invariant
                k6 <= 8,
                bytes@ =~= seq![self.ssid@.len() as u8] + self.ssid@ + self.mac@
                    + spec_u32_le_bytes(self.signal) + self.ipv4@ + self.ipv6@.take(k6 as int),
            decreases 8 - k6,
        {
            proof {
                assert(self.ipv6@.take(k6 + 1) =~= self.ipv6@.take(k6 as int).push(
                    self.ipv6@[k6 as int],
                ));
            }
            bytes.push(self.ipv6[k6]);
            k6 = k6 + 1;
        }
        proof {
            assert(self.ipv6@.take(8) =~= self.ipv6@);
        }
        bytes.push(self.sec);
        bytes.push(if self.internetable {
            1
        } else {
            0
        });
        proof {
            assert(bytes@ =~= spec_wifi_bytes(*self));
        }
        bytes
    }
}

/// Round trip: a well-formed Wi-Fi record deserializes from its own
/// serialization, field for field.
pub proof fn lemma_wifi_bytes_parse(w: WifiInfo)
    requires
        w.wf(),
    ensures
        ({
            let b = spec_wifi_bytes(w);
            let n = w.ssid@.len() as int;
            &&& b.len() == 25 + n
            &&& b[0] == n as u8
            &&& b.subrange(1, 1 + n) =~= w.ssid@
            &&& b.subrange(1 + n, 7 + n) =~= w.mac@
            &&& spec_u32_le(b[7 + n], b[8 + n], b[9 + n], b[10 + n]) == w.signal
            &&& b.subrange(11 + n, 15 + n) =~= w.ipv4@
            &&& b.subrange(15 + n, 23 + n) =~= w.ipv6@
            &&& b[23 + n] == w.sec
            &&& (b[24 + n] != 0) == w.internetable
        }),
{
    let b = spec_wifi_bytes(w);
    let n = w.ssid@.len() as int;
    lemma_u32_le_split(w.signal);
    assert(b.subrange(1, 1 + n) =~= w.ssid@);
    assert(b.subrange(1 + n, 7 + n) =~= w.mac@);
    assert(b[7 + n] == (w.signal & 0xFF) as u8);
    assert(b[8 + n] == ((w.signal >> 8) & 0xFF) as u8);
    assert(b[9 + n] == ((w.signal >> 16) & 0xFF) as u8);
    assert(b[10 + n] == ((w.signal >> 24) & 0xFF) as u8);
    assert(b.subrange(11 + n, 15 + n) =~= w.ipv4@);
    assert(b.subrange(15 + n, 23 + n) =~= w.ipv6@);
}

/// The cellular side of the system status.
#[derive(Debug, Clone)]
pub struct LteInfo {
    /// Operator name, as raw bytes; at most 255 of them fit the length prefix.
    pub ops: Vec<u8>,
    pub ipv4: [u8; 4],
    pub ipv6: [u8; 8],
    pub internetable: bool,
    /// Bit pattern of the 32-bit float signal level.
    pub signal: u32,
    pub gpslocked: bool,
}

/// A byte vector long enough to carry the cellular record its length prefix
/// announces.
pub open spec fn spec_lte_parse_ok(b: Seq<u8>) -> bool {
    b.len() > 0 && b.len() >= 19 + b[0]
}

/// The cellular record carried at the front of a byte vector, field by field.
pub open spec fn spec_lte_fields(l: LteInfo, b: Seq<u8>) -> bool {
    let n = b[0] as int;
    &&& l.ops@ =~= b.subrange(1, 1 + n)
    &&& l.ipv4@ =~= b.subrange(1 + n, 5 + n)
    &&& l.ipv6@ =~= b.subrange(5 + n, 13 + n)
    &&& l.internetable == (b[13 + n] != 0)
    &&& l.signal == spec_u32_le(b[14 + n], b[15 + n], b[16 + n], b[17 + n])
    &&& l.gpslocked == (b[18 + n] != 0)
    &&& l.wf()
}

/// The serialized form of a cellular record: operator length, operator
/// bytes, IPv4, IPv6, internet flag, little-endian signal bits, GPS flag.
pub open spec fn spec_lte_bytes(l: LteInfo) -> Seq<u8> {
    seq![l.ops@.len() as u8] + l.ops@ + l.ipv4@ + l.ipv6@ + seq![
        if l.internetable {
            1u8
        } else {
            0u8
        },
    ] + spec_u32_le_bytes(l.signal) + seq![
        if l.gpslocked {
            1u8
        } else {
            0u8
        },
    ]
}

impl LteInfo {
    /// The operator name fits its one-byte length prefix.
    pub open spec fn wf(self) -> bool {
        self.ops@.len() <= 255
    }

    /// An empty record.
    pub fn new() -> (r: Self)
        ensures
            r.ops@ =~= Seq::<u8>::empty(),
            r.ipv4@ =~= Seq::new(4, |i: int| 0u8),
            r.ipv6@ =~= Seq::new(8, |i: int| 0u8),
            !r.internetable,
            r.signal == 0,
            !r.gpslocked,
            r.wf(),
    {
        LteInfo {
            ops: Vec::new(),
            ipv4: [0u8; 4],
            ipv6: [0u8; 8],
            internetable: false,
            signal: 0,
            gpslocked: false,
        }
    }

    /// Deserialize a record. Fails on an empty input and on one shorter than
    /// its operator length prefix implies.
    pub fn from_vec(bytes: &[u8]) -> (r: Result<Self, String>)
        ensures
            (r is Ok) == spec_lte_parse_ok(bytes@),
            r matches Ok(l) ==> spec_lte_fields(l, bytes@),
            r matches Err(e) ==> (bytes@.len() == 0 ==> e@ == "Input bytes are empty"@) && (
            bytes@.len() > 0 ==> e@ == "Invalid input byte length"@),
    {
        if bytes.len() == 0 {
            return Err("Input bytes are empty".to_owned());
        }
        let ops_len = bytes[0] as usize;
        if bytes.len() < 19 + ops_len {
            return Err("Invalid input byte length".to_owned());
        }

        let ops = crate::dbc::copy_bytes(&bytes[1..1 + ops_len]);
        let mut ipv4 = [0u8; 4];
        let mut k4: usize = 0;
        while k4 < 4
            invariant
                k4 <= 4,
                ops_len <= 255,
                bytes@.len() >= 19 + ops_len,
                ipv4@.len() == 4,
                forall|j: int| 0 <= j < k4 ==> ipv4@[j] == bytes@[1 + ops_len + j],
            decreases 4 - k4,
        {
            ipv4[k4] = bytes[1 + ops_len + k4];
            k4 = k4 + 1;
        }
        let mut ipv6 = [0u8; 8];
        let mut k6: usize = 0;
        while k6 < 8
            invariant
                k6 <= 8,
                ops_len <= 255,
                bytes@.len() >= 19 + ops_len,
                ipv6@.len() == 8,
                forall|j: int| 0 <= j < k6 ==> ipv6@[j] == bytes@[5 + ops_len + j],
            decreases 8 - k6,
        {
            ipv6[k6] = bytes[5 + ops_len + k6];
            k6 = k6 + 1;
        }
        let internetable = bytes[13 + ops_len] != 0;
        let signal = u32_from_le(
            bytes[14 + ops_len],
            bytes[15 + ops_len],
            bytes[16 + ops_len],
            bytes[17 + ops_len],
        );
        let gpslocked = bytes[18 + ops_len] != 0;

        let l = LteInfo { ops, ipv4, ipv6, internetable, signal, gpslocked };
        proof {
            assert(l.ops@ =~= bytes@.subrange(1, 1 + ops_len as int));
            assert(l.ipv4@ =~= bytes@.subrange(1 + ops_len as int, 5 + ops_len as int));
            assert(l.ipv6@ =~= bytes@.subrange(5 + ops_len as int, 13 + ops_len as int));
        }
        Ok(l)
    }

    /// Serialize the record.
    pub fn to_vec(&self) -> (r: Vec<u8>)
        requires
            self.wf(),
        ensures
            r@ =~= spec_lte_bytes(*self),
            r@.len() == 19 + self.ops@.len(),
    {
        let mut bytes: Vec<u8> = Vec::new();
        bytes.push(self.ops.len() as u8);
        let mut k: usize = 0;
        while k < self.ops.len()
            invariant
                k <= self.ops@.len(),
                bytes@ =~= seq![self.ops@.len() as u8] + self.ops@.take(k as int),
            decreases self.ops@.len() - k,
        {
            proof {
                assert(self.ops@.take(k + 1) =~= self.ops@.take(k as int).push(
                    self.ops@[k as int],
                ));
            }
            bytes.push(self.ops[k]);
            k = k + 1;
        }
        proof {
            assert(self.ops@.take(self.ops@.len() as int) =~= self.ops@);
        }
        let mut k4: usize = 0;
        while k4 < 4
            invariant
                k4 <= 4,
                bytes@ =~= seq![self.ops@.len() as u8] + self.ops@ + self.ipv4@.take(k4 as int),
            decreases 4 - k4,
        {
            proof {
                assert(self.ipv4@.take(k4 + 1) =~= self.ipv4@.take(k4 as int).push(
                    self.ipv4@[k4 as int],
                ));
            }
            bytes.push(self.ipv4[k4]);
            k4 = k4 + 1;
        }
        proof {
            assert(self.ipv4@.take(4) =~= self.ipv4@);
        }
        let mut k6: usize = 0;
        while k6 < 8
            invariant
                k6 <= 8,
                bytes@ =~= seq![self.ops@.len() as u8] + self.ops@ + self.ipv4@ + self.ipv6@.take(
                    k6 as int,
                ),
            decreases 8 - k6,
        {
            proof {
                assert(self.ipv6@.take(k6 + 1) =~= self.ipv6@.take(k6 as int).push(
                    self.ipv6@[k6 as int],
                ));
            }
            bytes.push(self.ipv6[k6]);
            k6 = k6 + 1;
        }
        proof {
            assert(self.ipv6@.take(8) =~= self.ipv6@);
        }
        bytes.push(
            if self.internetable {
                1
            } else {
                0
            },
        );
        push_u32_le(&mut bytes, self.signal);
        bytes.push(
            if self.gpslocked {
                1
            } else {
                0
            },
        );
        proof {
            assert(bytes@ =~= spec_lte_bytes(*self));
        }
        bytes
    }
}

/// The whole system status record.
#[derive(Debug, Clone)]
pub struct SysInfo {
    pub req: u32,
    pub wifi_enable: u8,
    pub lte_enable: u8,
    pub gps_enable: u8,
    pub track_enable: u8,
    pub wifi_info: WifiInfo,
    pub lte_info: LteInfo,
}

/// The serialized form of the whole record: little-endian request word, the
/// four enable flags, then the Wi-Fi and cellular records.
pub open spec fn spec_sysinfo_bytes(s: SysInfo) -> Seq<u8> {
    spec_u32_le_bytes(s.req) + seq![s.wifi_enable, s.lte_enable, s.gps_enable, s.track_enable]
        + spec_wifi_bytes(s.wifi_info) + spec_lte_bytes(s.lte_info)
}

impl SysInfo {
    /// Both embedded records fit their length prefixes.
    pub open spec fn wf(self) -> bool {
        self.wifi_info.wf() && self.lte_info.wf()
    }

    /// A fresh record: everything enabled, both sub-records empty.
    pub fn new() -> (r: Self)
        ensures
            r.req == 0,
            r.wifi_enable == 1,
            r.lte_enable == 1,
            r.gps_enable == 1,
            r.track_enable == 1,
            r.wifi_info.ssid@.len() == 0,
            r.lte_info.ops@.len() == 0,
            r.wf(),
    {
        SysInfo {
            req: 0,
            wifi_enable: 1,
            lte_enable: 1,
            gps_enable: 1,
            track_enable: 1,
            wifi_info: WifiInfo::new(),
            lte_info: LteInfo::new(),
        }
    }

    /// Deserialize the whole record: header, then the Wi-Fi record, then the
    /// cellular record right behind it.
    pub fn from_vec(bytes: &[u8]) -> (r: Result<Self, String>)
        ensures
            (r is Ok) == (bytes@.len() >= 8 && spec_wifi_parse_ok(bytes@.skip(8)) && (
            spec_lte_parse_ok(bytes@.skip(8 + 25 + bytes@[8])))),
            r matches Ok(s) ==> ({
                &&& s.req == spec_u32_le(bytes@[0], bytes@[1], bytes@[2], bytes@[3])
                &&& s.wifi_enable == bytes@[4]
                &&& s.lte_enable == bytes@[5]
                &&& s.gps_enable == bytes@[6]
                &&& s.track_enable == bytes@[7]
                &&& spec_wifi_fields(s.wifi_info, bytes@.skip(8))
                &&& spec_lte_fields(s.lte_info, bytes@.skip(8 + 25 + bytes@[8]))
                &&& s.wf()
            }),
            r matches Err(e) ==> (bytes@.len() < 8 ==> e@ == "Input byte slice is too short"@),
    {
        if bytes.len() < 8 {
            return Err("Input byte slice is too short".to_owned());
        }

        let req = u32_from_le(bytes[0], bytes[1], bytes[2], bytes[3]);
        let wifi_enable = bytes[4];
        let lte_enable = bytes[5];
        let gps_enable = bytes[6];
        let track_enable = bytes[7];

        let wifi_rest = &bytes[8..bytes.len()];
        proof {
            assert(wifi_rest@ =~= bytes@.skip(8));
        }
        let wifi_info = match WifiInfo::from_vec(wifi_rest) {
            Ok(w) => w,
            Err(_) => {
                return Err("Failed to parse WifiInfo".to_owned());
            },
        };

        let lte_start = 8 + 25 + wifi_rest[0] as usize;
        let lte_rest = &bytes[lte_start..bytes.len()];
        proof {
            assert(lte_rest@ =~= bytes@.skip(8 + 25 + bytes@[8]));
        }
        let lte_info = match LteInfo::from_vec(lte_rest) {
            Ok(l) => l,
            Err(_) => {
                return Err("Failed to parse LteInfo".to_owned());
            },
        };

        Ok(SysInfo { req, wifi_enable, lte_enable, gps_enable, track_enable, wifi_info, lte_info })
    }

    /// Serialize the whole record.
    pub fn to_vec(&self) -> (r: Vec<u8>)
        requires
            self.wf(),
        ensures
            r@ =~= spec_sysinfo_bytes(*self),
    {
        let mut bytes: Vec<u8> = Vec::new();
        push_u32_le(&mut bytes, self.req);
        bytes.push(self.wifi_enable);
        bytes.push(self.lte_enable);
        bytes.push(self.gps_enable);
        bytes.push(self.track_enable);
        let ghost header = bytes@;
        let mut wv = self.wifi_info.to_vec();
        let ghost wbytes = wv@;
        let mut k: usize = 0;
        while k < wv.len()
            invariant
                k <= wv@.len(),
                wv@ == wbytes,
                bytes@ =~= header + wbytes.take(k as int),
            decreases wv@.len() - k,
        {
            proof {
                assert(wbytes.take(k + 1) =~= wbytes.take(k as int).push(wbytes[k as int]));
            }
            bytes.push(wv[k]);
            k = k + 1;
        }
        proof {
            assert(wbytes.take(wbytes.len() as int) =~= wbytes);
        }
        let lv = self.lte_info.to_vec();
        let ghost lbytes = lv@;
        let ghost header2 = bytes@;
        let mut k2: usize = 0;
        while k2 < lv.len()
            invariant
                k2 <= lv@.len(),
                lv@ == lbytes,
                bytes@ =~= header2 + lbytes.take(k2 as int),
            decreases lv@.len() - k2,
        {
            proof {
                assert(lbytes.take(k2 + 1) =~= lbytes.take(k2 as int).push(lbytes[k2 as int]));
            }
            bytes.push(lv[k2]);
            k2 = k2 + 1;
        }
        proof {
            assert(lbytes.take(lbytes.len() as int) =~= lbytes);
            assert(bytes@ =~= spec_sysinfo_bytes(*self));
        }
        bytes
    }

    /// The Wi-Fi enable flag.
    pub fn get_wifi_cfg(&self) -> (r: u8)
        ensures
            r == self.wifi_enable,
    {
        self.wifi_enable
    }

    /// The cellular enable flag.
    pub fn get_lte_cfg(&self) -> (r: u8)
        ensures
            r == self.lte_enable,
    {
        self.lte_enable
    }

    /// The GPS enable flag.
    pub fn get_gps_cfg(&self) -> (r: u8)
        ensures
            r == self.gps_enable,
    {
        self.gps_enable
    }

    /// Set the Wi-Fi flag from a float control value, given as its bit
    /// pattern: enabled exactly when the value is not (positive or negative)
    /// zero.
    pub fn set_wifi_cfg(&mut self, val: u32)
        ensures
            *final(self) == (SysInfo {
                wifi_enable: if val & 0x7FFF_FFFF != 0 {
                    1u8
                } else {
                    0u8
                },
                ..*old(self)
            }),
    {
        self.wifi_enable = if val & 0x7FFF_FFFF != 0 {
            1
        } else {
            0
        };
    }

    /// Set the cellular flag from a float control value, given as its bit
    /// pattern.
    pub fn set_lte_cfg(&mut self, val: u32)
        ensures
            *final(self) == (SysInfo {
                lte_enable: if val & 0x7FFF_FFFF != 0 {
                    1u8
                } else {
                    0u8
                },
                ..*old(self)
            }),
    {
        self.lte_enable = if val & 0x7FFF_FFFF != 0 {
            1
        } else {
            0
        };
    }

    /// Set the GPS flag from a float control value, given as its bit pattern.
    pub fn set_gps_cfg(&mut self, val: u32)
        ensures
            *final(self) == (SysInfo {
                gps_enable: if val & 0x7FFF_FFFF != 0 {
                    1u8
                } else {
                    0u8
                },
                ..*old(self)
            }),
    {
        self.gps_enable = if val & 0x7FFF_FFFF != 0 {
            1
        } else {
            0
        };
    }

    /// Replace the cellular record.
    pub fn update_lte_info(&mut self, new_info: LteInfo)
        ensures
            *final(self) == (SysInfo { lte_info: new_info, ..*old(self) }),
    {
        self.lte_info = new_info;
    }

    /// Replace the Wi-Fi record.
    pub fn update_wifi_info(&mut self, new_info: WifiInfo)
        ensures
            *final(self) == (SysInfo { wifi_info: new_info, ..*old(self) }),
    {
        self.wifi_info = new_info;
    }

    /// A copy of the Wi-Fi record.
    pub fn get_wifi_info(&self) -> (r: WifiInfo)
        ensures
            r.ssid@ == self.wifi_info.ssid@,
            r.mac == self.wifi_info.mac,
            r.signal == self.wifi_info.signal,
            r.ipv4 == self.wifi_info.ipv4,
            r.ipv6 == self.wifi_info.ipv6,
            r.sec == self.wifi_info.sec,
            r.internetable == self.wifi_info.internetable,
    {
        WifiInfo {
            ssid: crate::dbc::copy_bytes(self.wifi_info.ssid.as_slice()),
            mac: self.wifi_info.mac,
            signal: self.wifi_info.signal,
            ipv4: self.wifi_info.ipv4,
            ipv6: self.wifi_info.ipv6,
            sec: self.wifi_info.sec,
            internetable: self.wifi_info.internetable,
        }
    }

    /// A copy of the cellular record.
    pub fn get_lte_info(&self) -> (r: LteInfo)
        ensures
            r.ops@ == self.lte_info.ops@,
            r.ipv4 == self.lte_info.ipv4,
            r.ipv6 == self.lte_info.ipv6,
            r.internetable == self.lte_info.internetable,
            r.signal == self.lte_info.signal,
            r.gpslocked == self.lte_info.gpslocked,
    {
        LteInfo {
            ops: crate::dbc::copy_bytes(self.lte_info.ops.as_slice()),
            ipv4: self.lte_info.ipv4,
            ipv6: self.lte_info.ipv6,
            internetable: self.lte_info.internetable,
            signal: self.lte_info.signal,
            gpslocked: self.lte_info.gpslocked,
        }
    }

    /// Whether the Wi-Fi link reports internet access.
    pub fn is_wifi_internet_access(&self) -> (r: bool)
        ensures
            r == self.wifi_info.internetable,
    {
        self.wifi_info.internetable
    }

    /// Whether the cellular link reports internet access.
    pub fn is_lte_internet_access(&self) -> (r: bool)
        ensures
            r == self.lte_info.internetable,
    {
        self.lte_info.internetable
    }
}

} // verus!
