//! Framing codec for the inter-process message channel.
//!
//! A packet carries a 16-bit payload length (little endian), a fixed
//! 256-byte payload area divided into 128-byte function slots, and a one-byte
//! CRC. The CRC covers the two length bytes followed by the first
//! `payload_len` payload bytes, except in [`IONICOMPacketType::new_from`],
//! which seals the whole padded payload area.
use vstd::prelude::*;

verus! {

/// One round of the CRC-8 polynomial 0x07, most significant bit first.
pub open spec fn spec_crc8_round(x: u8) -> u8 {
    if x & 0x80 != 0 {
        (x << 1) ^ 0x07
    } else {
        x << 1
    }
}

/// `n` rounds of the CRC-8 polynomial.
pub open spec fn spec_crc8_rounds(x: u8, n: nat) -> u8
    decreases n,
{
    if n == 0 {
        x
    } else {
        spec_crc8_round(spec_crc8_rounds(x, (n - 1) as nat))
    }
}

/// Folding one byte into the running CRC-8 value.
pub open spec fn spec_crc8_byte(crc: u8, byte: u8) -> u8 {
    spec_crc8_rounds(crc ^ byte, 8)
}

/// CRC-8 of `s` continued from the running value `crc`.
pub open spec fn spec_crc8_from(crc: u8, s: Seq<u8>) -> u8
    decreases s.len(),
{
    if s.len() == 0 {
        crc
    } else {
        spec_crc8_from(spec_crc8_byte(crc, s[0]), s.drop_first())
    }
}

/// CRC-8 (polynomial 0x07, initial value 0) of a byte sequence.
pub open spec fn spec_crc8(s: Seq<u8>) -> u8 {
    spec_crc8_from(0, s)
}

/// The two little-endian bytes of a 16-bit length field.
pub open spec fn spec_len_bytes(len: u16) -> Seq<u8> {
    seq![(len & 0xFF) as u8, (len >> 8) as u8]
}

proof fn lemma_crc8_from_push(crc: u8, s: Seq<u8>, b: u8)
    ensures
        spec_crc8_from(crc, s.push(b)) == spec_crc8_byte(spec_crc8_from(crc, s), b),
    decreases s.len(),
{
    if s.len() == 0 {
        assert(s.push(b)[0] == b);
        assert(s.push(b).drop_first() =~= Seq::<u8>::empty());
        assert(spec_crc8_from(spec_crc8_byte(crc, b), Seq::<u8>::empty()) == spec_crc8_byte(
            crc,
            b,
        ));
        assert(spec_crc8_from(crc, s) == crc);
    } else {
        assert(s.push(b)[0] == s[0]);
        assert(s.push(b).drop_first() =~= s.drop_first().push(b));
        lemma_crc8_from_push(spec_crc8_byte(crc, s[0]), s.drop_first(), b);
    }
}

fn crc8_byte(crc: u8, byte: u8) -> (r: u8)
    ensures
        r == spec_crc8_byte(crc, byte),
{
    let mut x: u8 = crc ^ byte;
    let mut k: usize = 0;
    while k < 8
        invariant
            k <= 8,
            x == spec_crc8_rounds(crc ^ byte, k as nat),
        decreases 8 - k,
    {
        x = if x & 0x80 != 0 {
            (x << 1) ^ 0x07
        } else {
            x << 1
        };
        k = k + 1;
    }
    x
}

fn push_len_bytes(buf: &mut Vec<u8>, len: u16)
    ensures
        final(buf)@ =~= old(buf)@ + spec_len_bytes(len),
{
    proof {
        assert((len & 0xFF) < 256 && (len >> 8) < 256) by (bit_vector);
    }
    buf.push((len & 0xFF) as u8);
    buf.push((len >> 8) as u8);
}

/// CRC-8 over a byte slice.
pub fn crc8(msg: &[u8]) -> (r: u8)
    ensures
        r == spec_crc8(msg@),
{
    let mut crc: u8 = 0;
    let mut i: usize = 0;
    while i < msg.len()
        invariant
            i <= msg@.len(),
            crc == spec_crc8_from(0, msg@.take(i as int)),
        decreases msg@.len() - i,
    {
        proof {
            lemma_crc8_from_push(0, msg@.take(i as int), msg@[i as int]);
            assert(msg@.take(i + 1) =~= msg@.take(i as int).push(msg@[i as int]));
        }
        crc = crc8_byte(crc, msg[i]);
        i = i + 1;
    }
    proof {
        assert(msg@.take(msg@.len() as int) =~= msg@);
    }
    crc
}

/// A framed inter-process packet: length, fixed payload area, CRC.
#[derive(Debug, Clone, PartialEq, Eq)]
pub struct IONICOMPacketType {
    payload_len: u16,
    payload: [u8; 256],
    crc: u8,
}

impl IONICOMPacketType {
    /// Well-formedness: the declared payload length never exceeds the payload
    /// area. Every constructor of this module establishes it.
    pub open spec fn wf(self) -> bool {
        self.spec_payload_len() <= 256
    }

    /// The declared payload length.
    pub closed spec fn spec_payload_len(self) -> u16 {
        self.payload_len
    }

    /// The whole 256-byte payload area.
    pub closed spec fn spec_payload(self) -> Seq<u8> {
        self.payload@
    }

    /// The stored CRC byte.
    pub closed spec fn spec_crc(self) -> u8 {
        self.crc
    }

    /// The bytes covered by the stored CRC: the length field followed by the
    /// declared payload prefix.
    pub open spec fn spec_crc_input(self) -> Seq<u8> {
        spec_len_bytes(self.spec_payload_len()) + self.spec_payload().take(
            self.spec_payload_len() as int,
        )
    }

    /// Build a packet from transmit data, zero-padding the payload area and
    /// sealing the length field plus the whole padded area with CRC-8.
    pub fn new_from(txdata: Vec<u8>) -> (r: Self)
        requires
            txdata@.len() <= 256,
        ensures
            r.spec_payload_len() == txdata@.len(),
            r.spec_payload() =~= txdata@ + Seq::new((256 - txdata@.len()) as nat, |i: int| 0u8),
            r.spec_crc() == spec_crc8(spec_len_bytes(txdata@.len() as u16) + r.spec_payload()),
    {
        let mut payload = [0u8; 256];
        let mut i: usize = 0;
        while i < txdata.len()
            invariant
                txdata@.len() <= 256,
                i <= txdata@.len(),
                payload@.len() == 256,
                forall|j: int| 0 <= j < i ==> payload@[j] == txdata@[j],
                forall|j: int| i <= j < 256 ==> payload@[j] == 0u8,
            decreases txdata@.len() - i,
        {
            payload[i] = txdata[i];
            i = i + 1;
        }
        let payload_len: u16 = txdata.len() as u16;

        let mut crc_buffer: Vec<u8> = Vec::new();
        push_len_bytes(&mut crc_buffer, payload_len);
        let mut j: usize = 0;
        while j < 256
            invariant
                j <= 256,
                payload@.len() == 256,
                crc_buffer@ =~= spec_len_bytes(payload_len) + payload@.take(j as int),
            decreases 256 - j,
        {
            crc_buffer.push(payload[j]);
            proof {
                assert(payload@.take(j + 1) =~= payload@.take(j as int).push(payload@[j as int]));
            }
            j = j + 1;
        }
        proof {
            assert(payload@.take(256) =~= payload@);
        }
        let crc = crc8(crc_buffer.as_slice());

        IONICOMPacketType { payload_len, payload, crc }
    }

    /// An all-zero placeholder packet.
    pub fn new_dummy() -> (r: Self)
        ensures
            r.spec_payload_len() == 0,
            r.spec_payload() =~= Seq::new(256, |i: int| 0u8),
            r.spec_crc() == 0,
    {
        IONICOMPacketType { payload_len: 0, payload: [0u8; 256], crc: 0 }
    }

    /// True when the packet is the placeholder, that is, declares no payload.
    pub fn is_dummy(&self) -> (r: bool)
        ensures
            r == (self.spec_payload_len() == 0),
    {
        self.payload_len == 0
    }

    /// Extract one 128-byte function slot; fails when the slot lies beyond the
    /// declared payload or its first byte is zero.
    pub fn get_func(&self, fncode: u8) -> (r: Result<Vec<u8>, &'static str>)
        requires
            self.wf(),
        ensures
            ({
                let start = fncode as int * 128;
                let end = start + 128;
                &&& (r is Ok <==> end <= self.spec_payload_len()
                    && self.spec_payload()[start] != 0)
                &&& (r matches Ok(v) ==> v@ =~= self.spec_payload().subrange(start, end))
                &&& (r matches Err(m) ==> {
                    &&& end > self.spec_payload_len() ==> m@ == "Function code out of bounds"@
                    &&& (end <= self.spec_payload_len() && self.spec_payload()[start] == 0)
                        ==> m@ == "Function code fncode empty"@
                })
            }),
    {
        let start = (fncode as usize) * 128;
        let end = start + 128;

        if end > self.payload_len as usize || start >= self.payload_len as usize {
            return Err("Function code out of bounds");
        }
        if self.payload[start] != 0 {
            let mut func_data: Vec<u8> = Vec::new();
            let mut i: usize = start;
            while i < end
                invariant
                    start <= i <= end,
                    end <= self.spec_payload().len(),
                    func_data@ =~= self.spec_payload().subrange(start as int, i as int),
                decreases end - i,
            {
                func_data.push(self.payload[i]);
                i = i + 1;
            }
            Ok(func_data)
        } else {
            Err("Function code fncode empty")
        }
    }

    /// Write data into one function slot, declare the full payload area in
    /// use, and reseal the CRC; fails when the data does not fit its slot or
    /// the payload area.
    pub fn set_func(&mut self, fncode: u8, data: Vec<u8>) -> (r: Result<(), &'static str>)
        ensures
            ({
                let start = fncode as int * 128;
                let end = start + data@.len();
                &&& (r is Ok <==> end <= 256 && data@.len() <= 128)
                &&& (r matches Ok(_) ==> {
                    &&& final(self).spec_payload_len() == 256
                    &&& final(self).spec_payload() =~= old(self).spec_payload().subrange(0, start)
                        + data@ + old(self).spec_payload().subrange(end, 256)
                    &&& final(self).spec_crc() == spec_crc8(final(self).spec_crc_input())
                })
                &&& (r matches Err(m) ==> *final(self) == *old(self)
                    && m@ == "Data exceeds function or payload bounds"@)
            }),
    {
        let start = (fncode as usize) * 128;
        if data.len() > 128 || start + data.len() > 256 {
            return Err("Data exceeds function or payload bounds");
        }
        let end = start + data.len();

        let mut k: usize = 0;
        while k < data.len()
            invariant
                k <= data@.len(),
                start + data@.len() <= 256,
                end == start + data@.len(),
                self.spec_payload().len() == 256,
                self.spec_payload_len() == old(self).spec_payload_len(),
                self.spec_crc() == old(self).spec_crc(),
                forall|j: int| 0 <= j < start ==> self.spec_payload()[j]
                    == old(self).spec_payload()[j],
                forall|j: int| start <= j < start + k ==> self.spec_payload()[j]
                    == data@[j - start],
                forall|j: int| start + k <= j < 256 ==> self.spec_payload()[j]
                    == old(self).spec_payload()[j],
            decreases data@.len() - k,
        {
            self.payload[start + k] = data[k];
            k = k + 1;
        }

        self.payload_len = 256;

        let mut crc_buffer: Vec<u8> = Vec::new();
        push_len_bytes(&mut crc_buffer, 256);
        let mut j: usize = 0;
        while j < 256
            invariant
                j <= 256,
                self.spec_payload().len() == 256,
                self.spec_payload_len() == 256,
                crc_buffer@ =~= spec_len_bytes(256) + self.spec_payload().take(j as int),
            decreases 256 - j,
        {
            crc_buffer.push(self.payload[j]);
            proof {
                assert(self.spec_payload().take(j + 1) =~= self.spec_payload().take(
                    j as int,
                ).push(self.spec_payload()[j as int]));
            }
            j = j + 1;
        }
        proof {
            assert(self.spec_payload().take(256) =~= self.spec_payload());
        }
        self.crc = crc8(crc_buffer.as_slice());

        Ok(())
    }

    /// Serialize: two length bytes, the payload area, then the CRC byte.
    pub fn to_byte_array(&self) -> (r: [u8; 259])
        ensures
            r@ =~= spec_len_bytes(self.spec_payload_len()) + self.spec_payload() + seq![
                self.spec_crc(),
            ],
    {
        let mut buffer = [0u8; 259];
        proof {
            let len = self.payload_len;
            assert((len & 0xFF) < 256 && (len >> 8) < 256) by (bit_vector);
        }
        buffer[0] = (self.payload_len & 0xFF) as u8;
        buffer[1] = (self.payload_len >> 8) as u8;
        let mut i: usize = 0;
        while i < 256
            invariant
                i <= 256,
                buffer@.len() == 259,
                buffer@[0] == (self.spec_payload_len() & 0xFF) as u8,
                buffer@[1] == (self.spec_payload_len() >> 8) as u8,
                self.spec_payload().len() == 256,
                forall|j: int| 0 <= j < i ==> buffer@[2 + j] == self.spec_payload()[j],
            decreases 256 - i,
        {
            buffer[2 + i] = self.payload[i];
            i = i + 1;
        }
        buffer[258] = self.crc;
        buffer
    }

    /// A copy of the whole payload area.
    pub fn payload_to_array(&self) -> (r: [u8; 256])
        ensures
            r@ =~= self.spec_payload(),
    {
        self.payload
    }

    /// Deserialize a framed packet, rejecting wrong lengths, placeholder
    /// packets, oversized declared lengths, and CRC mismatches.
    pub fn from_byte_array(rxdata: Vec<u8>) -> (r: Result<Self, &'static str>)
        ensures
            ({
                let len = spec_u16_le(rxdata@[0], rxdata@[1]);
                let body = rxdata@.subrange(2, 258);
                &&& (r is Ok <==> rxdata@.len() == 259 && 1 <= len <= 256
                    && rxdata@[258] == spec_crc8(spec_len_bytes(len) + body.take(len as int)))
                &&& (r matches Ok(p) ==> {
                    &&& p.spec_payload_len() == len
                    &&& p.spec_payload() =~= body
                    &&& p.spec_crc() == rxdata@[258]
                })
                &&& (r matches Err(m) ==> {
                    &&& rxdata@.len() != 259
                        ==> m@ == "Invalid byte array length. Expected ICOM_MSG_MAX_LEN bytes."@
                    &&& rxdata@.len() == 259 && len == 0 ==> m@ == "Dummy package received"@
                    &&& rxdata@.len() == 259 && len > 256 ==> m@ == "Package corrupted"@
                    &&& rxdata@.len() == 259 && 1 <= len <= 256
                        && rxdata@[258] != spec_crc8(spec_len_bytes(len) + body.take(len as int))
                        ==> m@ == "CRC check failed."@
                })
            }),
    {
        if rxdata.len() != 259 {
            return Err("Invalid byte array length. Expected ICOM_MSG_MAX_LEN bytes.");
        }

        let payload_len: u16 = (rxdata[0] as u16) | ((rxdata[1] as u16) << 8);
        proof {
            lemma_u16_le(rxdata@[0], rxdata@[1]);
        }

        if payload_len == 0 {
            return Err("Dummy package received");
        }
        if payload_len > 256 {
            return Err("Package corrupted");
        }

        let mut payload = [0u8; 256];
        let mut i: usize = 0;
        while i < 256
            invariant
                i <= 256,
                rxdata@.len() == 259,
                payload@.len() == 256,
                forall|j: int| 0 <= j < i ==> payload@[j] == rxdata@[2 + j],
            decreases 256 - i,
        {
            payload[i] = rxdata[2 + i];
            i = i + 1;
        }

        let crc = rxdata[258];

        let packet = IONICOMPacketType { payload_len, payload, crc };
        proof {
            assert(packet.spec_payload() =~= rxdata@.subrange(2, 258));
            assert(packet.spec_payload().take(payload_len as int) =~= rxdata@.subrange(
                2,
                258,
            ).take(payload_len as int));
        }

        if !packet.verify_crc() {
            return Err("CRC check failed.");
        }

        Ok(packet)
    }

    /// True when the stored CRC matches the length field plus declared
    /// payload prefix.
    pub fn verify_crc(&self) -> (r: bool)
        ensures
            r == (self.spec_payload_len() <= 256 && self.spec_crc() == spec_crc8(
                self.spec_crc_input(),
            )),
    {
        if self.payload_len as usize > 256 {
            return false;
        }
        let mut crc_buffer: Vec<u8> = Vec::new();
        push_len_bytes(&mut crc_buffer, self.payload_len);
        let mut j: usize = 0;
        let n = self.payload_len as usize;
        while j < n
            invariant
                j <= n,
                n == self.spec_payload_len() as int,
                n <= 256,
                self.spec_payload().len() == 256,
                crc_buffer@ =~= spec_len_bytes(self.spec_payload_len())
                    + self.spec_payload().take(j as int),
            decreases n - j,
        {
            crc_buffer.push(self.payload[j]);
            proof {
                assert(self.spec_payload().take(j + 1) =~= self.spec_payload().take(
                    j as int,
                ).push(self.spec_payload()[j as int]));
            }
            j = j + 1;
        }
        let computed_crc = crc8(crc_buffer.as_slice());
        computed_crc == self.crc
    }
}

/// The 16-bit value held by two little-endian bytes.
pub open spec fn spec_u16_le(lo: u8, hi: u8) -> u16 {
    (lo + hi * 0x100) as u16
}

proof fn lemma_u16_le(lo: u8, hi: u8)
    ensures
        (lo as u16) | ((hi as u16) << 8) == spec_u16_le(lo, hi),
        spec_u16_le(lo, hi) & 0xFF == lo,
        spec_u16_le(lo, hi) >> 8 == hi,
{
    assert((lo as u16) | ((hi as u16) << 8) == ((lo + hi * 0x100) as u16)
        && ((lo + hi * 0x100) as u16) & 0xFF == lo && ((lo + hi * 0x100) as u16) >> 8 == hi)
        by (bit_vector);
}

} // verus!
