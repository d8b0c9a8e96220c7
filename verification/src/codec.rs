//! The packet codec: the OSDP wire frame. A frame is a mark byte, a
//! start-of-message marker, the destination address (high bit flags a PD
//! reply), a two-byte little-endian length, a control byte (4-bit sequence
//! number, use-CRC bit, secure-channel bit), the payload, and a one-byte
//! checksum or a two-byte CRC-16 over everything from the start marker.
//!
//! The codec never retries and keeps no state: decoding a corrupt frame
//! reports why it was dropped and recovery is the state machines' concern.

use vstd::prelude::*;
use vstd::slice::slice_subrange;

verus! {

/// The idle-line mark byte preceding every frame.
pub const MARK: u8 = 0xff;

/// The start-of-message marker.
pub const SOM: u8 = 0x53;

/// Largest payload a single frame may carry.
pub const MAX_PAYLOAD: usize = 1024;

/// Why an inbound byte sequence was rejected. Every rejection is
/// non-fatal: the frame is dropped and the stream resynchronizes on the
/// next mark byte.
#[derive(Clone, Copy, Debug, PartialEq, Eq, Structural)]
pub enum FrameError {
    /// Structurally not a frame (bad markers, bad length, reserved control
    /// bits). Discarded silently.
    Malformed,
    /// The checksum or CRC did not match: transport noise. Discarded.
    IntegrityMismatch,
}

/// Header fields of a single wire frame.
#[derive(Clone, Copy, Debug, PartialEq, Eq, Structural)]
pub struct PacketHeader {
    /// 7-bit destination (or, for a reply, source) address; 0x7F is
    /// broadcast.
    pub address: u8,
    /// Set on PD-to-CP replies, clear on CP-to-PD commands.
    pub is_reply: bool,
    /// 4-bit sequence number.
    pub seq: u8,
    /// Whether the frame is protected by CRC-16 (else a 1-byte checksum).
    pub use_crc: bool,
    /// Whether the payload is secure-channel protected.
    pub sc_active: bool,
}

/// A header the codec can represent on the wire.
pub open spec fn spec_wf_header(h: PacketHeader) -> bool {
    h.address <= 0x7f && h.seq <= 0x0f
}

/// Check that a header is representable on the wire.
pub fn wf_header(h: &PacketHeader) -> (r: bool)
    ensures
        r == spec_wf_header(*h),
{
    h.address <= 0x7f && h.seq <= 0x0f
}

/// The address byte of a header.
pub open spec fn spec_addr_byte(h: PacketHeader) -> u8 {
    if h.is_reply {
        (h.address | 0x80)
    } else {
        h.address
    }
}

/// The control byte of a header.
pub open spec fn spec_ctrl_byte(h: PacketHeader) -> u8 {
    ((h.seq & 0x0f) | (if h.use_crc {
        0x10u8
    } else {
        0u8
    }) | (if h.sc_active {
        0x20u8
    } else {
        0u8
    }))
}

/// The header two wire bytes denote, when their reserved bits are clear.
pub open spec fn spec_parse_header(addr_b: u8, ctrl_b: u8) -> PacketHeader {
    PacketHeader {
        address: (addr_b & 0x7f),
        is_reply: (addr_b & 0x80) != 0,
        seq: (ctrl_b & 0x0f),
        use_crc: (ctrl_b & 0x10) != 0,
        sc_active: (ctrl_b & 0x20) != 0,
    }
}

/// Compute the address byte of a header.
pub fn addr_byte(h: &PacketHeader) -> (r: u8)
    ensures
        r == spec_addr_byte(*h),
{
    if h.is_reply {
        h.address | 0x80
    } else {
        h.address
    }
}

/// Compute the control byte of a header.
pub fn ctrl_byte(h: &PacketHeader) -> (r: u8)
    ensures
        r == spec_ctrl_byte(*h),
{
    (h.seq & 0x0f) | (if h.use_crc {
        0x10u8
    } else {
        0u8
    }) | (if h.sc_active {
        0x20u8
    } else {
        0u8
    })
}

/// One shift step of the CRC-16 computation (polynomial 0x1021).
pub open spec fn spec_crc_bit(c: u16) -> u16 {
    if c & 0x8000 != 0 {
        ((c << 1) ^ 0x1021)
    } else {
        (c << 1)
    }
}

/// `n` shift steps of the CRC-16 computation.
pub open spec fn spec_crc_bits(c: u16, n: nat) -> u16
    decreases n,
{
    if n == 0 {
        c
    } else {
        spec_crc_bit(spec_crc_bits(c, (n - 1) as nat))
    }
}

/// Folding one byte into the CRC-16 state.
pub open spec fn spec_crc_byte(c: u16, b: u8) -> u16 {
    spec_crc_bits((c ^ ((b as u16) << 8)), 8)
}

/// The CRC-16 state after the first `n` bytes (initial value 0x1D0F).
pub open spec fn spec_crc_acc(bytes: Seq<u8>, n: int) -> u16
    decreases n,
{
    if n <= 0 {
        0x1d0fu16
    } else {
        spec_crc_byte(spec_crc_acc(bytes, n - 1), bytes[n - 1])
    }
}

/// The CRC-16 of a byte sequence.
pub open spec fn spec_crc16(bytes: Seq<u8>) -> u16 {
    spec_crc_acc(bytes, bytes.len() as int)
}

/// The modular byte sum after the first `n` bytes.
pub open spec fn spec_sum_acc(bytes: Seq<u8>, n: int) -> u32
    decreases n,
{
    if n <= 0 {
        0u32
    } else {
        (((spec_sum_acc(bytes, n - 1) + bytes[n - 1]) as u32) % 256)
    }
}

/// The single-byte checksum of a byte sequence: the two's complement of
/// its modular sum, so that summing data and checksum gives zero.
pub open spec fn spec_checksum(bytes: Seq<u8>) -> u8 {
    (((256 - spec_sum_acc(bytes, bytes.len() as int)) as u32) % 256) as u8
}

/// Compute the CRC-16 of `data[start..end]`.
pub fn crc16(data: &[u8], start: usize, end: usize) -> (r: u16)
    requires
        start <= end <= data@.len(),
    ensures
        r == spec_crc16(data@.subrange(start as int, end as int)),
{
    let ghost sub = data@.subrange(start as int, end as int);
    let mut c: u16 = 0x1d0f;
    let mut i: usize = start;
    while i < end
        invariant
            start <= i <= end <= data@.len(),
            sub == data@.subrange(start as int, end as int),
            c == spec_crc_acc(sub, i - start),
        decreases end - i,
    {
        proof {
            assert(sub[i - start] == data@[i as int]);
        }
        let mut x: u16 = c ^ ((data[i] as u16) << 8);
        let mut k: usize = 0;
        let ghost x0 = x;
        while k < 8
            invariant
                k <= 8,
                x == spec_crc_bits(x0, k as nat),
            decreases 8 - k,
        {
            x = if x & 0x8000 != 0 {
                (x << 1) ^ 0x1021
            } else {
                x << 1
            };
            k = k + 1;
        }
        c = x;
        i = i + 1;
    }
    c
}

/// Compute the single-byte checksum of `data[start..end]`.
pub fn checksum(data: &[u8], start: usize, end: usize) -> (r: u8)
    requires
        start <= end <= data@.len(),
    ensures
        r == spec_checksum(data@.subrange(start as int, end as int)),
{
    let ghost sub = data@.subrange(start as int, end as int);
    let mut s: u32 = 0;
    let mut i: usize = start;
    while i < end
        invariant
            start <= i <= end <= data@.len(),
            sub == data@.subrange(start as int, end as int),
            s == spec_sum_acc(sub, i - start),
            s < 256,
        decreases end - i,
    {
        proof {
            assert(sub[i - start] == data@[i as int]);
        }
        s = (s + data[i] as u32) % 256;
        i = i + 1;
    }
    ((256 - s) % 256) as u8
}

/// The number of trailing integrity bytes of a frame.
pub open spec fn spec_icl(use_crc: bool) -> int {
    if use_crc {
        2
    } else {
        1
    }
}

/// The encoded wire frame for a header and payload: mark, start marker,
/// address, length, control, payload and trailing integrity bytes. The
/// length field counts everything from the start marker on; the integrity
/// field covers the same range, before itself.
pub open spec fn spec_encode_packet(h: PacketHeader, payload: Seq<u8>) -> Seq<u8> {
    let plen = (5 + payload.len() + spec_icl(h.use_crc)) as u16;
    let body = seq![
        SOM,
        spec_addr_byte(h),
        (plen as u8),
        ((plen >> 8) as u8),
        spec_ctrl_byte(h),
    ] + payload;
    let frame = seq![MARK] + body;
    if h.use_crc {
        let c = spec_crc16(body);
        frame + seq![(c as u8), ((c >> 8) as u8)]
    } else {
        frame + seq![spec_checksum(body)]
    }
}

/// The decoding of a candidate frame: the exact inverse of
/// [`spec_encode_packet`] on well-formed input, and a classified rejection
/// on anything else.
pub open spec fn spec_decode_packet(bytes: Seq<u8>) -> Result<(PacketHeader, Seq<u8>), FrameError> {
    if bytes.len() < 7 {
        Err(FrameError::Malformed)
    } else if bytes[0] != MARK || bytes[1] != SOM {
        Err(FrameError::Malformed)
    } else if bytes[5] & 0xc0 != 0 {
        Err(FrameError::Malformed)
    } else {
        let h = spec_parse_header(bytes[2], bytes[5]);
        let plen = (bytes[3] as int) + 256 * (bytes[4] as int);
        let icl = spec_icl(h.use_crc);
        if plen != bytes.len() - 1 || plen < 5 + icl {
            Err(FrameError::Malformed)
        } else {
            let payload = bytes.subrange(6, bytes.len() - icl);
            let covered = bytes.subrange(1, bytes.len() - icl);
            if h.use_crc {
                let stored = (bytes[bytes.len() - 2] as int) + 256 * (bytes[bytes.len() - 1] as int);
                if stored == spec_crc16(covered) {
                    Ok((h, payload))
                } else {
                    Err(FrameError::IntegrityMismatch)
                }
            } else {
                if bytes[bytes.len() - 1] == spec_checksum(covered) {
                    Ok((h, payload))
                } else {
                    Err(FrameError::IntegrityMismatch)
                }
            }
        }
    }
}

/// Encode a frame for a header and payload.
pub fn encode_packet(h: &PacketHeader, payload: &[u8]) -> (r: Vec<u8>)
    requires
        spec_wf_header(*h),
        payload@.len() <= MAX_PAYLOAD,
    ensures
        r@ =~= spec_encode_packet(*h, payload@),
{
    let icl: usize = if h.use_crc {
        2
    } else {
        1
    };
    let plen: u16 = (5 + payload.len() + icl) as u16;
    let addr_b: u8 = if h.is_reply {
        h.address | 0x80
    } else {
        h.address
    };
    let ctrl_b: u8 = (h.seq & 0x0f) | (if h.use_crc {
        0x10u8
    } else {
        0u8
    }) | (if h.sc_active {
        0x20u8
    } else {
        0u8
    });
    let mut out: Vec<u8> = Vec::new();
    out.push(MARK);
    out.push(SOM);
    out.push(addr_b);
    out.push(plen as u8);
    out.push((plen >> 8) as u8);
    out.push(ctrl_b);
    let mut i: usize = 0;
    while i < payload.len()
        invariant
            i <= payload@.len(),
            out@.len() == 6 + i,
            out@ =~= seq![
                MARK,
                SOM,
                spec_addr_byte(*h),
                ((5 + payload@.len() + spec_icl(h.use_crc)) as u16 as u8),
                (((5 + payload@.len() + spec_icl(h.use_crc)) as u16 >> 8) as u8),
                spec_ctrl_byte(*h),
            ] + payload@.take(i as int),
        decreases payload@.len() - i,
    {
        out.push(payload[i]);
        i = i + 1;
        proof {
            assert(payload@.take(i as int) =~= payload@.take(i - 1).push(payload@[i - 1]));
        }
    }
    proof {
        assert(payload@.take(payload@.len() as int) =~= payload@);
        assert(out@.subrange(1, out@.len() as int) =~= seq![
            SOM,
            spec_addr_byte(*h),
            ((5 + payload@.len() + spec_icl(h.use_crc)) as u16 as u8),
            (((5 + payload@.len() + spec_icl(h.use_crc)) as u16 >> 8) as u8),
            spec_ctrl_byte(*h),
        ] + payload@);
    }
    if h.use_crc {
        let c = crc16(out.as_slice(), 1, out.len());
        out.push(c as u8);
        out.push((c >> 8) as u8);
    } else {
        let c = checksum(out.as_slice(), 1, out.len());
        out.push(c);
    }
    out
}

/// Decode a candidate frame into its header and payload, classifying
/// rejected input as malformed or as an integrity mismatch.
pub fn decode_packet(bytes: &[u8]) -> (r: Result<(PacketHeader, Vec<u8>), FrameError>)
    ensures
        r matches Ok(hp) ==> (spec_decode_packet(bytes@) matches Ok(shp) && shp.0 == hp.0 && shp.1
            =~= hp.1@),
        r matches Err(e) ==> (spec_decode_packet(bytes@) matches Err(se) && se == e),
{
    if bytes.len() < 7 {
        return Err(FrameError::Malformed);
    }
    if bytes[0] != MARK || bytes[1] != SOM {
        return Err(FrameError::Malformed);
    }
    if bytes[5] & 0xc0 != 0 {
        return Err(FrameError::Malformed);
    }
    let h = PacketHeader {
        address: bytes[2] & 0x7f,
        is_reply: (bytes[2] & 0x80) != 0,
        seq: bytes[5] & 0x0f,
        use_crc: (bytes[5] & 0x10) != 0,
        sc_active: (bytes[5] & 0x20) != 0,
    };
    let plen: usize = (bytes[3] as usize) + 256 * (bytes[4] as usize);
    let icl: usize = if h.use_crc {
        2
    } else {
        1
    };
    if plen != bytes.len() - 1 || plen < 5 + icl {
        return Err(FrameError::Malformed);
    }
    let end = bytes.len() - icl;
    if h.use_crc {
        let stored: usize = (bytes[bytes.len() - 2] as usize) + 256 * (bytes[bytes.len()
            - 1] as usize);
        let computed = crc16(bytes, 1, end);
        if stored != computed as usize {
            return Err(FrameError::IntegrityMismatch);
        }
    } else {
        let computed = checksum(bytes, 1, end);
        if bytes[bytes.len() - 1] != computed {
            return Err(FrameError::IntegrityMismatch);
        }
    }
    let payload = vstd::slice::slice_to_vec(slice_subrange(bytes, 6, end));
    Ok((h, payload))
}

/// A wire header round-trips through its two wire bytes.
proof fn lemma_header_round_trip(h: PacketHeader)
    requires
        spec_wf_header(h),
    ensures
        spec_parse_header(spec_addr_byte(h), spec_ctrl_byte(h)) == h,
        spec_ctrl_byte(h) & 0xc0 == 0,
{
    let a = h.address;
    let s = h.seq;
    assert(a <= 0x7f ==> (((a | 0x80) & 0x7f) == a && (a & 0x7f) == a && ((a | 0x80) & 0x80) != 0
        && (a & 0x80) == 0)) by (bit_vector);
    assert(s <= 0x0f ==> (((s & 0x0f) | 0x10 | 0x20) & 0x0f == s && ((s & 0x0f) | 0x10 | 0x20)
        & 0x10 != 0 && ((s & 0x0f) | 0x10 | 0x20) & 0x20 != 0 && ((s & 0x0f) | 0x10 | 0x20) & 0xc0
        == 0)) by (bit_vector);
    assert(s <= 0x0f ==> (((s & 0x0f) | 0x10 | 0) & 0x0f == s && ((s & 0x0f) | 0x10 | 0) & 0x10
        != 0 && ((s & 0x0f) | 0x10 | 0) & 0x20 == 0 && ((s & 0x0f) | 0x10 | 0) & 0xc0 == 0))
        by (bit_vector);
    assert(s <= 0x0f ==> (((s & 0x0f) | 0 | 0x20) & 0x0f == s && ((s & 0x0f) | 0 | 0x20) & 0x10
        == 0 && ((s & 0x0f) | 0 | 0x20) & 0x20 != 0 && ((s & 0x0f) | 0 | 0x20) & 0xc0 == 0))
        by (bit_vector);
    assert(s <= 0x0f ==> (((s & 0x0f) | 0 | 0) & 0x0f == s && ((s & 0x0f) | 0 | 0) & 0x10 == 0 && (
    (s & 0x0f) | 0 | 0) & 0x20 == 0 && ((s & 0x0f) | 0 | 0) & 0xc0 == 0)) by (bit_vector);
}

/// A 16-bit length field round-trips through its two wire bytes.
proof fn lemma_len_round_trip(x: u16)
    ensures
        (x as u8) as int + 256 * ((x >> 8) as u8) as int == x as int,
{
    assert((x as u8) as u16 + 256 * ((x >> 8) as u8) as u16 == x) by (bit_vector);
}

/// Round-trip of the packet codec: decoding an encoded frame yields
/// exactly the header and payload that went in, for every representable
/// header and every payload within the size limit.
pub proof fn lemma_codec_round_trip(h: PacketHeader, payload: Seq<u8>)
    requires
        spec_wf_header(h),
        payload.len() <= MAX_PAYLOAD,
    ensures
        spec_decode_packet(spec_encode_packet(h, payload)) == Ok::<_, FrameError>((h, payload)),
{
    let icl = spec_icl(h.use_crc);
    let plen16 = (5 + payload.len() + icl) as u16;
    let body = seq![
        SOM,
        spec_addr_byte(h),
        (plen16 as u8),
        ((plen16 >> 8) as u8),
        spec_ctrl_byte(h),
    ] + payload;
    let enc = spec_encode_packet(h, payload);
    lemma_header_round_trip(h);
    lemma_len_round_trip(plen16);
    assert(enc.len() == 6 + payload.len() + icl);
    assert(enc[0] == MARK && enc[1] == SOM);
    assert(enc[2] == spec_addr_byte(h));
    assert(enc[5] == spec_ctrl_byte(h));
    assert(spec_parse_header(enc[2], enc[5]) == h);
    assert(enc[3] as int + 256 * (enc[4] as int) == 5 + payload.len() + icl);
    assert(enc.subrange(6, enc.len() - icl) =~= payload);
    assert(enc.subrange(1, enc.len() - icl) =~= body);
    if h.use_crc {
        let c = spec_crc16(body);
        lemma_len_round_trip(c);
        assert(enc[enc.len() - 2] == (c as u8) && enc[enc.len() - 1] == ((c >> 8) as u8));
        assert((enc[enc.len() - 2] as int) + 256 * (enc[enc.len() - 1] as int) == c as int);
    } else {
        assert(enc[enc.len() - 1] == spec_checksum(body));
    }
}

/// Scan a receive buffer for one complete frame, dropping leading noise.
/// Returns the extracted frame bytes once the buffer holds a whole frame;
/// the frame (and anything before it) is removed from the buffer.
pub(crate) fn extract_frame(buf: &mut Vec<u8>) -> (r: Option<Vec<u8>>)
    ensures
        r matches Some(f) ==> f@.len() >= 7 && f@[0] == MARK && f@[1] == SOM,
        r is Some ==> final(buf)@.len() + 7 <= old(buf)@.len(),
{
    // Drop bytes before the first plausible mark/start pair.
    let mut start: usize = 0;
    while buf.len() >= 2 && start <= buf.len() - 2 && !(buf[start] == MARK && buf[start + 1]
        == SOM)
        invariant
            start <= buf@.len(),
        decreases buf@.len() - start,
    {
        start = start + 1;
    }
    if buf.len() - start < 7 {
        // No complete header yet; drop the scanned noise and wait for more.
        if start > 0 && buf.len() - start < 2 {
            let kept = drain_from(buf, start);
            *buf = kept;
        }
        return None;
    }
    let plen: usize = (buf[start + 3] as usize) + 256 * (buf[start + 4] as usize);
    if plen < 6 || plen > 6 + MAX_PAYLOAD + 2 {
        // Implausible length: discard the mark byte and resynchronize.
        let kept = drain_from(buf, start + 1);
        *buf = kept;
        return None;
    }
    if buf.len() - start < plen + 1 {
        // Frame not complete yet.
        if start > 0 {
            let kept = drain_from(buf, start);
            *buf = kept;
        }
        return None;
    }
    let stop: usize = start + plen + 1;
    let mut frame: Vec<u8> = Vec::new();
    let mut i: usize = start;
    while i < stop
        invariant
            start <= i <= stop <= buf@.len(),
            frame@.len() == i - start,
            frame@ =~= buf@.subrange(start as int, i as int),
        decreases stop - i,
    {
        frame.push(buf[i]);
        i = i + 1;
    }
    let kept = drain_from(buf, stop);
    *buf = kept;
    assert(frame@[0] == MARK && frame@[1] == SOM);
    Some(frame)
}

/// The suffix of a buffer from `from` on, as a fresh vector.
pub(crate) fn drain_from(buf: &Vec<u8>, from: usize) -> (r: Vec<u8>)
    requires
        from <= buf@.len(),
    ensures
        r@ =~= buf@.subrange(from as int, buf@.len() as int),
{
    let mut out: Vec<u8> = Vec::new();
    let mut i: usize = from;
    while i < buf.len()
        invariant
            from <= i <= buf@.len(),
            out@ =~= buf@.subrange(from as int, i as int),
        decreases buf@.len() - i,
    {
        out.push(buf[i]);
        i = i + 1;
    }
    out
}

} // verus!
