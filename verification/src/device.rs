//! Corsair LCD HID protocol: feature reports, image packets, the firmware's
//! animation-segment container, and recognising the LCD's HID interfaces.

use vstd::prelude::*;
use crate::text::{chars_of, contains, contains_seq, decimal, push_decimal, push_str, string_of};
use vstd::string::StringSliceAdditionalSpecFns;

verus! {

/// Size of a HID feature report sent to the LCD.
pub const FEATURE_REPORT_LEN: usize = 32;
/// Size of one image output report.
pub const PACKET_LEN: usize = 1024;
/// Bytes of the image report header.
pub const PACKET_HEADER_LEN: usize = 8;
/// JPEG bytes carried by one image report.
pub const CHUNK_LEN: usize = 1016;

/// Low byte of a little-endian 16-bit field.
pub open spec fn lo8(x: int) -> u8 {
    (x % 256) as u8
}

/// High byte of a little-endian 16-bit field.
pub open spec fn hi8(x: int) -> u8 {
    ((x / 256) % 256) as u8
}

/// The feature report whose first four bytes are `b0 b1 b2 b3`, zero padded.
pub open spec fn feature_report(b0: u8, b1: u8, b2: u8, b3: u8) -> Seq<u8> {
    Seq::new(
        32,
        |i: int|
            if i == 0 {
                b0
            } else if i == 1 {
                b1
            } else if i == 2 {
                b2
            } else if i == 3 {
                b3
            } else {
                0u8
            },
    )
}

pub(crate) fn make_feature_report(b0: u8, b1: u8, b2: u8, b3: u8) -> (packet: [u8; 32])
    ensures
        packet@ == feature_report(b0, b1, b2, b3),
{
    let mut packet = [0u8; 32];
    packet[0] = b0;
    packet[1] = b1;
    packet[2] = b2;
    packet[3] = b3;
    assert(packet@ =~= feature_report(b0, b1, b2, b3));
    packet
}

/// First report of the streaming handle's hardware-mode switch: `03 1E 00 01`.
pub fn hardware_mode_packet_1() -> (packet: [u8; 32])
    ensures
        packet@ == feature_report(0x03, 0x1e, 0x00, 0x01),
{
    make_feature_report(0x03, 0x1e, 0x00, 0x01)
}

/// Second report of the hardware-mode switch (device session control, 0 =
/// return to hardware mode): `03 1D 00 01`.
pub fn hardware_mode_packet_2() -> (packet: [u8; 32])
    ensures
        packet@ == feature_report(0x03, 0x1d, 0x00, 0x01),
{
    make_feature_report(0x03, 0x1d, 0x00, 0x01)
}

// ---------------------------------------------------------------------
// Image reports

/// The image report carrying `chunk` as part `part`, with the end flag set
/// when `is_end`: `02 05 40 end part_lo part_hi len_lo len_hi`, the chunk,
/// then zero padding to 1024 bytes.
pub open spec fn frame_packet_spec(chunk: Seq<u8>, part: u16, is_end: bool) -> Seq<u8> {
    Seq::new(
        1024,
        |i: int|
            if i == 0 {
                0x02u8
            } else if i == 1 {
                0x05u8
            } else if i == 2 {
                0x40u8
            } else if i == 3 {
                if is_end { 1u8 } else { 0u8 }
            } else if i == 4 {
                lo8(part as int)
            } else if i == 5 {
                hi8(part as int)
            } else if i == 6 {
                lo8(chunk.len() as int)
            } else if i == 7 {
                hi8(chunk.len() as int)
            } else if i < 8 + chunk.len() {
                chunk[i - 8]
            } else {
                0u8
            },
    )
}

fn fill_packet(data: &[u8], start: usize, len: usize, part: u16, is_end: bool) -> (packet: [u8; 1024])
    requires
        len <= CHUNK_LEN,
        start + len <= data@.len(),
    ensures
        packet@ == frame_packet_spec(data@.subrange(start as int, start + len), part, is_end),
{
    let mut packet = [0u8; 1024];
    packet[0] = 0x02;
    packet[1] = 0x05;
    packet[2] = 0x40;
    packet[3] = if is_end { 1 } else { 0 };
    packet[4] = (part % 256) as u8;
    packet[5] = (part / 256) as u8;
    packet[6] = (len % 256) as u8;
    packet[7] = (len / 256) as u8;
    let ghost chunk = data@.subrange(start as int, start + len);
    for i in 0..len
        invariant
            len <= CHUNK_LEN,
            start + len <= data.len(),
            chunk == data@.subrange(start as int, start + len),
            packet@.len() == 1024,
            packet@[0] == 0x02u8,
            packet@[1] == 0x05u8,
            packet@[2] == 0x40u8,
            packet@[3] == (if is_end { 1u8 } else { 0u8 }),
            packet@[4] == lo8(part as int),
            packet@[5] == hi8(part as int),
            packet@[6] == lo8(len as int),
            packet@[7] == hi8(len as int),
            forall|k: int| 8 <= k < 8 + i ==> packet@[k] == chunk[k - 8],
            forall|k: int| 8 + i <= k < 1024 ==> packet@[k] == 0u8,
    {
        packet[8 + i] = data[start + i];
    }
    assert(packet@ =~= frame_packet_spec(chunk, part, is_end));
    packet
}

/// The image report carrying `chunk` (at most 1016 bytes) as part `part_num`.
pub fn frame_packet(chunk: &[u8], part_num: u16, is_end: bool) -> (packet: [u8; 1024])
    requires
        chunk@.len() <= CHUNK_LEN,
    ensures
        packet@ == frame_packet_spec(chunk@, part_num, is_end),
{
    let p = fill_packet(chunk, 0, chunk.len(), part_num, is_end);
    assert(chunk@.subrange(0, chunk@.len() as int) =~= chunk@);
    p
}

/// Number of image reports for a JPEG of `n` bytes.
pub open spec fn chunk_count(n: int) -> int {
    (n + 1015) / 1016
}

/// End (exclusive) of chunk `k` of a JPEG of `n` bytes.
pub open spec fn chunk_end(n: int, k: int) -> int {
    if (k + 1) * 1016 <= n { (k + 1) * 1016 } else { n }
}

/// Chunk `k` of `data`: bytes `k*1016 .. min((k+1)*1016, len)`.
pub open spec fn chunk_of(data: Seq<u8>, k: int) -> Seq<u8> {
    data.subrange(k * 1016, chunk_end(data.len() as int, k))
}

/// The part number of chunk `k`: a 16-bit counter that starts at 0 and
/// wraps around after 65535.
pub open spec fn part_number(k: int) -> u16 {
    (k % 65536) as u16
}

/// The end flag of chunk `k`, computed as the device driver computes it:
/// whether the part number times the chunk size, plus this chunk's length,
/// reaches the JPEG's length.
pub open spec fn chunk_is_end(data: Seq<u8>, k: int) -> bool {
    part_number(k) * 1016 + chunk_of(data, k).len() >= data.len()
}

/// The image reports that carry `data`, in the order they are written.
pub open spec fn frame_packets_spec(data: Seq<u8>) -> Seq<Seq<u8>> {
    Seq::new(
        chunk_count(data.len() as int) as nat,
        |k: int| frame_packet_spec(chunk_of(data, k), part_number(k), chunk_is_end(data, k)),
    )
}

/// Splits a JPEG into the image reports that carry it to the LCD (the
/// packets the streaming handle writes, in order; none for an empty JPEG).
pub fn frame_packets(data: &[u8]) -> (packets: Vec<[u8; 1024]>)
    ensures
        packets@.len() == frame_packets_spec(data@).len(),
        forall|k: int|
            0 <= k < packets@.len() ==> #[trigger] packets@[k]@ == frame_packets_spec(data@)[k],
{
    let total = data.len();
    let mut packets: Vec<[u8; 1024]> = Vec::new();
    let mut offset: usize = 0;
    let mut count: usize = 0;
    while offset < total
        invariant
            total == data@.len(),
            offset == (if count * 1016 <= total { count * 1016 } else { total as int }),
            count as int <= chunk_count(total as int),
            offset < total ==> (count as int) < chunk_count(total as int),
            offset >= total ==> count as int == chunk_count(total as int),
            packets@.len() == count,
            forall|k: int|
                0 <= k < packets@.len() ==> #[trigger] packets@[k]@ == frame_packets_spec(data@)[k],
        decreases total - offset,
    {
        let end = if total - offset > CHUNK_LEN { offset + CHUNK_LEN } else { total };
        let len = end - offset;
        let part = (count % 65536) as u16;
        let is_end = (part as usize) * CHUNK_LEN + len >= total;
        let packet = fill_packet(data, offset, len, part, is_end);
        assert(chunk_end(total as int, count as int) == end);
        packets.push(packet);
        offset = end;
        count = count + 1;
    }
    packets
}

/// The JPEG bytes carried by an image report.
pub open spec fn packet_payload(p: Seq<u8>) -> Seq<u8> {
    p.subrange(8, 8 + (p[6] as int) + (p[7] as int) * 256)
}

/// The JPEG bytes carried by a sequence of image reports, in order.
pub open spec fn payloads(ps: Seq<Seq<u8>>) -> Seq<u8>
    decreases ps.len(),
{
    if ps.len() == 0 {
        Seq::empty()
    } else {
        payloads(ps.drop_last()) + packet_payload(ps.last())
    }
}

proof fn lemma_packet_payload(data: Seq<u8>, k: int)
    requires
        0 <= k < chunk_count(data.len() as int),
    ensures
        packet_payload(frame_packets_spec(data)[k]) == chunk_of(data, k),
        chunk_of(data, k).len() <= CHUNK_LEN,
{
    let c = chunk_of(data, k);
    let p = frame_packets_spec(data)[k];
    assert(c.len() <= 1016);
    assert(p[6] as int + (p[7] as int) * 256 == c.len());
    assert(packet_payload(p) =~= c);
}

proof fn lemma_payloads_prefix(data: Seq<u8>, k: int)
    requires
        0 <= k <= chunk_count(data.len() as int),
    ensures
        payloads(frame_packets_spec(data).take(k)) == data.take(if k * 1016 <= data.len() { k * 1016 } else { data.len() as int }),
    decreases k,
{
    let ps = frame_packets_spec(data);
    if k == 0 {
        assert(ps.take(0) =~= Seq::<Seq<u8>>::empty());
        assert(data.take(0) =~= Seq::<u8>::empty());
    } else {
        lemma_payloads_prefix(data, k - 1);
        lemma_packet_payload(data, k - 1);
        assert(ps.take(k).drop_last() =~= ps.take(k - 1));
        assert(ps.take(k).last() == ps[k - 1]);
        let lo = (k - 1) * 1016;
        let hi = if k * 1016 <= data.len() { k * 1016 } else { data.len() as int };
        assert(data.take(lo) + data.subrange(lo, hi) =~= data.take(hi));
    }
}

/// Reassembly law: the JPEG bytes carried by the image reports of `data`,
/// read back in order, are exactly `data`.
pub proof fn lemma_frame_packets_reassemble(data: Seq<u8>)
    ensures
        payloads(frame_packets_spec(data)) == data,
{
    let n = chunk_count(data.len() as int);
    lemma_payloads_prefix(data, n);
    assert(frame_packets_spec(data).take(n) =~= frame_packets_spec(data));
    assert(data.take(data.len() as int) =~= data);
}

/// Numbering law: report `k` is numbered `k` modulo 65536.
pub proof fn lemma_frame_packets_numbered(data: Seq<u8>, k: int)
    requires
        0 <= k < frame_packets_spec(data).len(),
    ensures
        frame_packets_spec(data)[k][4] as int + (frame_packets_spec(data)[k][5] as int) * 256 == k % 65536,
{
}

/// End-flag law: when a frame needs at most 65536 reports (so that no part
/// number wraps), exactly its last report carries the end flag.
pub proof fn lemma_frame_packets_end_flag(data: Seq<u8>, k: int)
    requires
        frame_packets_spec(data).len() <= 65536,
        0 <= k < frame_packets_spec(data).len(),
    ensures
        (frame_packets_spec(data)[k][3] == 1u8) <==> k == frame_packets_spec(data).len() - 1,
        (frame_packets_spec(data)[k][3] == 0u8) <==> k != frame_packets_spec(data).len() - 1,
{
    assert(k % 65536 == k);
}

// ---------------------------------------------------------------------
// Brightness and rotation

/// The firmware's brightness level for a percentage.
pub open spec fn brightness_level(percent: u8) -> u8 {
    if percent == 0 {
        0x00
    } else if percent <= 16 {
        0x01
    } else if percent <= 49 {
        0x04
    } else if percent <= 83 {
        0x10
    } else {
        0x40
    }
}

/// Maps a brightness percentage to the firmware's brightness level.
pub fn brightness_raw(percent: u8) -> (raw: u8)
    ensures
        raw == brightness_level(percent),
{
    if percent == 0 {
        0x00
    } else if percent <= 16 {
        0x01
    } else if percent <= 49 {
        0x04
    } else if percent <= 83 {
        0x10
    } else {
        0x40
    }
}

/// The brightness feature report: `03 0B level 01`.
pub fn brightness_packet(percent: u8) -> (packet: [u8; 32])
    ensures
        packet@ == feature_report(0x03, 0x0b, brightness_level(percent), 0x01),
{
    let raw = brightness_raw(percent);
    make_feature_report(0x03, 0x0b, raw, 0x01)
}

/// The firmware's rotation code for an angle in degrees, when supported.
pub open spec fn rotation_code(angle: u16) -> Option<u8> {
    if angle == 0 {
        Some(0u8)
    } else if angle == 90 {
        Some(1u8)
    } else if angle == 180 {
        Some(2u8)
    } else if angle == 270 {
        Some(3u8)
    } else {
        None
    }
}

/// A rotation the LCD cannot display.
#[derive(Clone, Copy, Debug, PartialEq, Eq)]
pub struct UnsupportedRotation {
    pub angle: u16,
}

/// Maps a rotation in degrees to the firmware's rotation code.
pub fn rotation_raw(angle: u16) -> (r: Result<u8, UnsupportedRotation>)
    ensures
        match r {
            Ok(code) => rotation_code(angle) == Some(code),
            Err(e) => rotation_code(angle) is None && e.angle == angle,
        },
{
    match angle {
        0 => Ok(0x00),
        90 => Ok(0x01),
        180 => Ok(0x02),
        270 => Ok(0x03),
        _ => Err(UnsupportedRotation { angle }),
    }
}

/// The rotation feature report `03 0C code 00`, or the unsupported angle.
pub fn rotation_packet(angle: u16) -> (r: Result<[u8; 32], UnsupportedRotation>)
    ensures
        match r {
            Ok(p) => rotation_code(angle) is Some && p@ == feature_report(0x03, 0x0c, rotation_code(angle)->0, 0x00),
            Err(e) => rotation_code(angle) is None && e.angle == angle,
        },
{
    let raw = rotation_raw(angle)?;
    Ok(make_feature_report(0x03, 0x0c, raw, 0x00))
}

impl UnsupportedRotation {
    /// The error text reported for this rotation.
    pub fn message(&self) -> (s: String)
        ensures
            s@ == "Unsupported rotation angle: "@ + decimal(self.angle as nat),
    {
        let mut v: Vec<char> = Vec::new();
        push_str(&mut v, "Unsupported rotation angle: ");
        push_decimal(&mut v, self.angle as u64);
        string_of(&v)
    }
}


// ---------------------------------------------------------------------
// CRC-32 (IEEE 802.3, reflected, polynomial 0xEDB88320)

/// One shift of the reflected CRC register.
pub open spec fn crc_shift(c: u32) -> u32 {
    if c & 1 != 0 { (c >> 1) ^ 0xEDB8_8320u32 } else { c >> 1 }
}

/// `n` shifts of the CRC register.
pub open spec fn crc_shifts(c: u32, n: nat) -> u32
    decreases n,
{
    if n == 0 { c } else { crc_shift(crc_shifts(c, (n - 1) as nat)) }
}

/// The CRC register after feeding all of `data` into the initial value `0xFFFFFFFF`.
pub open spec fn crc_register(data: Seq<u8>) -> u32
    decreases data.len(),
{
    if data.len() == 0 {
        0xFFFF_FFFFu32
    } else {
        crc_shifts(crc_register(data.drop_last()) ^ (data.last() as u32), 8)
    }
}

/// The CRC-32 of `data`: the final register, inverted.
pub open spec fn crc32_spec(data: Seq<u8>) -> u32 {
    !crc_register(data)
}

/// The CRC-32 of `data`, as the firmware's animation upload expects it.
pub fn crc32(data: &[u8]) -> (crc: u32)
    ensures
        crc == crc32_spec(data@),
{
    let mut crc: u32 = 0xFFFF_FFFF;
    for i in 0..data.len()
        invariant
            crc == crc_register(data@.take(i as int)),
    {
        let byte = data[i];
        let start = crc ^ (byte as u32);
        crc = start;
        for j in 0..8u32
            invariant
                crc == crc_shifts(start, j as nat),
        {
            if crc & 1 != 0 {
                crc = (crc >> 1) ^ 0xEDB8_8320;
            } else {
                crc = crc >> 1;
            }
        }
        assert(data@.take(i + 1).drop_last() =~= data@.take(i as int));
    }
    assert(data@.take(data@.len() as int) =~= data@);
    !crc
}

/// Eight shifts of the CRC register, written out.
spec fn crc_shift8(c: u32) -> u32 {
    crc_shift(crc_shift(crc_shift(crc_shift(crc_shift(crc_shift(crc_shift(crc_shift(c))))))))
}

proof fn lemma_crc_shifts8(c: u32)
    ensures
        crc_shifts(c, 8) == crc_shift8(c),
{
    reveal_with_fuel(crc_shifts, 9);
}

proof fn lemma_crc_register_push(d: Seq<u8>, b: u8)
    ensures
        crc_register(d.push(b)) == crc_shift8(crc_register(d) ^ (b as u32)),
{
    assert(d.push(b).drop_last() =~= d);
    lemma_crc_shifts8(crc_register(d) ^ (b as u32));
}

/// The register after feeding the inverted register back in, one shift at a time.
proof fn lemma_crc_residue_chain(
    r: u32, c0: u32, c1: u32, c2: u32, c3: u32, c4: u32, c5: u32, c6: u32, c7: u32,
    c8: u32, c9: u32, c10: u32, c11: u32, c12: u32, c13: u32, c14: u32, c15: u32, c16: u32,
    c17: u32, c18: u32, c19: u32, c20: u32, c21: u32, c22: u32, c23: u32, c24: u32, c25: u32,
    c26: u32, c27: u32, c28: u32, c29: u32, c30: u32, c31: u32, c32: u32,
)
    by (bit_vector)
    requires
        c0 == r ^ ((!r) & 0xff),
        c1 == crc_shift(c0),
        c2 == crc_shift(c1),
        c3 == crc_shift(c2),
        c4 == crc_shift(c3),
        c5 == crc_shift(c4),
        c6 == crc_shift(c5),
        c7 == crc_shift(c6),
        c8 == crc_shift(c7) ^ (((!r) >> 8u32) & 0xff),
        c9 == crc_shift(c8),
        c10 == crc_shift(c9),
        c11 == crc_shift(c10),
        c12 == crc_shift(c11),
        c13 == crc_shift(c12),
        c14 == crc_shift(c13),
        c15 == crc_shift(c14),
        c16 == crc_shift(c15) ^ (((!r) >> 16u32) & 0xff),
        c17 == crc_shift(c16),
        c18 == crc_shift(c17),
        c19 == crc_shift(c18),
        c20 == crc_shift(c19),
        c21 == crc_shift(c20),
        c22 == crc_shift(c21),
        c23 == crc_shift(c22),
        c24 == crc_shift(c23) ^ ((!r) >> 24u32),
        c25 == crc_shift(c24),
        c26 == crc_shift(c25),
        c27 == crc_shift(c26),
        c28 == crc_shift(c27),
        c29 == crc_shift(c28),
        c30 == crc_shift(c29),
        c31 == crc_shift(c30),
        c32 == crc_shift(c31),
    ensures
        c32 == 0xDEBB_20E3u32,
{
}

proof fn lemma_crc_residue_bits(r: u32)
    ensures
        ({
            let v = !r;
            crc_shift8(crc_shift8(crc_shift8(crc_shift8(r ^ (v & 0xff)) ^ ((v >> 8u32) & 0xff)) ^ ((v >> 16u32) & 0xff))
                ^ (v >> 24u32)) == 0xDEBB_20E3u32
        }),
{
    let c0 = r ^ ((!r) & 0xff);
    let c1 = crc_shift(c0);
    let c2 = crc_shift(c1);
    let c3 = crc_shift(c2);
    let c4 = crc_shift(c3);
    let c5 = crc_shift(c4);
    let c6 = crc_shift(c5);
    let c7 = crc_shift(c6);
    let c8 = crc_shift(c7) ^ (((!r) >> 8u32) & 0xff);
    let c9 = crc_shift(c8);
    let c10 = crc_shift(c9);
    let c11 = crc_shift(c10);
    let c12 = crc_shift(c11);
    let c13 = crc_shift(c12);
    let c14 = crc_shift(c13);
    let c15 = crc_shift(c14);
    let c16 = crc_shift(c15) ^ (((!r) >> 16u32) & 0xff);
    let c17 = crc_shift(c16);
    let c18 = crc_shift(c17);
    let c19 = crc_shift(c18);
    let c20 = crc_shift(c19);
    let c21 = crc_shift(c20);
    let c22 = crc_shift(c21);
    let c23 = crc_shift(c22);
    let c24 = crc_shift(c23) ^ ((!r) >> 24u32);
    let c25 = crc_shift(c24);
    let c26 = crc_shift(c25);
    let c27 = crc_shift(c26);
    let c28 = crc_shift(c27);
    let c29 = crc_shift(c28);
    let c30 = crc_shift(c29);
    let c31 = crc_shift(c30);
    let c32 = crc_shift(c31);
    lemma_crc_residue_chain(
        r, c0, c1, c2, c3, c4, c5, c6, c7, c8, c9, c10,
        c11, c12, c13, c14, c15, c16, c17, c18, c19, c20, c21, c22,
        c23, c24, c25, c26, c27, c28, c29, c30, c31, c32,
    );
}

proof fn lemma_le32_bytes(x: u32)
    ensures
        ((x as int % 256) as u8) as u32 == x & 0xff,
        (((x as int / 256) % 256) as u8) as u32 == (x >> 8u32) & 0xff,
        (((x as int / 65536) % 256) as u8) as u32 == (x >> 16u32) & 0xff,
        (((x as int / 16777216) % 256) as u8) as u32 == x >> 24u32,
{
    assert(x & 0xff == x % 256) by (bit_vector);
    assert((x >> 8u32) & 0xff == (x / 256) % 256) by (bit_vector);
    assert((x >> 16u32) & 0xff == (x / 65536) % 256) by (bit_vector);
    assert(x >> 24u32 == (x / 16777216) % 256) by (bit_vector);
}

/// Check law: appending a message's CRC-32 to it, as four little-endian
/// bytes, gives a message whose CRC-32 is the fixed residue 0x2144DF1C of
/// the IEEE CRC-32 (reflected polynomial 0xEDB88320, register preset to all
/// ones, result inverted), whatever the message.
pub proof fn lemma_crc32_residue(data: Seq<u8>)
    ensures
        crc32_spec(data + le32(crc32_spec(data) as int)) == 0x2144_DF1Cu32,
{
    let r = crc_register(data);
    let v = crc32_spec(data);
    assert(v == !r);
    let b = le32(v as int);
    lemma_le32_bytes(v);
    let d1 = data.push(b[0]);
    let d2 = d1.push(b[1]);
    let d3 = d2.push(b[2]);
    let d4 = d3.push(b[3]);
    assert(data + b =~= d4);
    lemma_crc_register_push(data, b[0]);
    lemma_crc_register_push(d1, b[1]);
    lemma_crc_register_push(d2, b[2]);
    lemma_crc_register_push(d3, b[3]);
    lemma_crc_residue_bits(r);
    assert(!0xDEBB_20E3u32 == 0x2144_DF1Cu32) by (bit_vector);
}

// ---------------------------------------------------------------------
// Animation segment container

/// The four little-endian bytes of `x` (its low 32 bits).
pub open spec fn le32(x: int) -> Seq<u8> {
    seq![(x % 256) as u8, ((x / 256) % 256) as u8, ((x / 65536) % 256) as u8, ((x / 16777216) % 256) as u8]
}

/// The animation segment that stores one 480x480 JPEG frame in the LCD's
/// flash: type 1, width 480, height 480, delay 33, one frame, the JPEG
/// length (low 32 bits), then the JPEG.
pub open spec fn animation_segment_spec(jpeg: Seq<u8>) -> Seq<u8> {
    seq![1u8, lo8(480), hi8(480), lo8(480), hi8(480), lo8(33), hi8(33), lo8(1), hi8(1)]
        + le32(jpeg.len() as int) + jpeg
}

/// Builds the single-frame animation segment for `jpeg`.
pub fn animation_segment(jpeg: &[u8]) -> (buf: Vec<u8>)
    ensures
        buf@ == animation_segment_spec(jpeg@),
{
    let mut buf: Vec<u8> = Vec::new();
    buf.push(1u8);
    buf.push((480u16 % 256) as u8);
    buf.push((480u16 / 256) as u8);
    buf.push((480u16 % 256) as u8);
    buf.push((480u16 / 256) as u8);
    buf.push(33u8);
    buf.push(0u8);
    buf.push(1u8);
    buf.push(0u8);
    let n = jpeg.len();
    buf.push((n % 256) as u8);
    buf.push(((n / 256) % 256) as u8);
    buf.push(((n / 65536) % 256) as u8);
    buf.push(((n / 16777216) % 256) as u8);
    let ghost head = buf@;
    assert(head =~= seq![1u8, lo8(480), hi8(480), lo8(480), hi8(480), lo8(33), hi8(33), lo8(1), hi8(1)] + le32(n as int));
    for i in 0..n
        invariant
            n == jpeg@.len(),
            buf@ == head + jpeg@.take(i as int),
    {
        buf.push(jpeg[i]);
        assert(head + jpeg@.take(i as int) + seq![jpeg@[i as int]] =~= head + jpeg@.take(i + 1));
    }
    assert(jpeg@.take(n as int) =~= jpeg@);
    buf
}

proof fn lemma_le32_value(x: u32)
    ensures
        (x % 256) + ((x / 256) % 256) * 256 + ((x / 65536) % 256) * 65536 + ((x / 16777216) % 256) * 16777216 == x,
{
    assert((x % 256) + ((x / 256) % 256) * 256 + ((x / 65536) % 256) * 65536 + ((x / 16777216) % 256) * 16777216 == x)
        by (bit_vector);
}

/// Segment law: for every JPEG shorter than 4 GiB the animation segment is
/// 13 header bytes and then the JPEG itself. The header is type 1, width
/// 480, height 480, delay 33 and one frame, each a little-endian `u16`
/// (`01 E0 01 E0 01 21 00 01 00`), and bytes 9..13, read as a little-endian
/// `u32`, are the JPEG's length.
pub proof fn lemma_animation_segment_layout(jpeg: Seq<u8>)
    requires
        jpeg.len() < 0x1_0000_0000,
    ensures
        ({
            let s = animation_segment_spec(jpeg);
            &&& s.len() == 13 + jpeg.len()
            &&& s.subrange(0, 9) == seq![0x01u8, 0xE0, 0x01, 0xE0, 0x01, 0x21, 0x00, 0x01, 0x00]
            &&& s[9] as int + s[10] as int * 256 + s[11] as int * 65536 + s[12] as int * 16777216 == jpeg.len()
            &&& s.subrange(13, s.len() as int) == jpeg
        }),
{
    let s = animation_segment_spec(jpeg);
    let x = jpeg.len() as u32;
    let n = jpeg.len() as int;
    lemma_le32_value(x);
    assert(x as int == n);
    assert(s[9] == (n % 256) as u8);
    assert(s[10] == ((n / 256) % 256) as u8);
    assert(s[11] == ((n / 65536) % 256) as u8);
    assert(s[12] == ((n / 16777216) % 256) as u8);
    assert(s.subrange(0, 9) =~= seq![0x01u8, 0xE0, 0x01, 0xE0, 0x01, 0x21, 0x00, 0x01, 0x00]);
    assert(s.subrange(13, s.len() as int) =~= jpeg);
}

// ---------------------------------------------------------------------
// Recognising the LCD's HID interfaces

/// Corsair's USB vendor tag as it appears in an interface path.
pub open spec fn corsair_vendor_tag() -> Seq<char> {
    "VID_1B1C"@
}

/// The product tags of the supported LCD models.
pub open spec fn supported_pid_tags() -> Seq<Seq<char>> {
    seq![
        "PID_0C39"@, "PID_0C33"@, "PID_0C42"@, "PID_0C4E"@,
        "PID_0C37"@, "PID_0C40"@, "PID_0C53"@, "PID_0C5B"@,
    ]
}

/// An upper-cased interface path names Corsair's vendor id and a supported product id.
pub open spec fn names_supported_lcd(upper: Seq<char>) -> bool {
    contains_seq(upper, corsair_vendor_tag())
        && exists|i: int| 0 <= i < 8 && contains_seq(upper, #[trigger] supported_pid_tags()[i])
}

/// Supported-model law: an upper-cased interface path names a supported LCD
/// exactly when it holds Corsair's vendor tag `VID_1B1C` and one of the
/// eight product tags `PID_0C39`, `PID_0C33`, `PID_0C42`, `PID_0C4E`,
/// `PID_0C37`, `PID_0C40`, `PID_0C53`, `PID_0C5B`.
pub proof fn lemma_supported_models(upper: Seq<char>)
    ensures
        names_supported_lcd(upper) <==> contains_seq(upper, "VID_1B1C"@) && (
            contains_seq(upper, "PID_0C39"@) || contains_seq(upper, "PID_0C33"@)
            || contains_seq(upper, "PID_0C42"@) || contains_seq(upper, "PID_0C4E"@)
            || contains_seq(upper, "PID_0C37"@) || contains_seq(upper, "PID_0C40"@)
            || contains_seq(upper, "PID_0C53"@) || contains_seq(upper, "PID_0C5B"@)),
{
    let t = supported_pid_tags();
    assert(t[0] == "PID_0C39"@);
    assert(t[1] == "PID_0C33"@);
    assert(t[2] == "PID_0C42"@);
    assert(t[3] == "PID_0C4E"@);
    assert(t[4] == "PID_0C37"@);
    assert(t[5] == "PID_0C40"@);
    assert(t[6] == "PID_0C53"@);
    assert(t[7] == "PID_0C5B"@);
}

/// Whether an upper-cased path names a supported LCD.
pub fn upper_path_is_supported(upper: &Vec<char>) -> (r: bool)
    ensures
        r == names_supported_lcd(upper@),
{
    let vid = chars_of("VID_1B1C");
    if !contains(upper, &vid) {
        return false;
    }
    let tags: [&str; 8] = [
        "PID_0C39", "PID_0C33", "PID_0C42", "PID_0C4E",
        "PID_0C37", "PID_0C40", "PID_0C53", "PID_0C5B",
    ];
    assert(tags@.len() == 8);
    assert(forall|i: int| 0 <= i < 8 ==> (#[trigger] tags@[i])@ == supported_pid_tags()[i]);
    for i in 0..8usize
        invariant
            contains_seq(upper@, corsair_vendor_tag()),
            forall|j: int| 0 <= j < 8 ==> (#[trigger] tags@[j])@ == supported_pid_tags()[j],
            forall|j: int| 0 <= j < i ==> !contains_seq(upper@, #[trigger] supported_pid_tags()[j]),
    {
        let tag = chars_of(tags[i]);
        if contains(upper, &tag) {
            assert(contains_seq(upper@, supported_pid_tags()[i as int]));
            return true;
        }
    }
    false
}

/// The Unicode upper-case mapping of a string (`str::to_uppercase`).
pub uninterp spec fn unicode_uppercase(s: Seq<char>) -> Seq<char>;

/// `str::to_uppercase`: the result is the standard library's full Unicode
/// upper-case mapping of `s`, which is only named. Stated: a string of ASCII
/// characters maps character by character to ASCII upper case.
#[verifier::external_body]
fn to_uppercase(s: &str) -> (r: String)
    ensures
        r@ == unicode_uppercase(s@),
        (forall|i: int| 0 <= i < s@.len() ==> (s@[i] as u32) < 0x80) ==> r@ == crate::text::ascii_upper(s@),
{
    s.to_uppercase()
}

/// Whether an interface path belongs to a supported LCD: its Unicode upper
/// case names Corsair's vendor id and one of the supported product ids.
pub fn is_supported_device_path(path: &str) -> (r: bool)
    ensures
        r == names_supported_lcd(unicode_uppercase(path@)),
{
    let upper = to_uppercase(path);
    let chars = chars_of(upper.as_str());
    upper_path_is_supported(&chars)
}

/// The interface paths, in order, that belong to a supported LCD.
pub fn find_device_paths(paths: &Vec<String>) -> (r: Vec<String>)
    ensures
        r@.map_values(|s: String| s@) == paths@.map_values(|s: String| s@).filter(
            |p: Seq<char>| names_supported_lcd(unicode_uppercase(p)),
        ),
{
    let ghost pred = |p: Seq<char>| names_supported_lcd(unicode_uppercase(p));
    let ghost views = paths@.map_values(|s: String| s@);
    let mut r: Vec<String> = Vec::new();
    for i in 0..paths.len()
        invariant
            views == paths@.map_values(|s: String| s@),
            pred == (|p: Seq<char>| names_supported_lcd(unicode_uppercase(p))),
            r@.map_values(|s: String| s@) == views.take(i as int).filter(pred),
    {
        let ok = is_supported_device_path(paths[i].as_str());
        assert(views.take(i + 1).drop_last() =~= views.take(i as int));
        reveal_with_fuel(Seq::filter, 1);
        if ok {
            let p = paths[i].clone();
            r.push(p);
            assert(r@.map_values(|s: String| s@) =~= views.take(i as int).filter(pred).push(views[i as int]));
        } else {
            assert(r@.map_values(|s: String| s@) =~= views.take(i as int).filter(pred));
        }
    }
    assert(views.take(paths.len() as int) =~= views);
    r
}

// ---------------------------------------------------------------------
// The device-interface list

/// Splitting a zero-separated UTF-16 list: the completed entries so far
/// and where the current entry starts, after reading `buf[..i]`.
pub open spec fn multi_sz_state(buf: Seq<u16>, i: nat) -> (Seq<Seq<u16>>, int)
    decreases i,
{
    if i == 0 || i > buf.len() {
        (Seq::empty(), 0)
    } else {
        let (entries, start) = multi_sz_state(buf, (i - 1) as nat);
        if buf[i - 1] == 0 {
            if start < i - 1 {
                (entries.push(buf.subrange(start, i - 1)), i as int)
            } else {
                (entries, i as int)
            }
        } else {
            (entries, start)
        }
    }
}

/// The non-empty entries of a zero-separated list, each ended by a zero
/// (an unterminated tail is not an entry).
pub open spec fn multi_sz_entries(buf: Seq<u16>) -> Seq<Seq<u16>> {
    multi_sz_state(buf, buf.len()).0
}

proof fn lemma_multi_sz_start(buf: Seq<u16>, i: nat)
    requires
        i <= buf.len(),
    ensures
        0 <= multi_sz_state(buf, i).1 <= i,
    decreases i,
{
    if i > 0 {
        lemma_multi_sz_start(buf, (i - 1) as nat);
    }
}

/// Splits the interface list that Windows returns into its entries.
pub fn split_multi_sz(buf: &[u16]) -> (entries: Vec<Vec<u16>>)
    ensures
        entries@.map_values(|e: Vec<u16>| e@) == multi_sz_entries(buf@),
{
    let mut entries: Vec<Vec<u16>> = Vec::new();
    let mut start: usize = 0;
    for i in 0..buf.len()
        invariant
            entries@.map_values(|e: Vec<u16>| e@) == multi_sz_state(buf@, i as nat).0,
            start as int == multi_sz_state(buf@, i as nat).1,
            start <= i,
    {
        proof {
            lemma_multi_sz_start(buf@, i as nat);
        }
        if buf[i] == 0 {
            if start < i {
                let mut e: Vec<u16> = Vec::new();
                for k in start..i
                    invariant
                        start <= i < buf@.len(),
                        e@ == buf@.subrange(start as int, k as int),
                {
                    e.push(buf[k]);
                    assert(buf@.subrange(start as int, k as int).push(buf@[k as int]) =~= buf@.subrange(start as int, k + 1));
                }
                entries.push(e);
                assert(entries@.map_values(|e: Vec<u16>| e@) =~= multi_sz_state(buf@, (i + 1) as nat).0);
            }
            start = i + 1;
        }
    }
    entries
}

// ---------------------------------------------------------------------
// Device errors

/// Why talking to the LCD failed.
#[derive(Clone, Copy, Debug, PartialEq, Eq, Structural)]
pub enum DeviceError {
    /// No interface of a supported LCD is present.
    NotFound,
    /// Interfaces are present but none could be opened (last Windows error).
    Unavailable(u32),
    /// The brightness report was refused (Windows error).
    Brightness(u32),
    /// The rotation report was refused (Windows error).
    Rotation(u32),
    /// A feature report was refused (Windows error).
    Feature(u32),
    /// A frame packet could not be written (Windows error).
    Write(u32),
}

pub open spec fn device_error_text(e: DeviceError) -> Seq<char> {
    match e {
        DeviceError::NotFound => "Waiting for a supported Corsair LCD..."@,
        DeviceError::Unavailable(code) => "Corsair LCD found but unavailable (Windows error "@
            + decimal(code as nat) + "). Close iCUE if it is using the screen."@,
        DeviceError::Brightness(code) => "HidD_SetFeature (brightness) failed: "@ + decimal(
            code as nat,
        ),
        DeviceError::Rotation(code) => "HidD_SetFeature (rotation) failed: "@ + decimal(code as nat),
        DeviceError::Feature(code) => "HidD_SetFeature failed with Windows error "@ + decimal(
            code as nat,
        ),
        DeviceError::Write(code) => "WriteFile failed with error "@ + decimal(code as nat),
    }
}

impl DeviceError {
    /// The error text.
    pub fn message(&self) -> (s: String)
        ensures
            s@ == device_error_text(*self),
    {
        let mut v: Vec<char> = Vec::new();
        match *self {
            DeviceError::NotFound => push_str(&mut v, "Waiting for a supported Corsair LCD..."),
            DeviceError::Unavailable(code) => {
                push_str(&mut v, "Corsair LCD found but unavailable (Windows error ");
                push_decimal(&mut v, code as u64);
                push_str(&mut v, "). Close iCUE if it is using the screen.");
            },
            DeviceError::Brightness(code) => {
                push_str(&mut v, "HidD_SetFeature (brightness) failed: ");
                push_decimal(&mut v, code as u64);
            },
            DeviceError::Rotation(code) => {
                push_str(&mut v, "HidD_SetFeature (rotation) failed: ");
                push_decimal(&mut v, code as u64);
            },
            DeviceError::Feature(code) => {
                push_str(&mut v, "HidD_SetFeature failed with Windows error ");
                push_decimal(&mut v, code as u64);
            },
            DeviceError::Write(code) => {
                push_str(&mut v, "WriteFile failed with error ");
                push_decimal(&mut v, code as u64);
            },
        }
        string_of(&v)
    }
}

/// Opening the LCD: with no supported interface there is nothing to wait
/// for but the device; otherwise the first interface that opens is used,
/// and when none does the last Windows error is reported.
pub fn open_result(path_count: usize, opened: Option<usize>, last_error: u32) -> (r: Result<
    usize,
    DeviceError,
>)
    requires
        opened matches Some(i) ==> i < path_count,
    ensures
        r == (if path_count == 0 {
            Err(DeviceError::NotFound)
        } else {
            match opened {
                Some(i) => Ok(i),
                None => Err(DeviceError::Unavailable(last_error)),
            }
        }),
{
    if path_count == 0 {
        return Err(DeviceError::NotFound);
    }
    match opened {
        Some(i) => Ok(i),
        None => Err(DeviceError::Unavailable(last_error)),
    }
}

/// The note written when handing the LCD back to its hardware screen
/// failed: the mode switch error, and whether the black fallback frame that
/// was sent instead got through.
pub open spec fn release_note(switch_error: Seq<char>, fallback: Result<(), Seq<char>>) -> Seq<char> {
    match fallback {
        Err(fb) => "Hardware mode switch failed: "@ + switch_error
            + "; fallback black frame failed: "@ + fb,
        Ok(()) => "Hardware mode switch failed: "@ + switch_error + "; black fallback frame sent"@,
    }
}

/// The note for a failed hand-back (see `release_note`).
pub fn release_failure_note(switch_error: &str, fallback: &Result<(), String>) -> (s: String)
    ensures
        s@ == release_note(
            switch_error@,
            match fallback {
                Ok(()) => Ok(()),
                Err(e) => Err(e@),
            },
        ),
{
    let mut v: Vec<char> = Vec::new();
    push_str(&mut v, "Hardware mode switch failed: ");
    push_str(&mut v, switch_error);
    match fallback {
        Err(fb) => {
            push_str(&mut v, "; fallback black frame failed: ");
            push_str(&mut v, fb.as_str());
        },
        Ok(()) => {
            push_str(&mut v, "; black fallback frame sent");
        },
    }
    string_of(&v)
}

// ---------------------------------------------------------------------
// Flashing a hardware image through the vendor library

/// One call into the vendor library while flashing, in order.
#[derive(Clone, Copy, Debug, PartialEq, Eq, Structural)]
pub enum FlashStep {
    /// Store the JPEG as the hardware-mode background.
    UpdateBackground,
    /// Store the animation segment (`animation_segment`) with its CRC-32.
    UpdateAnimation,
    /// Remove the sensor widgets.
    DeleteScreenConfig,
    /// Apply the screen configuration.
    PerformScreenConfig,
    /// Show (1) or hide (0) the overlay item with this id.
    SetVisible(u8, u8),
    /// Select hardware mode 0: image/animation, not sensor numbers.
    SetHardwareMode(i32),
    /// Select customized-animation slot 0.
    SetCustomizedAnimation(u16),
    /// Select boot-animation slot 0.
    SetBootAnimation(u16),
    PlayCustomizedAnimation,
    PlayBootAnimation,
    /// Show the JPEG full screen right away.
    ShowFullScreenImage,
    EnterHardwareMode,
}

/// Which optional exports the vendor library has.
#[derive(Clone, Copy, Debug, PartialEq, Eq, Structural)]
pub struct OptionalExports {
    pub update_animation: bool,
    pub delete_config: bool,
    pub set_customized: bool,
    pub set_boot: bool,
    pub play_customized: bool,
    pub play_boot: bool,
    pub enter_hardware: bool,
}

pub open spec fn when(present: bool, steps: Seq<FlashStep>) -> Seq<FlashStep> {
    if present { steps } else { Seq::empty() }
}

/// The calls that flash an image, once the device is open: the background,
/// the animation segment, removing the sensor widgets, hiding overlay items
/// 1 to 8 and showing item 0, applying that, hardware mode 0, selecting and
/// playing the animation slots, showing the image and entering hardware
/// mode; each optional call only when the library exports it.
pub open spec fn flash_steps_spec(o: OptionalExports) -> Seq<FlashStep> {
    seq![FlashStep::UpdateBackground]
        + when(o.update_animation, seq![FlashStep::UpdateAnimation])
        + when(o.delete_config, seq![FlashStep::DeleteScreenConfig, FlashStep::PerformScreenConfig])
        + Seq::new(8, |i: int| FlashStep::SetVisible((i + 1) as u8, 0))
        + seq![FlashStep::SetVisible(0, 1), FlashStep::PerformScreenConfig, FlashStep::SetHardwareMode(0)]
        + when(o.set_customized, seq![FlashStep::SetCustomizedAnimation(0)])
        + when(o.set_boot, seq![FlashStep::SetBootAnimation(0)])
        + when(o.play_customized, seq![FlashStep::PlayCustomizedAnimation])
        + when(o.play_boot, seq![FlashStep::PlayBootAnimation])
        + seq![FlashStep::ShowFullScreenImage]
        + when(o.enter_hardware, seq![FlashStep::EnterHardwareMode])
}

fn push_when(v: &mut Vec<FlashStep>, present: bool, step: FlashStep)
    ensures
        final(v)@ == old(v)@ + when(present, seq![step]),
{
    if present {
        v.push(step);
        assert(final(v)@ =~= old(v)@ + seq![step]);
    } else {
        assert(old(v)@ + when(present, seq![step]) =~= old(v)@);
    }
}

/// Order law: flashing always starts by storing the image as the hardware
/// background and, whichever optional exports the library has, ends by
/// showing it full screen, followed only by entering hardware mode when
/// that export exists.
pub proof fn lemma_flash_order(o: OptionalExports)
    ensures
        flash_steps_spec(o)[0] == FlashStep::UpdateBackground,
        o.enter_hardware ==> flash_steps_spec(o).last() == FlashStep::EnterHardwareMode
            && flash_steps_spec(o)[flash_steps_spec(o).len() - 2] == FlashStep::ShowFullScreenImage,
        !o.enter_hardware ==> flash_steps_spec(o).last() == FlashStep::ShowFullScreenImage,
{
}

/// The vendor-library calls that flash an image (see `flash_steps_spec`).
pub fn flash_steps(o: OptionalExports) -> (steps: Vec<FlashStep>)
    ensures
        steps@ == flash_steps_spec(o),
{
    let mut v: Vec<FlashStep> = Vec::new();
    v.push(FlashStep::UpdateBackground);
    let ghost a = v@;
    push_when(&mut v, o.update_animation, FlashStep::UpdateAnimation);
    let ghost b = v@;
    if o.delete_config {
        v.push(FlashStep::DeleteScreenConfig);
        v.push(FlashStep::PerformScreenConfig);
    }
    assert(v@ =~= b + when(o.delete_config, seq![FlashStep::DeleteScreenConfig, FlashStep::PerformScreenConfig]));
    let ghost c = v@;
    let mut item: u8 = 1;
    while item <= 8
        invariant
            1 <= item <= 9,
            v@ == c + Seq::new((item - 1) as nat, |i: int| FlashStep::SetVisible((i + 1) as u8, 0)),
        decreases 9 - item,
    {
        v.push(FlashStep::SetVisible(item, 0));
        assert(v@ =~= c + Seq::new(item as nat, |i: int| FlashStep::SetVisible((i + 1) as u8, 0)));
        item = item + 1;
    }
    let ghost d = v@;
    v.push(FlashStep::SetVisible(0, 1));
    v.push(FlashStep::PerformScreenConfig);
    v.push(FlashStep::SetHardwareMode(0));
    assert(v@ =~= d + seq![FlashStep::SetVisible(0, 1), FlashStep::PerformScreenConfig, FlashStep::SetHardwareMode(0)]);
    push_when(&mut v, o.set_customized, FlashStep::SetCustomizedAnimation(0));
    push_when(&mut v, o.set_boot, FlashStep::SetBootAnimation(0));
    push_when(&mut v, o.play_customized, FlashStep::PlayCustomizedAnimation);
    push_when(&mut v, o.play_boot, FlashStep::PlayBootAnimation);
    let ghost e = v@;
    v.push(FlashStep::ShowFullScreenImage);
    assert(v@ =~= e + seq![FlashStep::ShowFullScreenImage]);
    push_when(&mut v, o.enter_hardware, FlashStep::EnterHardwareMode);
    assert(v@ =~= flash_steps_spec(o));
    v
}

/// The serial number as the vendor library takes it: its UTF-8 bytes and a
/// terminating zero (the length passed excludes the zero).
pub fn serial_argument(serial: &str) -> (b: Vec<u8>)
    ensures
        b@ == serial.spec_bytes().push(0),
{
    let bytes = serial.as_bytes();
    let mut v = vstd::slice::slice_to_vec(bytes);
    v.push(0);
    v
}

/// The text reported when flashing failed both ways.
pub open spec fn flash_failure_text() -> Seq<char> {
    "Failed to flash image to Corsair Elite LCD. Ensure the device is connected and not locked by another application."@
}

/// The result of flashing: it counts as done when the vendor library
/// accepted the background (`0` from its update call) or the image was
/// shown over the LCD's own interface.
pub fn flash_outcome(background_result: Option<i32>, shown_directly: bool) -> (r: Result<(), String>)
    ensures
        r is Ok <==> (background_result == Some(0i32) || shown_directly),
        r matches Err(e) ==> e@ == flash_failure_text(),
{
    let flashed = match background_result {
        Some(code) => code == 0,
        None => false,
    };
    if flashed || shown_directly {
        Ok(())
    } else {
        let mut v: Vec<char> = Vec::new();
        push_str(&mut v, "Failed to flash image to Corsair Elite LCD. Ensure the device is connected and not locked by another application.");
        Err(string_of(&v))
    }
}

} // verus!
