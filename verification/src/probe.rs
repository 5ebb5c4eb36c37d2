//! Formatting what the vendor driver's device-to-host query returned: a
//! byte string in hex and a summary of one 512-byte input event.

use vstd::prelude::*;
use crate::text::{decimal, hex_padded, push_decimal, push_hex_padded, push_str, string_of};

verus! {

/// The bytes as two-digit lower-case hex numbers separated by spaces.
pub open spec fn hex_text(bytes: Seq<u8>) -> Seq<char>
    decreases bytes.len(),
{
    if bytes.len() == 0 {
        Seq::empty()
    } else if bytes.len() == 1 {
        hex_padded(bytes[0] as nat, 2)
    } else {
        hex_text(bytes.drop_last()) + " "@ + hex_padded(bytes.last() as nat, 2)
    }
}

fn push_hex_bytes(v: &mut Vec<char>, bytes: &[u8], lo: usize, hi: usize)
    requires
        lo <= hi <= bytes@.len(),
    ensures
        final(v)@ == old(v)@ + hex_text(bytes@.subrange(lo as int, hi as int)),
{
    let ghost start = v@;
    for i in lo..hi
        invariant
            lo <= hi <= bytes@.len(),
            v@ == start + hex_text(bytes@.subrange(lo as int, i as int)),
    {
        let ghost before = v@;
        if i != lo {
            push_str(v, " ");
        }
        push_hex_padded(v, bytes[i] as u64, 2);
        proof {
            let t = bytes@.subrange(lo as int, i + 1);
            assert(t.drop_last() =~= bytes@.subrange(lo as int, i as int));
            assert(t.last() == bytes@[i as int]);
            if i == lo {
                assert(bytes@.subrange(lo as int, i as int) =~= Seq::<u8>::empty());
                assert(v@ =~= start + hex_text(t));
            } else {
                assert(v@ =~= start + hex_text(t));
            }
        }
    }
}

/// The bytes in hex, space separated.
pub fn hex(bytes: &[u8]) -> (s: String)
    ensures
        s@ == hex_text(bytes@),
{
    let mut v: Vec<char> = Vec::new();
    push_hex_bytes(&mut v, bytes, 0, bytes.len());
    assert(bytes@.subrange(0, bytes@.len() as int) =~= bytes@);
    string_of(&v)
}

/// The little-endian length an event declares for its payload.
pub open spec fn declared_len(e: Seq<u8>) -> nat {
    (e[1] as int + e[2] as int * 256 + e[3] as int * 65536 + e[4] as int * 16777216) as nat
}

/// How many payload bytes an event summary shows: the declared length,
/// limited to the 507 payload bytes of the report and then to 96.
pub open spec fn preview_len(e: Seq<u8>) -> int {
    let available = 507int;
    let payload = if declared_len(e) < available { declared_len(e) as int } else { available };
    if payload < 96 { payload } else { 96 }
}

/// The summary of an input event: its type, declared payload length, and
/// the first payload bytes in hex.
pub open spec fn event_summary(e: Seq<u8>) -> Seq<char> {
    "event_type=0x"@ + hex_padded(e[0] as nat, 2) + " declared_payload="@ + decimal(declared_len(e))
        + " payload_preview["@ + decimal(preview_len(e) as nat) + "]="@
        + hex_text(e.subrange(5, 5 + preview_len(e)))
}

/// Summarises a 512-byte input event: type byte, little-endian declared
/// length at bytes 1..5, payload from byte 5.
pub fn parse_event(event: &[u8; 512]) -> (s: String)
    ensures
        s@ == event_summary(event@),
{
    let event_type = event[0];
    let declared: u32 = (event[1] as u32) + (event[2] as u32) * 256 + (event[3] as u32) * 65536 + (event[4] as u32) * 16777216;
    let available: u64 = 512 - 5;
    let payload_len: u64 = if (declared as u64) < available { declared as u64 } else { available };
    let preview: u64 = if payload_len < 96 { payload_len } else { 96 };
    let mut v: Vec<char> = Vec::new();
    push_str(&mut v, "event_type=0x");
    push_hex_padded(&mut v, event_type as u64, 2);
    push_str(&mut v, " declared_payload=");
    push_decimal(&mut v, declared as u64);
    push_str(&mut v, " payload_preview[");
    push_decimal(&mut v, preview);
    push_str(&mut v, "]=");
    let bytes: &[u8] = event.as_slice();
    push_hex_bytes(&mut v, bytes, 5, 5 + preview as usize);
    assert(v@ =~= event_summary(event@));
    string_of(&v)
}

} // verus!
