//! Fans: the keys read from the System Management Controller and the
//! values decoded from its replies.
use crate::processes;
use crate::text;
use vstd::prelude::*;

verus! {

/// The four-character code of an SMC key: its first four bytes, big-endian;
/// `None` for a key shorter than four bytes.
pub open spec fn smc_key_code_of(key: Seq<u8>) -> Option<nat> {
    if key.len() < 4 {
        None
    } else {
        Some(processes::be_u32(key))
    }
}

/// The four-character code of an SMC key.
pub fn smc_key_code(key: &[u8]) -> (r: Option<u32>)
    ensures
        match r {
            Some(c) => smc_key_code_of(key@) == Some(c as nat),
            None => smc_key_code_of(key@) is None,
        },
{
    if key.len() < 4 {
        return None;
    }
    Some((key[3] as u32) + (key[2] as u32) * 256 + (key[1] as u32) * 65536 + (key[0] as u32) * 16777216)
}

/// The key of a fan's reading: `F`, the fan's index, and the reading's
/// suffix (`Ac` where the suffix is not UTF-8).
pub open spec fn fan_key_of(index: u32, suffix: Seq<u8>) -> Seq<char> {
    "F"@ + text::decimal(index as nat) + if vstd::utf8::valid_utf8(suffix) {
        vstd::utf8::decode_utf8(suffix)
    } else {
        "Ac"@
    }
}

/// The key of a fan's reading.
pub fn fan_key(index: u32, suffix: &[u8]) -> (r: String)
    ensures
        r@ == fan_key_of(index, suffix@),
{
    let mut v = text::chars_of("F");
    let d = text::decimal_exec(index as u64);
    text::append_chars(&mut v, d.as_slice());
    let s = match text::str_from_utf8(suffix) {
        Some(s) => s,
        None => "Ac",
    };
    let sc = text::chars_of(s);
    text::append_chars(&mut v, sc.as_slice());
    text::string_of(v.as_slice())
}

/// The value of a one-byte reply: its first byte, 0 where the reply is
/// empty.
pub fn smc_u8_value(bytes: &[u8; 32], data_size: u32) -> (r: u8)
    ensures
        r == (if data_size >= 1 {
            bytes@[0]
        } else {
            0u8
        }),
{
    if data_size >= 1 {
        bytes[0]
    } else {
        0
    }
}

/// The speed in a two-byte fixed-point (`fpe2`) reply: the two bytes
/// big-endian over 4, rounded down; 0 where the reply is shorter.
pub open spec fn fpe2_value(bytes: Seq<u8>, data_size: u32) -> nat {
    if data_size >= 2 {
        (bytes[0] as nat * 256 + bytes[1] as nat) / 4
    } else {
        0
    }
}

/// The speed in a two-byte fixed-point reply, in revolutions per minute.
pub fn smc_fpe2_rpm(bytes: &[u8; 32], data_size: u32) -> (r: u64)
    ensures
        r == fpe2_value(bytes@, data_size),
{
    if data_size >= 2 {
        let b0 = bytes[0];
        let b1 = bytes[1];
        let raw: u16 = ((b0 as u16) << 8u16) | (b1 as u16);
        assert(raw == b0 as nat * 256 + b1 as nat) by (bit_vector)
            requires
                raw == ((b0 as u16) << 8u16) | (b1 as u16),
        ;
        (raw / 4) as u64
    } else {
        0
    }
}

/// The label of the `i`-th fan: `Fan <i>`.
pub fn fan_label(i: u32) -> (r: String)
    ensures
        r@ == "Fan "@ + text::decimal(i as nat),
{
    let mut v = text::chars_of("Fan ");
    let d = text::decimal_exec(i as u64);
    text::append_chars(&mut v, d.as_slice());
    text::string_of(v.as_slice())
}

/// The highest speed of a fan: what it reports, at least 1.
pub fn fan_max_speed(reported: u64) -> (r: u64)
    ensures
        r == (if reported >= 1 {
            reported
        } else {
            1
        }),
{
    if reported >= 1 {
        reported
    } else {
        1
    }
}

} // verus!
