use vstd::prelude::*;
use vstd::string::StrSliceExecFns;
use vstd::string::StringExecFns;

verus! {

/// The version nibble of a 128-bit identifier (bits 79..=76).
pub open spec fn id_version(id: u128) -> u128 {
    (id >> 76) & 0xf
}

/// The variant bits of an identifier (bits 63..=62).
pub open spec fn id_variant(id: u128) -> u128 {
    (id >> 62) & 0x3
}

/// An identifier embeds a recoverable creation time exactly when its
/// version nibble is 7.
pub open spec fn id_is_timestamped(id: u128) -> bool {
    id_version(id) == 7
}

/// The millisecond Unix timestamp embedded in the top 48 bits.
pub open spec fn id_millis(id: u128) -> u128 {
    id >> 80
}

/// The whole seconds of the embedded timestamp.
pub open spec fn id_unix_secs(id: u128) -> u128 {
    id_millis(id) / 1000
}

/// The sub-second part of the embedded timestamp, in nanoseconds.
pub open spec fn id_unix_nanos(id: u128) -> u128 {
    ((id_millis(id) % 1000) * 1_000_000) as u128
}

/// Relies on `uuid::Uuid::now_v7` read as a 128-bit big-endian value: the
/// generated identifier always carries version nibble 7 and the RFC 4122
/// variant, with the current Unix time in milliseconds in its top 48 bits.
#[verifier::external_body]
pub(crate) fn fresh_event_id() -> (r: u128)
    ensures
        id_is_timestamped(r),
        id_variant(r) == 2,
{
    uuid::Uuid::now_v7().as_u128()
}

/// Recovers the embedded (seconds, nanoseconds) creation time of an
/// identifier, or nothing when the identifier is not of the timestamped
/// version.
pub fn extract_timestamp(id: u128) -> (r: Option<(u64, u32)>)
    ensures
        r is Some <==> id_is_timestamped(id),
        id_is_timestamped(id) ==> r == Some(((id_unix_secs(id) as u64), (id_unix_nanos(id) as u32))),
{
    proof {
        assert((id >> 76) & 0xf < 16) by (bit_vector);
        assert(id >> 80 < 0x1_0000_0000_0000) by (bit_vector);
    }
    let version = ((id >> 76) & 0xf) as u8;
    if version == 7 {
        let millis = (id >> 80) as u64;
        let secs = millis / 1000;
        let nanos = ((millis % 1000) as u32) * 1_000_000;
        Some((secs, nanos))
    } else {
        None
    }
}

/// Identifier order carries over to the embedded creation times: of two
/// identifiers, the smaller one embeds the earlier (or the same) timestamp,
/// so identifiers generated in non-decreasing order have non-decreasing
/// embedded timestamps.
pub proof fn lemma_id_order_preserves_millis(a: u128, b: u128)
    requires
        a <= b,
    ensures
        id_millis(a) <= id_millis(b),
{
    assert(a <= b ==> a >> 80 <= b >> 80) by (bit_vector);
}

/// Extracting the embedded time of an identifier loses nothing beyond the
/// generator's millisecond resolution: the (seconds, nanoseconds) pair maps
/// back to the exact embedded millisecond count.
pub proof fn lemma_timestamp_roundtrip(id: u128)
    ensures
        id_unix_secs(id) * 1000 + id_unix_nanos(id) / 1_000_000 == id_millis(id),
{
    let m = id_millis(id);
    assert(m / 1000 * 1000 + m % 1000 == m) by (nonlinear_arith);
    assert((m % 1000) * 1_000_000 / 1_000_000 == m % 1000) by (nonlinear_arith);
}

/// The hexadecimal character for one value below 16.
pub open spec fn spec_hex_digit(d: u128) -> char {
    if d == 0 {
        '0'
    } else if d == 1 {
        '1'
    } else if d == 2 {
        '2'
    } else if d == 3 {
        '3'
    } else if d == 4 {
        '4'
    } else if d == 5 {
        '5'
    } else if d == 6 {
        '6'
    } else if d == 7 {
        '7'
    } else if d == 8 {
        '8'
    } else if d == 9 {
        '9'
    } else if d == 10 {
        'a'
    } else if d == 11 {
        'b'
    } else if d == 12 {
        'c'
    } else if d == 13 {
        'd'
    } else if d == 14 {
        'e'
    } else {
        'f'
    }
}

/// The i-th hexadecimal digit of an identifier, counted from the most
/// significant one.
pub open spec fn id_nibble(id: u128, i: int) -> u128 {
    (id >> ((124 - 4 * i) as u128)) & 0xf
}

/// The first `upto` hexadecimal digits of an identifier.
pub open spec fn spec_hex_prefix(id: u128, upto: int) -> Seq<char>
    decreases upto,
{
    if upto <= 0 {
        Seq::empty()
    } else {
        spec_hex_prefix(id, upto - 1).push(spec_hex_digit(id_nibble(id, upto - 1)))
    }
}

/// The canonical hyphenated rendering of an identifier: 32 lowercase
/// hexadecimal digits in five groups of 8, 4, 4, 4 and 12.
pub open spec fn spec_id_hyphenated(id: u128) -> Seq<char> {
    let h = spec_hex_prefix(id, 32);
    h.subrange(0, 8) + seq!['-'] + h.subrange(8, 12) + seq!['-'] + h.subrange(12, 16)
        + seq!['-'] + h.subrange(16, 20) + seq!['-'] + h.subrange(20, 32)
}

fn hex_digit(d: u128) -> (c: char)
    requires
        d < 16,
    ensures
        c == spec_hex_digit(d),
{
    match d {
        0 => '0',
        1 => '1',
        2 => '2',
        3 => '3',
        4 => '4',
        5 => '5',
        6 => '6',
        7 => '7',
        8 => '8',
        9 => '9',
        10 => 'a',
        11 => 'b',
        12 => 'c',
        13 => 'd',
        14 => 'e',
        _ => 'f',
    }
}

fn render_id_hex(id: u128) -> (r: String)
    ensures
        r@ == spec_hex_prefix(id, 32),
        r@.len() == 32,
{
    let mut s = String::new();
    let mut i: usize = 0;
    while i < 32
        invariant
            i <= 32,
            s@ == spec_hex_prefix(id, i as int),
            s@.len() == i,
        decreases 32 - i,
    {
        let shift: u128 = 124 - 4 * (i as u128);
        let nib = (id >> shift) & 0xf;
        proof {
            let sh = shift;
            assert((id >> sh) & 0xf < 16) by (bit_vector);
        }
        s.push(hex_digit(nib));
        i = i + 1;
    }
    s
}

/// Renders an identifier in its canonical hyphenated form.
pub fn render_id_hyphenated(id: u128) -> (r: String)
    ensures
        r@ == spec_id_hyphenated(id),
        r@.len() == 36,
{
    let h = render_id_hex(id);
    let hs = h.as_str();
    let mut r = String::from_str(hs.substring_char(0, 8));
    r.append("-");
    r.append(hs.substring_char(8, 12));
    r.append("-");
    r.append(hs.substring_char(12, 16));
    r.append("-");
    r.append(hs.substring_char(16, 20));
    r.append("-");
    r.append(hs.substring_char(20, 32));
    proof {
        reveal_strlit("-");
        assert("-"@ =~= seq!['-']);
        assert(r@ =~= spec_id_hyphenated(id));
    }
    r
}

} // verus!
