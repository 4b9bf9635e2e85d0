//! The `DeltaSetIndexMap` of variable fonts: a table that maps an index (such as a
//! glyph ID) to an outer and an inner index into an item variation store.
//!
//! Layout: a format byte, an entry-format byte, then the entry count (`mapCount`),
//! two bytes big-endian for format 0 and four bytes for any other format, then the
//! entries. Each entry is `entry size` bytes, big-endian; its low
//! `inner index bit count` bits are the inner index, the rest the outer index.

use vstd::prelude::*;
use vstd::arithmetic::power2::{pow2, lemma_pow2_pos, lemma_pow2_adds, lemma2_to64};
use vstd::arithmetic::div_mod::lemma_fundamental_div_mod;
use vstd::bits::{
    low_bits_mask,
    lemma_u32_shr_is_div,
    lemma_u32_shl_is_mul,
    lemma_u32_low_bits_mask_is_mod,
};

verus! {

/// The unsigned value of `bytes` read big-endian.
pub open spec fn be_value(bytes: Seq<u8>) -> nat
    decreases bytes.len(),
{
    if bytes.len() == 0 {
        0
    } else {
        be_value(bytes.drop_last()) * 256 + bytes.last() as nat
    }
}

/// The length of the header: format, entry format and a two-byte count for format 0;
/// a four-byte count for every other format.
pub open spec fn header_len(format: u8) -> int {
    if format == 0 {
        4
    } else {
        6
    }
}

/// The size in bytes of one entry: bits 4 and 5 of the entry format, plus one.
pub open spec fn entry_size_of(entry_format: u8) -> nat {
    ((entry_format / 16) % 4 + 1) as nat
}

/// The number of low bits of an entry that hold the inner index: the low four bits
/// of the entry format, plus one.
pub open spec fn inner_bit_count_of(entry_format: u8) -> nat {
    (entry_format % 16 + 1) as nat
}

/// The data holds a full header.
pub open spec fn has_header(data: Seq<u8>) -> bool {
    data.len() >= 2 && data.len() >= header_len(data[0])
}

/// The number of entries (`mapCount`) that the header declares.
pub open spec fn map_count_of(data: Seq<u8>) -> nat
    recommends
        has_header(data),
{
    be_value(data.subrange(2, header_len(data[0])))
}

/// The entry that `index` resolves to: itself, or the last entry when it is past the
/// end ("If a given glyph ID is greater than mapCount-1, then the last entry is used").
pub open spec fn clamped_index(index: u32, count: nat) -> nat {
    if index >= count {
        (count - 1) as nat
    } else {
        index as nat
    }
}

/// The offset in `data` of the entry that `index` resolves to.
pub open spec fn entry_start(data: Seq<u8>, index: u32) -> int {
    header_len(data[0]) + entry_size_of(data[1]) * clamped_index(index, map_count_of(data))
}

/// The value of the entry that `index` resolves to.
pub open spec fn entry_value(data: Seq<u8>, index: u32) -> nat {
    let start = entry_start(data, index);
    be_value(data.subrange(start, start + entry_size_of(data[1])))
}

/// What mapping `index` gives: `None` when the header is cut short, the map is empty,
/// the entry lies past the end of the data, or the outer index does not fit in 16 bits;
/// else the outer index (the entry's high bits) and the inner index (its low
/// `inner_bit_count_of` bits).
pub open spec fn map_index(data: Seq<u8>, index: u32) -> Option<(u16, u16)> {
    if !has_header(data) || map_count_of(data) == 0 {
        None
    } else if entry_start(data, index) + entry_size_of(data[1]) > data.len() {
        None
    } else {
        let value = entry_value(data, index);
        let bits = inner_bit_count_of(data[1]);
        let outer = value / pow2(bits);
        let inner = value % pow2(bits);
        if outer > u16::MAX {
            None
        } else {
            Some((outer as u16, inner as u16))
        }
    }
}

/// A value read big-endian from `n` bytes is below 2^(8n).
pub proof fn lemma_be_value_bound(bytes: Seq<u8>)
    ensures
        be_value(bytes) < pow2(8 * bytes.len()),
    decreases bytes.len(),
{
    if bytes.len() == 0 {
        lemma2_to64();
    } else {
        let rest = bytes.drop_last();
        lemma_be_value_bound(rest);
        lemma_pow2_adds(8 * rest.len(), 8);
        lemma2_to64();
        let p = pow2(8 * rest.len());
        let v = be_value(rest);
        let b = bytes.last();
        assert(v * 256 + b < p * 256) by (nonlinear_arith)
            requires
                v < p,
                b < 256,
        ;
        assert(8 * bytes.len() == 8 * rest.len() + 8);
    }
}

/// A `DeltaSetIndexMap` table over its raw bytes; its view is those bytes.
#[derive(Clone, Copy, Debug)]
pub struct DeltaSetIndexMap<'a> {
    data: &'a [u8],
}

impl<'a> View for DeltaSetIndexMap<'a> {
    type V = Seq<u8>;

    closed spec fn view(&self) -> Seq<u8> {
        self.data@
    }
}

/// Reads `len` bytes of `data` from `start` as a big-endian number.
fn read_be(data: &[u8], start: usize, len: usize) -> (value: u32)
    requires
        len <= 4,
        start + len <= data@.len(),
    ensures
        value == be_value(data@.subrange(start as int, start + len)),
{
    let mut value: u32 = 0;
    let mut i: usize = 0;
    let total = data.len();
    while i < len
        invariant
            total == data@.len(),
            i <= len <= 4,
            start + len <= data@.len(),
            value == be_value(data@.subrange(start as int, start + i)),
        decreases len - i,
    {
        let ghost prefix = data@.subrange(start as int, start + i);
        let ghost next = data@.subrange(start as int, start + i + 1);
        proof {
            lemma_be_value_bound(prefix);
            lemma2_to64();
            assert(pow2(8 * prefix.len()) <= 0x1000000) by {
                if i == 0 {
                } else if i == 1 {
                } else if i == 2 {
                } else {
                    assert(i == 3);
                }
            }
            assert(next.drop_last() =~= prefix);
            assert(start + i < data@.len());
        }
        let byte = data[start + i];
        assert(value < 0x1000000 ==> value << 8 == value * 256) by (bit_vector);
        value = (value << 8) + byte as u32;
        i = i + 1;
    }
    value
}

impl<'a> DeltaSetIndexMap<'a> {
    /// Creates a map over the raw bytes of a `DeltaSetIndexMap` table.
    #[inline]
    pub fn new(data: &'a [u8]) -> (map: Self)
        ensures
            map@ == data@,
    {
        DeltaSetIndexMap { data }
    }

    /// Maps `index` to an outer and an inner index, as `map_index` states.
    ///
    /// An index past the end of the map is clamped to the last entry. A declared entry
    /// count that puts the entry past the end of the data is rejected rather than read.
    #[inline]
    pub fn map(&self, index: u32) -> (mapped: Option<(u16, u16)>)
        ensures
            mapped == map_index(self@, index),
    {
        let data = self.data;
        if data.len() < 2 {
            return None;
        }
        let format = data[0];
        let entry_format = data[1];
        let header: usize = if format == 0 {
            4
        } else {
            6
        };
        if data.len() < header {
            return None;
        }
        let map_count = read_be(data, 2, header - 2);
        if map_count == 0 {
            return None;
        }
        // 'If a given glyph ID is greater than mapCount-1, then the last entry is used.'
        let clamped = if index >= map_count {
            map_count - 1
        } else {
            index
        };
        assert(((entry_format >> 4) & 3) + 1 == entry_size_of(entry_format)) by (bit_vector);
        assert((entry_format & 0xF) + 1 == inner_bit_count_of(entry_format)) by (bit_vector);
        let entry_size: usize = (((entry_format >> 4) & 3) + 1) as usize;
        let inner_index_bit_count: u32 = ((entry_format & 0xF) + 1) as u32;

        // The declared count is a raw number from the font: the offset it leads to may
        // lie far past the buffer, so it is computed and checked without overflow.
        let offset = match entry_size.checked_mul(clamped as usize) {
            Some(offset) => offset,
            None => return None,
        };
        let start = match header.checked_add(offset) {
            Some(start) => start,
            None => return None,
        };
        if start > data.len() || entry_size > data.len() - start {
            return None;
        }
        assert(start == entry_start(data@, index));
        let n = read_be(data, start, entry_size);

        proof {
            let bits = inner_index_bit_count as nat;
            lemma_u32_shr_is_div(n, inner_index_bit_count);
            lemma2_to64();
            lemma_u32_shl_is_mul(1, inner_index_bit_count);
            assert(low_bits_mask(bits) == pow2(bits) - 1);
            lemma_u32_low_bits_mask_is_mod(n, bits);
            lemma_pow2_pos(bits);
            assert(pow2(bits) <= 0x10000) by {
                if bits < 16 {
                    vstd::arithmetic::power2::lemma_pow2_strictly_increases(bits, 16);
                }
            }
        }
        let outer_index = n >> inner_index_bit_count;
        let inner_index = n & ((1u32 << inner_index_bit_count) - 1);
        if outer_index > 0xFFFF {
            return None;
        }
        Some((outer_index as u16, inner_index as u16))
    }
}

/// An index past the end of the map is answered as the last entry is: the last entry
/// is used for every index at or beyond the declared count.
pub proof fn lemma_index_past_end_uses_last_entry(data: Seq<u8>, index: u32)
    requires
        has_header(data),
        0 < map_count_of(data) <= index,
    ensures
        map_count_of(data) - 1 <= u32::MAX,
        map_index(data, index) == map_index(data, (map_count_of(data) - 1) as u32),
{
    let count_bytes = data.subrange(2, header_len(data[0]));
    lemma_be_value_bound(count_bytes);
    lemma2_to64();
    assert(pow2(8 * count_bytes.len()) <= 0x1_0000_0000) by {
        if count_bytes.len() == 2 {
        } else {
            assert(count_bytes.len() == 4);
        }
    }
}

/// A mapped entry splits into its two indices without loss: the inner index is below
/// 2^(inner bit count), and outer * 2^(inner bit count) + inner is the entry's value.
pub proof fn lemma_mapped_indices_split_the_entry(data: Seq<u8>, index: u32)
    requires
        map_index(data, index) is Some,
    ensures
        ({
            let (outer, inner) = map_index(data, index)->0;
            let bits = inner_bit_count_of(data[1]);
            &&& inner < pow2(bits)
            &&& outer * pow2(bits) + inner == entry_value(data, index)
        }),
{
    let bits = inner_bit_count_of(data[1]);
    let value = entry_value(data, index);
    lemma_pow2_pos(bits);
    lemma2_to64();
    assert(pow2(bits) <= 0x10000) by {
        if bits < 16 {
            vstd::arithmetic::power2::lemma_pow2_strictly_increases(bits, 16);
        }
    }
    lemma_fundamental_div_mod(value as int, pow2(bits) as int);
    vstd::arithmetic::mul::lemma_mul_is_commutative(pow2(bits) as int, (value / pow2(bits)) as int);
}

/// The value of one to four bytes read big-endian, written out byte by byte.
proof fn lemma_be_value_of_short(s: Seq<u8>)
    requires
        1 <= s.len() <= 4,
    ensures
        s.len() == 1 ==> be_value(s) == s[0] as int,
        s.len() == 2 ==> be_value(s) == s[0] * 256 + s[1],
        s.len() == 3 ==> be_value(s) == s[0] * 65536 + s[1] * 256 + s[2],
        s.len() == 4 ==> be_value(s) == s[0] * 16777216 + s[1] * 65536 + s[2] * 256 + s[3],
{
    let s1 = s.drop_last();
    let s2 = s1.drop_last();
    let s3 = s2.drop_last();
    let s4 = s3.drop_last();
    assert(be_value(s) == be_value(s1) * 256 + s.last());
    if s.len() >= 2 {
        assert(be_value(s1) == be_value(s2) * 256 + s1.last());
        if s.len() >= 3 {
            assert(be_value(s2) == be_value(s3) * 256 + s2.last());
            if s.len() >= 4 {
                assert(be_value(s3) == be_value(s4) * 256 + s3.last());
                assert(be_value(s4) == 0);
            } else {
                assert(be_value(s3) == 0);
            }
        } else {
            assert(be_value(s2) == 0);
        }
    } else {
        assert(be_value(s1) == 0);
    }
}

/// The declared entry count, the entry size and the inner bit count, as the header
/// bytes give them.
proof fn lemma_header_fields(data: Seq<u8>)
    requires
        has_header(data),
    ensures
        map_count_of(data) == (if data[0] == 0 {
            data[2] * 256 + data[3]
        } else {
            data[2] * 16777216 + data[3] * 65536 + data[4] * 256 + data[5]
        }),
        entry_size_of(data[1]) == ((data[1] >> 4u8) & 3u8) + 1,
        inner_bit_count_of(data[1]) == (data[1] & 15u8) + 1,
{
    let count_bytes = data.subrange(2, header_len(data[0]));
    lemma_be_value_of_short(count_bytes);
    let entry_format = data[1];
    assert(((entry_format >> 4u8) & 3u8) == (entry_format / 16) % 4) by (bit_vector);
    assert((entry_format & 15u8) == entry_format % 16) by (bit_vector);
}

/// Entries are laid out back to back, each `((entryFormat >> 4) & 3) + 1` bytes
/// wide, after a header of four bytes (format 0, two-byte count) or six (any other
/// format, four-byte count). For an index below the declared count whose entry lies
/// within the data, mapping it decodes exactly the bytes
/// `[header + size * index, header + size * (index + 1))` as a big-endian value, and
/// splits that value at `(entryFormat & 0x0F) + 1` bits: the outer index is the
/// value shifted right by that many bits, the inner index the bits below; the pair is
/// given when the outer index fits in 16 bits, and nothing otherwise.
pub proof fn lemma_map_decodes_the_entry_at_its_offset(data: Seq<u8>, index: u32)
    requires
        data.len() >= 2,
    ensures
        ({
            let format = data[0];
            let entry_format = data[1];
            let header: int = if format == 0 { 4 } else { 6 };
            let size: int = ((entry_format >> 4u8) & 3u8) + 1;
            let bits: nat = ((entry_format & 15u8) + 1) as nat;
            let count: int = if format == 0 {
                data[2] * 256 + data[3]
            } else {
                data[2] * 16777216 + data[3] * 65536 + data[4] * 256 + data[5]
            };
            let start: int = header + size * index;
            let value: int = if size == 1 {
                data[start] as int
            } else if size == 2 {
                data[start] * 256 + data[start + 1]
            } else if size == 3 {
                data[start] * 65536 + data[start + 1] * 256 + data[start + 2]
            } else {
                data[start] * 16777216 + data[start + 1] * 65536 + data[start + 2] * 256
                    + data[start + 3]
            };
            let outer: int = value / (pow2(bits) as int);
            let inner: int = value % (pow2(bits) as int);
            data.len() >= header && index < count && start + size <= data.len() ==>
                map_index(data, index) == (if outer <= 0xFFFF {
                    Some((outer as u16, inner as u16))
                } else {
                    None
                })
        }),
{
    let format = data[0];
    let entry_format = data[1];
    let header: int = if format == 0 { 4 } else { 6 };
    let size: int = ((entry_format >> 4u8) & 3u8) + 1;
    let count: int = if format == 0 {
        data[2] * 256 + data[3]
    } else {
        data[2] * 16777216 + data[3] * 65536 + data[4] * 256 + data[5]
    };
    let start: int = header + size * index;
    if data.len() >= header && index < count && start + size <= data.len() {
        lemma_header_fields(data);
        assert(clamped_index(index, map_count_of(data)) == index);
        assert(entry_start(data, index) == start);
        let bytes = data.subrange(start, start + size);
        lemma_be_value_of_short(bytes);
        assert(bytes[0] == data[start]);
        assert(size >= 2 ==> bytes[1] == data[start + 1]);
        assert(size >= 3 ==> bytes[2] == data[start + 2]);
        assert(size >= 4 ==> bytes[3] == data[start + 3]);
        assert(size <= 4) by {
            assert(((entry_format >> 4u8) & 3u8) <= 3) by (bit_vector);
        }
    }
}

/// Mapping gives nothing when the data is too short for the header, when the header
/// declares no entry, or when the entry that an index below the declared count names
/// runs past the end of the data.
pub proof fn lemma_map_rejects_what_it_cannot_read(data: Seq<u8>, index: u32)
    ensures
        data.len() < 2 ==> map_index(data, index) is None,
        data.len() >= 2 ==> ({
            let format = data[0];
            let entry_format = data[1];
            let header: int = if format == 0 { 4 } else { 6 };
            let size: int = ((entry_format >> 4u8) & 3u8) + 1;
            let count: int = if format == 0 {
                data[2] * 256 + data[3]
            } else {
                data[2] * 16777216 + data[3] * 65536 + data[4] * 256 + data[5]
            };
            &&& data.len() < header ==> map_index(data, index) is None
            &&& data.len() >= header && count == 0 ==> map_index(data, index) is None
            &&& data.len() >= header && index < count && header + size * index + size
                > data.len() ==> map_index(data, index) is None
        }),
{
    if has_header(data) {
        lemma_header_fields(data);
        let count = map_count_of(data);
        if index < count {
            assert(clamped_index(index, count) == index);
        }
    }
}

/// An index at or past the declared count is mapped as the last entry, `count - 1`,
/// is: the count read from the header bytes, two of them for format 0 and four for
/// any other format.
pub proof fn lemma_past_the_end_maps_as_the_last_entry(data: Seq<u8>, index: u32)
    requires
        data.len() >= 2,
    ensures
        ({
            let format = data[0];
            let header: int = if format == 0 { 4 } else { 6 };
            let count: int = if format == 0 {
                data[2] * 256 + data[3]
            } else {
                data[2] * 16777216 + data[3] * 65536 + data[4] * 256 + data[5]
            };
            data.len() >= header && 0 < count <= index ==> {
                &&& count - 1 <= u32::MAX
                &&& map_index(data, index) == map_index(data, (count - 1) as u32)
            }
        }),
{
    if has_header(data) {
        lemma_header_fields(data);
        if 0 < map_count_of(data) <= index {
            lemma_index_past_end_uses_last_entry(data, index);
        }
    }
}

} // verus!
