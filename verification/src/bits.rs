//! Bit fields in a 32-bit word, and the extended identifier of a frame.
//!
//! Fields are packed from the least significant bit upwards: the first
//! field takes the lowest bits, the next field the bits above it. Bits that
//! would lie above the 32nd are dropped.

use vstd::prelude::*;
use crate::types::{CanComMode, ExId};

verus! {

/// The mask that keeps the lowest `bits` bits of a word.
pub open spec fn field_mask(bits: u8) -> u32 {
    if bits >= 32 {
        0xffff_ffffu32
    } else {
        ((1u32 << (bits as u32)) - 1) as u32
    }
}

/// `v` moved up by `s` bits within 32 bits.
pub open spec fn shl32(v: u32, s: int) -> u32 {
    if 0 <= s < 32 {
        v << (s as u32)
    } else {
        0
    }
}

/// `v` moved down by `s` bits.
pub open spec fn shr32(v: u32, s: int) -> u32 {
    if 0 <= s < 32 {
        v >> (s as u32)
    } else {
        0
    }
}

/// The position of the lowest bit of field `k`: the sum of the widths of
/// the fields before it.
pub open spec fn bit_offset(widths: Seq<u8>, k: int) -> int
    decreases k,
{
    if k <= 0 {
        0
    } else {
        bit_offset(widths, k - 1) + widths[k - 1] as int
    }
}

/// The word that holds the first `k` fields: each value cut to its width and
/// moved to its offset, all of them joined by bitwise or.
pub open spec fn spec_pack_bits(values: Seq<u32>, widths: Seq<u8>, k: int) -> u32
    decreases k,
{
    if k <= 0 {
        0
    } else {
        spec_pack_bits(values, widths, k - 1) | shl32(
            values[k - 1] & field_mask(widths[k - 1]),
            bit_offset(widths, k - 1),
        )
    }
}

/// Field `i` of a word: the word moved down by the field's offset and cut
/// to the field's width.
pub open spec fn spec_unpack_field(value: u32, widths: Seq<u8>, i: int) -> u32 {
    shr32(value, bit_offset(widths, i)) & field_mask(widths[i])
}

/// The fields of a word, one for each width.
pub open spec fn spec_unpack_bits(value: u32, widths: Seq<u8>) -> Seq<u32> {
    Seq::new(widths.len(), |i: int| spec_unpack_field(value, widths, i))
}

/// The number of fields that `pack_bits` packs: a value without a width, or
/// a width without a value, is left out.
pub open spec fn field_count(values: Seq<u32>, widths: Seq<u8>) -> int {
    if values.len() <= widths.len() {
        values.len() as int
    } else {
        widths.len() as int
    }
}

fn mask_of(bits: u8) -> (m: u32)
    ensures
        m == field_mask(bits),
{
    if bits >= 32 {
        0xffff_ffff
    } else {
        let b: u32 = bits as u32;
        assert((1u32 << b) >= 1) by (bit_vector)
            requires
                b < 32,
        ;
        (1u32 << b) - 1
    }
}

/// Packs values into one word, each cut to its bit width, the first value
/// in the lowest bits.
pub fn pack_bits(values: &[u32], bit_lengths: &[u8]) -> (word: u32)
    ensures
        word == spec_pack_bits(values@, bit_lengths@, field_count(values@, bit_lengths@)),
{
    let n: usize = if values.len() <= bit_lengths.len() {
        values.len()
    } else {
        bit_lengths.len()
    };
    let mut result: u32 = 0;
    let mut current_shift: u32 = 0;
    let mut i: usize = 0;
    while i < n
        invariant
            i <= n,
            n <= values@.len(),
            n <= bit_lengths@.len(),
            n == field_count(values@, bit_lengths@),
            result == spec_pack_bits(values@, bit_lengths@, i as int),
            current_shift <= 32,
            bit_offset(bit_lengths@, i as int) >= 0,
            current_shift < 32 ==> current_shift == bit_offset(bit_lengths@, i as int),
            current_shift == 32 ==> bit_offset(bit_lengths@, i as int) >= 32,
        decreases n - i,
    {
        let bits: u8 = bit_lengths[i];
        let field: u32 = values[i] & mask_of(bits);
        if current_shift < 32 {
            result = result | (field << current_shift);
        } else {
            assert(result | 0u32 == result) by (bit_vector);
        }
        current_shift = if bits as u32 >= 32 - current_shift {
            32
        } else {
            current_shift + bits as u32
        };
        i = i + 1;
    }
    result
}

/// Cuts a word into fields of the given widths, the first field from the
/// lowest bits.
pub fn unpack_bits(value: u32, bit_lengths: &[u8]) -> (fields: Vec<u32>)
    ensures
        fields@ == spec_unpack_bits(value, bit_lengths@),
{
    let mut result: Vec<u32> = Vec::new();
    let mut current_value: u32 = value;
    let mut i: usize = 0;
    assert(value >> 0u32 == value) by (bit_vector);
    while i < bit_lengths.len()
        invariant
            i <= bit_lengths@.len(),
            result@.len() == i,
            bit_offset(bit_lengths@, i as int) >= 0,
            current_value == shr32(value, bit_offset(bit_lengths@, i as int)),
            forall|j: int|
                0 <= j < i ==> result@[j] == #[trigger] spec_unpack_field(value, bit_lengths@, j),
        decreases bit_lengths@.len() - i,
    {
        let bits: u8 = bit_lengths[i];
        result.push(current_value & mask_of(bits));
        let ghost off = bit_offset(bit_lengths@, i as int);
        if bits >= 32 {
            current_value = 0;
        } else {
            current_value = current_value >> (bits as u32);
        }
        proof {
            let b: u32 = bits as u32;
            if off < 32 && bits < 32 {
                let a: u32 = off as u32;
                assert((value >> a) >> b == (if a + b < 32 {
                    value >> ((a + b) as u32)
                } else {
                    0
                })) by (bit_vector)
                    requires
                        a < 32,
                        b < 32,
                ;
            } else if bits < 32 {
                assert(0u32 >> b == 0) by (bit_vector);
            }
        }
        i = i + 1;
    }
    assert(result@ =~= spec_unpack_bits(value, bit_lengths@));
    result
}

/// The offsets of the fields rise with the fields.
pub proof fn lemma_bit_offset_rises(widths: Seq<u8>, i: int, k: int)
    requires
        0 <= i <= k,
    ensures
        0 <= bit_offset(widths, i) <= bit_offset(widths, k),
    decreases k,
{
    if i < k {
        lemma_bit_offset_rises(widths, i, k - 1);
    } else if i > 0 {
        lemma_bit_offset_rises(widths, i - 1, k - 1);
    }
}

/// A word that holds `k` fields has no bit at or above the offset at which
/// the next field would begin, as long as the fields fit in 32 bits.
pub proof fn lemma_pack_bits_bound(values: Seq<u32>, widths: Seq<u8>, k: int)
    requires
        0 <= k,
        bit_offset(widths, k) <= 32,
    ensures
        shr32(spec_pack_bits(values, widths, k), bit_offset(widths, k)) == 0,
    decreases k,
{
    if k == 0 {
        assert(0u32 >> 0u32 == 0) by (bit_vector);
    } else {
        lemma_bit_offset_rises(widths, k - 1, k);
        lemma_bit_offset_rises(widths, 0, k - 1);
        lemma_pack_bits_bound(values, widths, k - 1);
        let a: u32 = spec_pack_bits(values, widths, k - 1);
        let w: u32 = widths[k - 1] as u32;
        let m: u32 = field_mask(widths[k - 1]);
        let v: u32 = values[k - 1];
        let f: u32 = v & m;
        let off = bit_offset(widths, k - 1);
        if off < 32 {
            let o: u32 = off as u32;
            if off + w < 32 {
                assert(v & m & m == v & m) by (bit_vector);
                assert(((a | (f << o)) >> ((o + w) as u32)) == 0) by (bit_vector)
                    requires
                        o + w < 32,
                        a >> o == 0,
                        m == ((1u32 << w) - 1) as u32,
                        f & m == f,
                ;
            }
        } else {
            assert(a | 0u32 == a) by (bit_vector);
        }
    }
}

/// Fields that fit in 32 bits come back out of the word they were packed
/// into: field `i` of the word is value `i`, cut to the width of the field.
pub proof fn lemma_unpack_pack_bits(values: Seq<u32>, widths: Seq<u8>, k: int, i: int)
    requires
        0 <= i < k,
        bit_offset(widths, k) <= 32,
    ensures
        spec_unpack_field(spec_pack_bits(values, widths, k), widths, i) == values[i] & field_mask(
            widths[i],
        ),
    decreases k,
{
    lemma_bit_offset_rises(widths, k - 1, k);
    lemma_bit_offset_rises(widths, 0, k - 1);
    lemma_pack_bits_bound(values, widths, k - 1);
    let a: u32 = spec_pack_bits(values, widths, k - 1);
    let w: u32 = widths[k - 1] as u32;
    let m: u32 = field_mask(widths[k - 1]);
    let v: u32 = values[k - 1];
    let off = bit_offset(widths, k - 1);
    if i == k - 1 {
        if off < 32 {
            let o: u32 = off as u32;
            assert(((a | ((v & m) << o)) >> o) & m == v & m) by (bit_vector)
                requires
                    o < 32,
                    o + w <= 32,
                    a >> o == 0,
                    m == (if w >= 32 {
                        0xffff_ffffu32
                    } else {
                        ((1u32 << w) - 1) as u32
                    }),
            ;
        } else {
            assert(w == 0);
            assert(((1u32 << 0u32) - 1) as u32 == 0) by (bit_vector);
            assert(0u32 & 0u32 == v & 0u32) by (bit_vector);
        }
    } else {
        lemma_unpack_pack_bits(values, widths, k - 1, i);
        lemma_bit_offset_rises(widths, i + 1, k - 1);
        lemma_bit_offset_rises(widths, 0, i);
        let oi = bit_offset(widths, i);
        let wi: u32 = widths[i] as u32;
        let mi: u32 = field_mask(widths[i]);
        if off < 32 {
            let o: u32 = off as u32;
            let p: u32 = oi as u32;
            assert(((a | ((v & m) << o)) >> p) & mi == (a >> p) & mi) by (bit_vector)
                requires
                    o < 32,
                    p + wi <= o,
                    mi == (if wi >= 32 {
                        0xffff_ffffu32
                    } else {
                        ((1u32 << wi) - 1) as u32
                    }),
            ;
        } else {
            assert(a | 0u32 == a) by (bit_vector);
        }
    }
}

/// The 32-bit word of an extended identifier: the motor id in eight bits,
/// the data field in sixteen, the kind of message in five, all moved up by
/// three bits above the constant `100`. The reserved bits would lie above
/// the 32nd bit and are dropped.
pub open spec fn spec_ex_id_word(ex_id: ExId) -> u32 {
    (4 + 8 * ex_id.id + 2048 * ex_id.data + 134217728 * ex_id.mode.spec_code()) as u32
}

/// The four bytes of a word, the most significant first.
pub open spec fn spec_be_bytes(word: u32) -> Seq<u8> {
    seq![
        (word / 16777216) as u8,
        ((word / 65536) % 256) as u8,
        ((word / 256) % 256) as u8,
        (word % 256) as u8,
    ]
}

/// The word that four bytes spell, the most significant first.
pub open spec fn spec_be_word(bytes: Seq<u8>) -> u32 {
    (16777216 * bytes[0] + 65536 * bytes[1] + 256 * bytes[2] + bytes[3]) as u32
}

/// The four bytes of an extended identifier on the wire.
pub open spec fn spec_pack_ex_id(ex_id: ExId) -> Seq<u8> {
    spec_be_bytes(spec_ex_id_word(ex_id))
}

/// The extended identifier that four bytes of the wire spell: the word
/// without its three lowest bits, cut into id, data, kind and reserved bits.
pub open spec fn spec_unpack_ex_id(bytes: Seq<u8>) -> ExId {
    let fields = spec_be_word(bytes) / 8;
    ExId {
        id: (fields % 256) as u8,
        data: ((fields / 256) % 65536) as u16,
        mode: CanComMode::spec_from_code(((fields / 16777216) % 32) as u8),
        res: ((fields / 536870912) % 8) as u8,
    }
}

fn be_bytes(word: u32) -> (bytes: [u8; 4])
    ensures
        bytes@ == spec_be_bytes(word),
{
    let b0: u32 = word >> 24;
    let b1: u32 = (word >> 16) & 0xff;
    let b2: u32 = (word >> 8) & 0xff;
    let b3: u32 = word & 0xff;
    assert(word >> 24 == word / 16777216) by (bit_vector);
    assert((word >> 16) & 0xff == (word / 65536) % 256) by (bit_vector);
    assert((word >> 8) & 0xff == (word / 256) % 256) by (bit_vector);
    assert(word & 0xff == word % 256) by (bit_vector);
    let bytes = [b0 as u8, b1 as u8, b2 as u8, b3 as u8];
    assert(bytes@ =~= spec_be_bytes(word));
    bytes
}

fn be_word(bytes: [u8; 4]) -> (word: u32)
    ensures
        word == spec_be_word(bytes@),
{
    let b0: u32 = bytes[0] as u32;
    let b1: u32 = bytes[1] as u32;
    let b2: u32 = bytes[2] as u32;
    let b3: u32 = bytes[3] as u32;
    assert((b0 << 24) | (b1 << 16) | (b2 << 8) | b3 == 16777216 * b0 + 65536 * b1 + 256 * b2 + b3)
        by (bit_vector)
        requires
            b0 < 256,
            b1 < 256,
            b2 < 256,
            b3 < 256,
    ;
    (b0 << 24) | (b1 << 16) | (b2 << 8) | b3
}

/// Packs an extended identifier into its four bytes on the wire. The last
/// byte always ends in the bits `100`.
pub fn pack_ex_id(ex_id: &ExId) -> (bytes: [u8; 4])
    ensures
        bytes@ == spec_pack_ex_id(*ex_id),
        bytes@[3] % 8 == 4,
{
    let values: [u32; 4] = [
        ex_id.id as u32,
        ex_id.data as u32,
        ex_id.mode.code() as u32,
        ex_id.res as u32,
    ];
    let widths: [u8; 4] = [8, 16, 5, 3];
    let packed: u32 = pack_bits(values.as_slice(), widths.as_slice());
    let addr: u32 = (packed << 3) | 0x0000_0004;
    proof {
        let id: u32 = ex_id.id as u32;
        let data: u32 = ex_id.data as u32;
        let code: u32 = ex_id.mode.spec_code() as u32;
        let res: u32 = ex_id.res as u32;
        reveal_with_fuel(spec_pack_bits, 5);
        reveal_with_fuel(bit_offset, 5);
        assert((1u32 << 8u32) - 1 == 0xffu32) by (bit_vector);
        assert((1u32 << 16u32) - 1 == 0xffffu32) by (bit_vector);
        assert((1u32 << 5u32) - 1 == 0x1fu32) by (bit_vector);
        assert((1u32 << 3u32) - 1 == 0x7u32) by (bit_vector);
        assert(packed == (((0u32 | ((id & 0xff) << 0u32)) | ((data & 0xffff) << 8u32)) | ((code
            & 0x1f) << 24u32)) | ((res & 0x7) << 29u32)) by {
            assert(values@.len() == 4 && widths@.len() == 4);
            assert(bit_offset(widths@, 0) == 0);
            assert(bit_offset(widths@, 1) == 8);
            assert(bit_offset(widths@, 2) == 24);
            assert(bit_offset(widths@, 3) == 29);
        }
        assert(((((((0u32 | ((id & 0xff) << 0u32)) | ((data & 0xffff) << 8u32)) | ((code & 0x1f)
            << 24u32)) | ((res & 0x7) << 29u32)) << 3u32) | 4u32) == 4 + 8 * id + 2048 * data
            + 134217728 * code) by (bit_vector)
            requires
                id < 256,
                data < 65536,
                code <= 22,
        ;
        assert(addr % 256 % 8 == 4) by (bit_vector)
            requires
                addr == (packed << 3u32) | 4u32,
        ;
    }
    be_bytes(addr)
}

/// Reads an extended identifier from its four bytes on the wire. The
/// reserved bits of the result are always zero, since the wire has no room
/// for them.
pub fn unpack_ex_id(addr: [u8; 4]) -> (ex_id: ExId)
    ensures
        ex_id == spec_unpack_ex_id(addr@),
        ex_id.res == 0,
{
    let word: u32 = be_word(addr);
    let widths: [u8; 4] = [8, 16, 5, 3];
    let fields = unpack_bits(word >> 3, widths.as_slice());
    proof {
        let f: u32 = word >> 3;
        reveal_with_fuel(bit_offset, 5);
        assert(bit_offset(widths@, 0) == 0);
        assert(bit_offset(widths@, 1) == 8);
        assert(bit_offset(widths@, 2) == 24);
        assert(bit_offset(widths@, 3) == 29);
        assert(fields@[0] == spec_unpack_field(f, widths@, 0));
        assert(fields@[1] == spec_unpack_field(f, widths@, 1));
        assert(fields@[2] == spec_unpack_field(f, widths@, 2));
        assert(fields@[3] == spec_unpack_field(f, widths@, 3));
        assert((1u32 << 8u32) - 1 == 0xffu32) by (bit_vector);
        assert((1u32 << 16u32) - 1 == 0xffffu32) by (bit_vector);
        assert((1u32 << 5u32) - 1 == 0x1fu32) by (bit_vector);
        assert((1u32 << 3u32) - 1 == 0x7u32) by (bit_vector);
        assert(word >> 3 == word / 8) by (bit_vector);
        assert((f >> 0u32) & 0xff == f % 256) by (bit_vector);
        assert((f >> 8u32) & 0xffff == (f / 256) % 65536) by (bit_vector);
        assert((f >> 24u32) & 0x1f == (f / 16777216) % 32) by (bit_vector);
        assert((f >> 29u32) & 0x7 == (f / 536870912) % 8) by (bit_vector);
        assert((f >> 29u32) & 0x7 == 0) by (bit_vector)
            requires
                f == word >> 3,
        ;
    }
    ExId {
        id: fields[0] as u8,
        data: fields[1] as u16,
        mode: CanComMode::from_code(fields[2] as u8),
        res: fields[3] as u8,
    }
}

/// An extended identifier that is packed and unpacked again comes back with
/// its id, data and kind unchanged and its reserved bits cleared; so one
/// whose reserved bits are zero comes back as it was. The last of the four
/// bytes ends in the bits `100`: its lowest two bits are zero.
pub proof fn lemma_ex_id_round_trip(ex_id: ExId)
    ensures
        spec_unpack_ex_id(spec_pack_ex_id(ex_id)) == (ExId { res: 0, ..ex_id }),
        ex_id.res == 0 ==> spec_unpack_ex_id(spec_pack_ex_id(ex_id)) == ex_id,
        spec_pack_ex_id(ex_id).len() == 4,
        spec_pack_ex_id(ex_id)[3] % 4 == 0,
        spec_pack_ex_id(ex_id)[3] % 8 == 4,
{
    let word: u32 = spec_ex_id_word(ex_id);
    let id: u32 = ex_id.id as u32;
    let data: u32 = ex_id.data as u32;
    let code: u32 = ex_id.mode.spec_code() as u32;
    assert(word == 4 + 8 * id + 2048 * data + 134217728 * code);
    lemma_be_round_trip(word);
    assert(word % 256 % 8 == 4 && word % 256 % 4 == 0 && (word / 8) % 256 == id && ((word / 8)
        / 256) % 65536 == data && ((word / 8) / 16777216) % 32 == code && ((word / 8) / 536870912)
        % 8 == 0) by (bit_vector)
        requires
            word == 4 + 8 * id + 2048 * data + 134217728 * code,
            id < 256,
            data < 65536,
            code <= 22,
    ;
    crate::types::lemma_com_mode_round_trip(ex_id.mode);
}

/// The four bytes of a word spell that word.
pub proof fn lemma_be_round_trip(word: u32)
    ensures
        spec_be_word(spec_be_bytes(word)) == word,
{
    assert(word / 16777216 < 256 && 16777216 * (word / 16777216) + 65536 * ((word / 65536) % 256)
        + 256 * ((word / 256) % 256) + word % 256 == word) by (bit_vector);
}

} // verus!
