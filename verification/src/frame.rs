//! Frames on the wire.
//!
//! A frame is 17 bytes: the letters `AT`, the four bytes of the extended
//! identifier, one byte that says how many payload bytes count, eight
//! payload bytes, and a carriage return and a line feed.

use vstd::prelude::*;
use crate::bits::{pack_ex_id, spec_pack_ex_id, spec_unpack_ex_id, unpack_ex_id, lemma_ex_id_round_trip};
use crate::types::{CanComMode, CanPack, CanPackView, ExId, MotorError, MotorFeedbackRaw, MotorMode};

verus! {

/// The length of a frame on the wire.
pub const FRAME_LEN: usize = 17;

/// The 17 bytes of a frame. All eight payload bytes are written: those that
/// the frame does not hold are zero.
pub open spec fn spec_encode_pack(pack: CanPackView) -> Seq<u8> {
    seq![0x41u8, 0x54u8] + spec_pack_ex_id(pack.ex_id) + seq![pack.len] + pack.payload() + seq![
        0x0du8,
        0x0au8,
    ]
}

/// The views of a sequence of frames.
pub open spec fn pack_views(packs: Seq<CanPack>) -> Seq<CanPackView> {
    Seq::new(packs.len(), |i: int| packs[i]@)
}

/// The bytes of the first `k` frames, one frame after the other.
pub open spec fn spec_tx_packs(packs: Seq<CanPackView>, k: int) -> Seq<u8>
    decreases k,
{
    if k <= 0 {
        Seq::empty()
    } else {
        spec_tx_packs(packs, k - 1) + spec_encode_pack(packs[k - 1])
    }
}

/// The `k`-th block of 17 bytes of a buffer.
pub open spec fn frame_at(buffer: Seq<u8>, k: int) -> Seq<u8> {
    buffer.subrange(17 * k, 17 * k + 17)
}

/// A block of 17 bytes is a frame if it starts with `AT` and announces at
/// most eight payload bytes.
pub open spec fn frame_ok(frame: Seq<u8>) -> bool {
    &&& frame[0] == 0x41
    &&& frame[1] == 0x54
    &&& frame[6] <= 8
}

/// The frame that a block of 17 bytes spells.
pub open spec fn spec_decode_frame(frame: Seq<u8>) -> CanPackView {
    CanPackView {
        ex_id: spec_unpack_ex_id(frame.subrange(2, 6)),
        len: frame[6],
        data: frame.subrange(7, 7 + frame[6]),
    }
}

/// A buffer holds `count` frames if it is long enough and each of its first
/// `count` blocks is a frame.
pub open spec fn frames_ok(buffer: Seq<u8>, count: int) -> bool {
    &&& buffer.len() >= 17 * count
    &&& forall|k: int| 0 <= k < count ==> frame_ok(#[trigger] frame_at(buffer, k))
}

/// Every encoded frame is 17 bytes long.
pub proof fn lemma_encode_len(pack: CanPackView)
    ensures
        spec_encode_pack(pack).len() == 17,
        spec_encode_pack(pack)[0] == 0x41,
        spec_encode_pack(pack)[1] == 0x54,
        spec_encode_pack(pack)[6] == pack.len,
        spec_encode_pack(pack)[15] == 0x0d,
        spec_encode_pack(pack)[16] == 0x0a,
        spec_encode_pack(pack).subrange(2, 6) == spec_pack_ex_id(pack.ex_id),
        spec_encode_pack(pack).subrange(7, 15) == pack.payload(),
{
    lemma_ex_id_round_trip(pack.ex_id);
    let e = spec_encode_pack(pack);
    assert(e.subrange(2, 6) =~= spec_pack_ex_id(pack.ex_id));
    assert(e.subrange(7, 15) =~= pack.payload());
}

/// The bytes of `k` frames are `17 * k` bytes, and each block of 17 of them
/// is the encoding of its frame.
pub proof fn lemma_tx_packs_frames(packs: Seq<CanPackView>, k: int)
    requires
        0 <= k <= packs.len(),
    ensures
        spec_tx_packs(packs, k).len() == 17 * k,
        forall|j: int|
            0 <= j < k ==> #[trigger] frame_at(spec_tx_packs(packs, k), j) == spec_encode_pack(
                packs[j],
            ),
    decreases k,
{
    if k > 0 {
        lemma_tx_packs_frames(packs, k - 1);
        lemma_encode_len(packs[k - 1]);
        let before = spec_tx_packs(packs, k - 1);
        let all = spec_tx_packs(packs, k);
        assert forall|j: int| 0 <= j < k implies #[trigger] frame_at(all, j) == spec_encode_pack(
            packs[j],
        ) by {
            if j < k - 1 {
                assert(frame_at(all, j) =~= frame_at(before, j));
            } else {
                assert(frame_at(all, j) =~= spec_encode_pack(packs[j]));
            }
        }
    }
}

/// Every frame that the encoder writes starts with the letters `AT` and ends
/// with a carriage return and a line feed.
pub proof fn lemma_tx_packs_framing(packs: Seq<CanPackView>, k: int, j: int)
    requires
        0 <= j < k <= packs.len(),
    ensures
        spec_tx_packs(packs, k).len() == 17 * k,
        spec_tx_packs(packs, k)[17 * j] == 0x41,
        spec_tx_packs(packs, k)[17 * j + 1] == 0x54,
        spec_tx_packs(packs, k)[17 * j + 15] == 0x0d,
        spec_tx_packs(packs, k)[17 * j + 16] == 0x0a,
{
    lemma_tx_packs_frames(packs, k);
    lemma_encode_len(packs[j]);
    let all = spec_tx_packs(packs, k);
    let frame = frame_at(all, j);
    assert(frame[0] == all[17 * j]);
    assert(frame[1] == all[17 * j + 1]);
    assert(frame[15] == all[17 * j + 15]);
    assert(frame[16] == all[17 * j + 16]);
}

/// A well-formed frame that is encoded and decoded again comes back as it
/// was, but for the reserved bits of its identifier, which the wire has no
/// room for and which come back as zero.
pub proof fn lemma_frame_round_trip(pack: CanPackView)
    requires
        pack.wf(),
    ensures
        frame_ok(spec_encode_pack(pack)),
        spec_decode_frame(spec_encode_pack(pack)) == (CanPackView {
            ex_id: ExId { res: 0, ..pack.ex_id },
            ..pack
        }),
{
    lemma_encode_len(pack);
    lemma_ex_id_round_trip(pack.ex_id);
    let e = spec_encode_pack(pack);
    assert(e.subrange(7, 7 + pack.len) =~= pack.data);
}

fn encode_pack(pack: &CanPack, buffer: &mut Vec<u8>)
    ensures
        final(buffer)@ == old(buffer)@ + spec_encode_pack(pack@),
{
    let ghost before = buffer@;
    buffer.push(0x41);
    buffer.push(0x54);
    let id_bytes = pack_ex_id(&pack.ex_id);
    buffer.push(id_bytes[0]);
    buffer.push(id_bytes[1]);
    buffer.push(id_bytes[2]);
    buffer.push(id_bytes[3]);
    buffer.push(pack.len);
    let mut i: usize = 0;
    while i < 8
        invariant
            i <= 8,
            buffer@.len() == before.len() + 7 + i,
            buffer@.subrange(0, before.len() as int + 7) == before + seq![0x41u8, 0x54u8] + id_bytes@
                + seq![pack.len],
            forall|j: int| 0 <= j < i ==> buffer@[before.len() + 7 + j] == pack@.payload_byte(j),
        decreases 8 - i,
    {
        let ghost prev = buffer@;
        buffer.push(pack.byte(i));
        assert(buffer@.subrange(0, before.len() as int + 7) =~= prev.subrange(0, before.len() as int + 7));
        i = i + 1;
    }
    let ghost mid = buffer@;
    buffer.push(0x0d);
    buffer.push(0x0a);
    proof {
        assert(mid.subrange(0, before.len() as int + 7) =~= before + seq![0x41u8, 0x54u8] + id_bytes@
            + seq![pack.len]);
        lemma_encode_len(pack@);
        let head = before.len() as int + 7;
        let whole = before + spec_encode_pack(pack@);
        assert forall|j: int| 0 <= j < buffer@.len() implies buffer@[j] == whole[j] by {
            if j < head {
                assert(buffer@[j] == mid.subrange(0, head)[j]);
            } else if j < head + 8 {
                assert(buffer@[j] == pack@.payload_byte(j - head));
                assert(pack@.payload()[j - head] == pack@.payload_byte(j - head));
            }
        }
        assert(buffer@ =~= whole);
    }
}

/// The bytes to transmit for a sequence of frames: the frames one after the
/// other, 17 bytes each, each from `AT` to carriage return and line feed.
pub fn tx_packs(packs: &[CanPack]) -> (buffer: Vec<u8>)
    ensures
        buffer@ == spec_tx_packs(pack_views(packs@), packs@.len() as int),
        buffer@.len() == 17 * packs@.len(),
        forall|j: int|
            0 <= j < packs@.len() ==> {
                &&& #[trigger] buffer@[17 * j] == 0x41
                &&& buffer@[17 * j + 1] == 0x54
                &&& buffer@[17 * j + 15] == 0x0d
                &&& buffer@[17 * j + 16] == 0x0a
            },
{
    let mut buffer: Vec<u8> = Vec::new();
    let mut i: usize = 0;
    while i < packs.len()
        invariant
            i <= packs@.len(),
            buffer@ == spec_tx_packs(pack_views(packs@), i as int),
        decreases packs@.len() - i,
    {
        encode_pack(&packs[i], &mut buffer);
        i = i + 1;
    }
    proof {
        let views = pack_views(packs@);
        assert forall|j: int| 0 <= j < packs@.len() implies {
            &&& #[trigger] buffer@[17 * j] == 0x41
            &&& buffer@[17 * j + 1] == 0x54
            &&& buffer@[17 * j + 15] == 0x0d
            &&& buffer@[17 * j + 16] == 0x0a
        } by {
            lemma_tx_packs_framing(views, packs@.len() as int, j);
        }
        lemma_tx_packs_frames(views, packs@.len() as int);
    }
    buffer
}

fn decode_frame(buffer: &[u8], k: usize) -> (pack: Option<CanPack>)
    requires
        17 * (k + 1) <= buffer@.len(),
    ensures
        frame_ok(frame_at(buffer@, k as int)) ==> (pack matches Some(p) && p@
            == spec_decode_frame(frame_at(buffer@, k as int))),
        !frame_ok(frame_at(buffer@, k as int)) ==> pack is None,
{
    let total: usize = buffer.len();
    let base: usize = 17 * k;
    let ghost frame = frame_at(buffer@, k as int);
    assert(forall|j: int| 0 <= j < 17 ==> frame[j] == buffer@[base + j]);
    if buffer[base] != 0x41 || buffer[base + 1] != 0x54 {
        return None;
    }
    let len: u8 = buffer[base + 6];
    if len > 8 {
        return None;
    }
    let ex_id = unpack_ex_id(
        [buffer[base + 2], buffer[base + 3], buffer[base + 4], buffer[base + 5]],
    );
    assert(frame.subrange(2, 6) =~= seq![
        buffer@[base + 2],
        buffer@[base + 3],
        buffer@[base + 4],
        buffer@[base + 5],
    ]);
    let mut data: Vec<u8> = Vec::new();
    let mut i: usize = 0;
    while i < len as usize
        invariant
            i <= len <= 8,
            base == 17 * k,
            17 * (k + 1) <= buffer@.len() <= usize::MAX,
            data@.len() == i,
            forall|j: int| 0 <= j < i ==> data@[j] == buffer@[base + 7 + j],
        decreases len - i,
    {
        data.push(buffer[base + 7 + i]);
        i = i + 1;
    }
    assert(data@ =~= frame.subrange(7, 7 + len));
    Some(CanPack { ex_id, len, data })
}

/// Cuts the first `17 * count` bytes of what was received into frames.
///
/// Succeeds exactly if the buffer holds that many bytes and each of the
/// `count` blocks starts with `AT` and announces at most eight payload
/// bytes; frame `k` is then what block `k` spells. Otherwise the bytes are
/// refused as a bad frame.
pub fn rx_unpacks(buffer: &[u8], count: usize) -> (r: Result<Vec<CanPack>, MotorError>)
    ensures
        frames_ok(buffer@, count as int) ==> (r matches Ok(packs) && packs@.len() == count
            && forall|k: int|
            0 <= k < count ==> (#[trigger] packs@[k])@ == spec_decode_frame(frame_at(buffer@, k))),
        !frames_ok(buffer@, count as int) ==> (r matches Err(e) && e == MotorError::BadFrame),
{
    if count > buffer.len() / 17 {
        return Err(MotorError::BadFrame);
    }
    let mut packs: Vec<CanPack> = Vec::new();
    let mut k: usize = 0;
    while k < count
        invariant
            k <= count,
            17 * count <= buffer@.len(),
            packs@.len() == k,
            forall|j: int| 0 <= j < k ==> frame_ok(#[trigger] frame_at(buffer@, j)),
            forall|j: int|
                0 <= j < k ==> (#[trigger] packs@[j])@ == spec_decode_frame(frame_at(buffer@, j)),
        decreases count - k,
    {
        match decode_frame(buffer, k) {
            Some(pack) => {
                packs.push(pack);
            },
            None => {
                return Err(MotorError::BadFrame);
            },
        }
        k = k + 1;
    }
    Ok(packs)
}

/// What a frame says of its sender, as raw codes.
///
/// The data field of the identifier holds the sender's id in its low eight
/// bits, six fault bits above them and the sender's state in the top two
/// bits. Position, velocity and torque are read, most significant byte
/// first, from the first six payload bytes if the frame is a feedback frame;
/// in a frame of any other kind they read as zero.
pub open spec fn spec_unpack_raw_feedback(pack: CanPackView) -> MotorFeedbackRaw {
    let data = pack.ex_id.data;
    let measured = pack.ex_id.mode == CanComMode::MotorFeedback;
    MotorFeedbackRaw {
        can_id: (data % 256) as u8,
        pos_int: if measured {
            (256 * pack.payload_byte(0) + pack.payload_byte(1)) as u16
        } else {
            0
        },
        vel_int: if measured {
            (256 * pack.payload_byte(2) + pack.payload_byte(3)) as u16
        } else {
            0
        },
        torque_int: if measured {
            (256 * pack.payload_byte(4) + pack.payload_byte(5)) as u16
        } else {
            0
        },
        mode: MotorMode::spec_from_code((data / 16384) as u8),
        faults: ((data / 256) % 64) as u16,
    }
}

/// Reads the raw feedback out of a frame.
pub fn unpack_raw_feedback(pack: &CanPack) -> (raw: MotorFeedbackRaw)
    ensures
        raw == spec_unpack_raw_feedback(pack@),
{
    let data: u16 = pack.ex_id.data;
    let can_id: u8 = (data % 256) as u8;
    let faults: u16 = (data / 256) % 64;
    let mode = MotorMode::from_code((data / 16384) as u8);
    match pack.ex_id.mode {
        CanComMode::MotorFeedback => {
            let pos_int: u16 = 256 * (pack.byte(0) as u16) + pack.byte(1) as u16;
            let vel_int: u16 = 256 * (pack.byte(2) as u16) + pack.byte(3) as u16;
            let torque_int: u16 = 256 * (pack.byte(4) as u16) + pack.byte(5) as u16;
            MotorFeedbackRaw { can_id, pos_int, vel_int, torque_int, mode, faults }
        },
        _ => MotorFeedbackRaw { can_id, pos_int: 0, vel_int: 0, torque_int: 0, mode, faults },
    }
}

} // verus!
