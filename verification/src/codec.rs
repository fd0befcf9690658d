use vstd::prelude::*;
use vstd::bytes::{
    lemma_auto_spec_u32_to_from_le_bytes, spec_u32_from_le_bytes, spec_u32_to_le_bytes,
    u32_from_le_bytes, u32_to_le_bytes,
};
use vstd::slice::slice_subrange;

verus! {

/// The wire layout of a packet carrying the given per-channel sample
/// sequences: frames in temporal order, each frame the left sample followed
/// by the right sample, every sample as four little-endian bytes.
pub open spec fn packet_bytes(left: Seq<u32>, right: Seq<u32>) -> Seq<u8>
    recommends
        left.len() == right.len(),
    decreases left.len(),
{
    if left.len() == 0 {
        Seq::empty()
    } else {
        packet_bytes(left.drop_last(), right.drop_last()) + spec_u32_to_le_bytes(left.last())
            + spec_u32_to_le_bytes(right.last())
    }
}

/// The samples of one channel read back from a packet: `frames` samples of
/// four little-endian bytes each, the frame's left sample at byte offset 0,
/// its right sample at byte offset 4.
pub open spec fn decoded_channel(pkt: Seq<u8>, frames: nat, offset: int) -> Seq<u32> {
    Seq::new(frames, |i: int| spec_u32_from_le_bytes(pkt.subrange(8 * i + offset, 8 * i + offset + 4)))
}

pub proof fn lemma_packet_bytes_len(left: Seq<u32>, right: Seq<u32>)
    requires
        left.len() == right.len(),
    ensures
        packet_bytes(left, right).len() == 8 * left.len(),
    decreases left.len(),
{
    lemma_auto_spec_u32_to_from_le_bytes();
    if left.len() > 0 {
        lemma_packet_bytes_len(left.drop_last(), right.drop_last());
    }
}

/// Where each sample of a frame lies in the packet: frame `i` occupies bytes
/// `8*i .. 8*i + 8`, left sample first, right sample second.
pub proof fn lemma_packet_bytes_frame(left: Seq<u32>, right: Seq<u32>, i: int)
    requires
        left.len() == right.len(),
        0 <= i < left.len(),
    ensures
        packet_bytes(left, right).subrange(8 * i, 8 * i + 4) == spec_u32_to_le_bytes(left[i]),
        packet_bytes(left, right).subrange(8 * i + 4, 8 * i + 8) == spec_u32_to_le_bytes(right[i]),
    decreases left.len(),
{
    lemma_auto_spec_u32_to_from_le_bytes();
    lemma_packet_bytes_len(left, right);
    lemma_packet_bytes_len(left.drop_last(), right.drop_last());
    let pkt = packet_bytes(left, right);
    let pre = packet_bytes(left.drop_last(), right.drop_last());
    if i == left.len() - 1 {
        assert(pkt.subrange(8 * i, 8 * i + 4) =~= spec_u32_to_le_bytes(left[i]));
        assert(pkt.subrange(8 * i + 4, 8 * i + 8) =~= spec_u32_to_le_bytes(right[i]));
    } else {
        lemma_packet_bytes_frame(left.drop_last(), right.drop_last(), i);
        assert(left.drop_last()[i] == left[i]);
        assert(right.drop_last()[i] == right[i]);
        assert(pkt.subrange(8 * i, 8 * i + 4) =~= pre.subrange(8 * i, 8 * i + 4));
        assert(pkt.subrange(8 * i + 4, 8 * i + 8) =~= pre.subrange(8 * i + 4, 8 * i + 8));
    }
}

/// Round trip: reading either channel back from the packet built out of
/// `left` and `right` yields exactly the original sample sequence,
/// bit pattern for bit pattern.
pub proof fn lemma_packet_round_trip(left: Seq<u32>, right: Seq<u32>)
    requires
        left.len() == right.len(),
    ensures
        decoded_channel(packet_bytes(left, right), left.len(), 0) == left,
        decoded_channel(packet_bytes(left, right), left.len(), 4) == right,
{
    lemma_auto_spec_u32_to_from_le_bytes();
    let pkt = packet_bytes(left, right);
    assert forall|i: int| 0 <= i < left.len() implies decoded_channel(pkt, left.len(), 0)[i]
        == left[i] && decoded_channel(pkt, left.len(), 4)[i] == right[i] by {
        lemma_packet_bytes_frame(left, right, i);
        assert(pkt.subrange(8 * i + 0, 8 * i + 0 + 4) == spec_u32_to_le_bytes(left[i]));
        assert(pkt.subrange(8 * i + 4, 8 * i + 4 + 4) == spec_u32_to_le_bytes(right[i]));
        assert(spec_u32_from_le_bytes(spec_u32_to_le_bytes(left[i])) == left[i]);
        assert(spec_u32_from_le_bytes(spec_u32_to_le_bytes(right[i])) == right[i]);
    }
    assert(decoded_channel(pkt, left.len(), 0) =~= left);
    assert(decoded_channel(pkt, left.len(), 4) =~= right);
}

/// Appends one sample to the packet under construction as four
/// little-endian bytes.
fn push_sample_bytes(pkt: &mut Vec<u8>, sample: u32)
    ensures
        final(pkt)@ == old(pkt)@ + spec_u32_to_le_bytes(sample),
{
    let bytes = u32_to_le_bytes(sample);
    pkt.push(*bytes.get(0).unwrap());
    pkt.push(*bytes.get(1).unwrap());
    pkt.push(*bytes.get(2).unwrap());
    pkt.push(*bytes.get(3).unwrap());
    proof {
        assert(pkt@ =~= old(pkt)@ + spec_u32_to_le_bytes(sample));
    }
}

/// Serializes `frame_count` frames into one packet: for each frame, the left
/// sample then the right sample, each as four little-endian bytes.
pub fn encode_packet(left: &Vec<u32>, right: &Vec<u32>) -> (pkt: Vec<u8>)
    requires
        left@.len() == right@.len(),
    ensures
        pkt@ == packet_bytes(left@, right@),
        pkt@.len() == 8 * left@.len(),
{
    let n = left.len();
    let mut pkt: Vec<u8> = Vec::new();
    for i in 0..n
        invariant
            n == left@.len() == right@.len(),
            pkt@ == packet_bytes(left@.take(i as int), right@.take(i as int)),
            pkt@.len() == 8 * i,
    {
        push_sample_bytes(&mut pkt, left[i]);
        push_sample_bytes(&mut pkt, right[i]);
        proof {
            lemma_auto_spec_u32_to_from_le_bytes();
            let j = i + 1int;
            assert(left@.take(j).drop_last() =~= left@.take(i as int));
            assert(right@.take(j).drop_last() =~= right@.take(i as int));
            assert(left@.take(j).last() == left@[i as int]);
            assert(right@.take(j).last() == right@[i as int]);
        }
    }
    proof {
        assert(left@.take(n as int) =~= left@);
        assert(right@.take(n as int) =~= right@);
    }
    pkt
}

/// Parses a datagram that should carry `frame_count` frames. A datagram of
/// any other byte length is rejected; a well-formed one yields the left and
/// right sample sequences it encodes.
pub fn decode_packet(pkt: &[u8], frame_count: usize) -> (channels: Option<(Vec<u32>, Vec<u32>)>)
    requires
        frame_count * 8 <= usize::MAX,
    ensures
        channels is Some <==> pkt@.len() == frame_count * 8,
        channels matches Some(ch) ==> ch.0@ == decoded_channel(pkt@, frame_count as nat, 0)
            && ch.1@ == decoded_channel(pkt@, frame_count as nat, 4),
{
    if pkt.len() != frame_count * 8 {
        return None;
    }
    let mut left: Vec<u32> = Vec::new();
    let mut right: Vec<u32> = Vec::new();
    for i in 0..frame_count
        invariant
            pkt@.len() == frame_count * 8,
            frame_count * 8 <= usize::MAX,
            left@ == decoded_channel(pkt@, i as nat, 0),
            right@ == decoded_channel(pkt@, i as nat, 4),
    {
        let off = i * 8;
        let sample_l = u32_from_le_bytes(slice_subrange(pkt, off, off + 4));
        let sample_r = u32_from_le_bytes(slice_subrange(pkt, off + 4, off + 8));
        left.push(sample_l);
        right.push(sample_r);
        proof {
            let j = (i + 1) as nat;
            assert(left@ =~= decoded_channel(pkt@, j, 0));
            assert(right@ =~= decoded_channel(pkt@, j, 4));
        }
    }
    Some((left, right))
}

} // verus!
