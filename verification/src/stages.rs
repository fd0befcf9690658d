use vstd::prelude::*;
use crate::codec::{decode_packet, decoded_channel, encode_packet, packet_bytes};
use crate::queue::{queue_capacity, queue_samples, SampleQueue};

verus! {

/// Bit pattern of a silent sample: an all-zero 32-bit float is 0.0.
pub const SILENCE: u32 = 0;

/// How many more samples a queue holding `contents` under capacity `cap`
/// still accepts.
pub open spec fn room(contents: Seq<u32>, cap: nat) -> int {
    if contents.len() < cap {
        cap - contents.len()
    } else {
        0
    }
}

/// The queue contents after offering `input` one sample at a time: samples
/// are appended in order until the queue is full, the rest are dropped.
pub open spec fn after_pushes(contents: Seq<u32>, cap: nat, input: Seq<u32>) -> Seq<u32> {
    if input.len() <= room(contents, cap) {
        contents + input
    } else {
        contents + input.take(room(contents, cap))
    }
}

/// What a playback cycle hands the audio engine for `slots` output slots:
/// the queued samples in order while they last, silence for every slot after
/// the queue has run empty.
pub open spec fn drained(contents: Seq<u32>, slots: nat) -> Seq<u32> {
    Seq::new(slots, |i: int| if i < contents.len() {
        contents[i]
    } else {
        SILENCE
    })
}

/// The queue contents left after a playback cycle of `slots` pops.
pub open spec fn left_after_drain(contents: Seq<u32>, slots: nat) -> Seq<u32> {
    if slots <= contents.len() {
        contents.skip(slots as int)
    } else {
        Seq::empty()
    }
}

/// Overrun law: offering input to a queue that respects its capacity caps the
/// occupancy at that capacity; only the samples beyond the available room are
/// dropped, and when everything fits nothing is.
pub proof fn lemma_after_pushes_bounded(contents: Seq<u32>, cap: nat, input: Seq<u32>)
    requires
        contents.len() <= cap,
    ensures
        after_pushes(contents, cap, input).len() <= cap,
        contents.len() + input.len() <= cap ==> after_pushes(contents, cap, input) == contents
            + input,
{
}

/// One capture callback for a single channel: offers every captured sample
/// to the queue in order, never blocking; samples that arrive while the
/// queue is full are dropped.
pub fn capture_channel(q: &mut SampleQueue, input: &Vec<u32>)
    ensures
        queue_capacity(*final(q)) == queue_capacity(*old(q)),
        queue_samples(*final(q)) == after_pushes(
            queue_samples(*old(q)),
            queue_capacity(*old(q)),
            input@,
        ),
{
    let ghost c0 = queue_samples(*old(q));
    let ghost cap = queue_capacity(*old(q));
    for i in 0..input.len()
        invariant
            queue_capacity(*q) == cap,
            queue_samples(*q) == after_pushes(c0, cap, input@.take(i as int)),
    {
        q.try_push(input[i]);
        proof {
            if i < room(c0, cap) {
                assert(after_pushes(c0, cap, input@.take(i + 1int)) =~= after_pushes(
                    c0,
                    cap,
                    input@.take(i as int),
                ).push(input@[i as int]));
            } else {
                assert(input@.take(i + 1int).take(room(c0, cap)) =~= input@.take(i as int).take(
                    room(c0, cap),
                ));
                assert(after_pushes(c0, cap, input@.take(i + 1int)) =~= after_pushes(
                    c0,
                    cap,
                    input@.take(i as int),
                ));
            }
        }
    }
    proof {
        assert(input@.take(input@.len() as int) =~= input@);
    }
}

/// One playback callback for a single channel: fills every output slot with
/// the next queued sample, never blocking; once the queue is empty the
/// remaining slots are filled with silence.
pub fn playback_channel(q: &mut SampleQueue, slots: usize) -> (out: Vec<u32>)
    ensures
        queue_capacity(*final(q)) == queue_capacity(*old(q)),
        out@ == drained(queue_samples(*old(q)), slots as nat),
        queue_samples(*final(q)) == left_after_drain(queue_samples(*old(q)), slots as nat),
        queue_samples(*old(q)).len() == 0 ==> forall|i: int|
            0 <= i < slots ==> out@[i] == SILENCE,
{
    let ghost c0 = queue_samples(*old(q));
    let ghost cap = queue_capacity(*old(q));
    let mut out: Vec<u32> = Vec::new();
    for i in 0..slots
        invariant
            queue_capacity(*q) == cap,
            queue_samples(*q) == left_after_drain(c0, i as nat),
            out@ == drained(c0, i as nat),
    {
        match q.try_pop() {
            Some(v) => out.push(v),
            None => out.push(SILENCE),
        }
        proof {
            if i < c0.len() {
                assert(c0.skip(i as int).skip(1) =~= c0.skip(i + 1int));
            }
            assert(out@ =~= drained(c0, (i + 1) as nat));
            assert(queue_samples(*q) =~= left_after_drain(c0, (i + 1) as nat));
        }
    }
    out
}

/// One capture callback: the left and right capture queues each receive
/// their channel's samples under the drop-on-full policy.
pub fn capture_process(
    left_q: &mut SampleQueue,
    right_q: &mut SampleQueue,
    in_left: &Vec<u32>,
    in_right: &Vec<u32>,
)
    ensures
        queue_capacity(*final(left_q)) == queue_capacity(*old(left_q)),
        queue_capacity(*final(right_q)) == queue_capacity(*old(right_q)),
        queue_samples(*final(left_q)) == after_pushes(
            queue_samples(*old(left_q)),
            queue_capacity(*old(left_q)),
            in_left@,
        ),
        queue_samples(*final(right_q)) == after_pushes(
            queue_samples(*old(right_q)),
            queue_capacity(*old(right_q)),
            in_right@,
        ),
{
    capture_channel(left_q, in_left);
    capture_channel(right_q, in_right);
}

/// One playback callback: fills both channels' output slots from the left
/// and right playback queues, padding with silence on underrun.
pub fn playback_process(
    left_q: &mut SampleQueue,
    right_q: &mut SampleQueue,
    slots: usize,
) -> (out: (Vec<u32>, Vec<u32>))
    ensures
        queue_capacity(*final(left_q)) == queue_capacity(*old(left_q)),
        queue_capacity(*final(right_q)) == queue_capacity(*old(right_q)),
        out.0@ == drained(queue_samples(*old(left_q)), slots as nat),
        out.1@ == drained(queue_samples(*old(right_q)), slots as nat),
        queue_samples(*final(left_q)) == left_after_drain(
            queue_samples(*old(left_q)),
            slots as nat,
        ),
        queue_samples(*final(right_q)) == left_after_drain(
            queue_samples(*old(right_q)),
            slots as nat,
        ),
{
    let out_l = playback_channel(left_q, slots);
    let out_r = playback_channel(right_q, slots);
    (out_l, out_r)
}

/// Whether both capture queues hold at least one packet's worth of frames,
/// the sender's condition for building a datagram.
pub fn packet_ready(left_q: &SampleQueue, right_q: &SampleQueue, frame_count: usize) -> (r: bool)
    ensures
        r == (queue_samples(*left_q).len() >= frame_count && queue_samples(*right_q).len()
            >= frame_count),
{
    left_q.occupied_len() >= frame_count && right_q.occupied_len() >= frame_count
}

/// Pops exactly `count` samples, which the occupancy check has already shown
/// to be present; the queue has a single consumer, so they cannot vanish.
pub fn pop_exact(q: &mut SampleQueue, count: usize) -> (out: Vec<u32>)
    requires
        count <= queue_samples(*old(q)).len(),
    ensures
        queue_capacity(*final(q)) == queue_capacity(*old(q)),
        out@ == queue_samples(*old(q)).take(count as int),
        queue_samples(*final(q)) == queue_samples(*old(q)).skip(count as int),
{
    let ghost c0 = queue_samples(*old(q));
    let ghost cap = queue_capacity(*old(q));
    let mut out: Vec<u32> = Vec::new();
    for i in 0..count
        invariant
            count <= c0.len(),
            queue_capacity(*q) == cap,
            queue_samples(*q) == c0.skip(i as int),
            out@ == c0.take(i as int),
    {
        let v = q.try_pop().unwrap();
        out.push(v);
        proof {
            assert(c0.skip(i as int).skip(1) =~= c0.skip(i + 1int));
            assert(c0.take(i as int).push(c0.skip(i as int)[0]) =~= c0.take(i + 1int));
        }
    }
    out
}

/// One sender cycle once enough samples are queued: drains exactly
/// `frame_count` samples from each capture queue and serializes them into
/// one datagram payload.
pub fn build_packet(
    left_q: &mut SampleQueue,
    right_q: &mut SampleQueue,
    frame_count: usize,
) -> (pkt: Vec<u8>)
    requires
        frame_count <= queue_samples(*old(left_q)).len(),
        frame_count <= queue_samples(*old(right_q)).len(),
    ensures
        queue_capacity(*final(left_q)) == queue_capacity(*old(left_q)),
        queue_capacity(*final(right_q)) == queue_capacity(*old(right_q)),
        pkt@ == packet_bytes(
            queue_samples(*old(left_q)).take(frame_count as int),
            queue_samples(*old(right_q)).take(frame_count as int),
        ),
        pkt@.len() == frame_count * 8,
        queue_samples(*final(left_q)) == queue_samples(*old(left_q)).skip(frame_count as int),
        queue_samples(*final(right_q)) == queue_samples(*old(right_q)).skip(frame_count as int),
{
    let samples_l = pop_exact(left_q, frame_count);
    let samples_r = pop_exact(right_q, frame_count);
    encode_packet(&samples_l, &samples_r)
}

/// One iteration of the sender's polling loop: when both capture queues hold
/// a full packet's worth of frames it drains them and yields the datagram to
/// transmit; otherwise it leaves the queues untouched and yields nothing, and
/// the caller idles briefly before asking again.
pub fn sender_poll(
    left_q: &mut SampleQueue,
    right_q: &mut SampleQueue,
    frame_count: usize,
) -> (pkt: Option<Vec<u8>>)
    ensures
        queue_capacity(*final(left_q)) == queue_capacity(*old(left_q)),
        queue_capacity(*final(right_q)) == queue_capacity(*old(right_q)),
        pkt is Some <==> queue_samples(*old(left_q)).len() >= frame_count && queue_samples(
            *old(right_q),
        ).len() >= frame_count,
        pkt matches Some(p) ==> p@ == packet_bytes(
            queue_samples(*old(left_q)).take(frame_count as int),
            queue_samples(*old(right_q)).take(frame_count as int),
        ) && p@.len() == frame_count * 8 && queue_samples(*final(left_q)) == queue_samples(
            *old(left_q),
        ).skip(frame_count as int) && queue_samples(*final(right_q)) == queue_samples(
            *old(right_q),
        ).skip(frame_count as int),
        pkt is None ==> *final(left_q) == *old(left_q) && *final(right_q) == *old(right_q),
{
    if packet_ready(left_q, right_q, frame_count) {
        Some(build_packet(left_q, right_q, frame_count))
    } else {
        None
    }
}

/// One receiver step: a datagram of exactly `frame_count * 8` bytes is
/// decoded and its samples offered to the playback queues in order under the
/// drop-on-full policy; a datagram of any other length is rejected without
/// touching either queue. The result says whether the datagram was accepted.
pub fn handle_datagram(
    left_q: &mut SampleQueue,
    right_q: &mut SampleQueue,
    datagram: &[u8],
    frame_count: usize,
) -> (accepted: bool)
    requires
        frame_count * 8 <= usize::MAX,
    ensures
        queue_capacity(*final(left_q)) == queue_capacity(*old(left_q)),
        queue_capacity(*final(right_q)) == queue_capacity(*old(right_q)),
        accepted == (datagram@.len() == frame_count * 8),
        !accepted ==> *final(left_q) == *old(left_q) && *final(right_q) == *old(right_q),
        accepted ==> queue_samples(*final(left_q)) == after_pushes(
            queue_samples(*old(left_q)),
            queue_capacity(*old(left_q)),
            decoded_channel(datagram@, frame_count as nat, 0),
        ),
        accepted ==> queue_samples(*final(right_q)) == after_pushes(
            queue_samples(*old(right_q)),
            queue_capacity(*old(right_q)),
            decoded_channel(datagram@, frame_count as nat, 4),
        ),
{
    match decode_packet(datagram, frame_count) {
        Some((samples_l, samples_r)) => {
            capture_channel(left_q, &samples_l);
            capture_channel(right_q, &samples_r);
            true
        },
        None => false,
    }
}

} // verus!
