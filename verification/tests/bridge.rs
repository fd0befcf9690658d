use audio_bridge::codec::{decode_packet, encode_packet};
use audio_bridge::queue::{run_ops, QueueOp, SampleQueue};
use audio_bridge::stages::{
    capture_channel, capture_process, handle_datagram, packet_ready, playback_channel,
    playback_process, sender_poll, SILENCE,
};
use audio_bridge::{FRAME_COUNT, PACKET_BYTES, QUEUE_CAPACITY};

fn bits(samples: &[f32]) -> Vec<u32> {
    samples.iter().map(|s| s.to_bits()).collect()
}

fn floats(samples: &[u32]) -> Vec<f32> {
    samples.iter().map(|s| f32::from_bits(*s)).collect()
}

#[test]
fn fifo_order_preserved() {
    let mut q = SampleQueue::new(3);
    let ops = vec![
        QueueOp::Push(1),
        QueueOp::Push(2),
        QueueOp::Pop,
        QueueOp::Push(3),
        QueueOp::Push(4),
        QueueOp::Push(5),
        QueueOp::Pop,
        QueueOp::Pop,
        QueueOp::Pop,
    ];
    let popped = run_ops(&mut q, &ops);
    assert_eq!(popped, vec![1, 2, 3, 4]);
    assert_eq!(q.occupancy(), 0);
}

#[test]
fn pop_on_empty_yields_nothing() {
    let mut q = SampleQueue::new(2);
    let popped = run_ops(&mut q, &vec![QueueOp::Pop, QueueOp::Push(7), QueueOp::Pop, QueueOp::Pop]);
    assert_eq!(popped, vec![7]);
    assert_eq!(q.occupancy(), 0);
}

#[test]
fn capture_drops_only_excess() {
    let mut q = SampleQueue::new(4);
    let input = bits(&[0.5, -0.5, 1.5, -1.5, 2.5, -2.5]);
    capture_channel(&mut q, &input);
    assert_eq!(q.occupancy(), 4);
    let out = playback_channel(&mut q, 4);
    assert_eq!(floats(&out), vec![0.5, -0.5, 1.5, -1.5]);
    assert_eq!(q.occupancy(), 0);
}

#[test]
fn capture_caps_occupancy_at_capacity() {
    let mut left = SampleQueue::new(8);
    let mut right = SampleQueue::new(8);
    capture_process(&mut left, &mut right, &vec![1; 5], &vec![2; 5]);
    capture_process(&mut left, &mut right, &vec![3; 5], &vec![4; 5]);
    assert_eq!(left.occupancy(), 8);
    assert_eq!(right.occupancy(), 8);
    let (out_l, out_r) = playback_process(&mut left, &mut right, 8);
    assert_eq!(out_l, vec![1, 1, 1, 1, 1, 3, 3, 3]);
    assert_eq!(out_r, vec![2, 2, 2, 2, 2, 4, 4, 4]);
}

#[test]
fn playback_empty_emits_silence() {
    let mut left = SampleQueue::new(QUEUE_CAPACITY);
    let mut right = SampleQueue::new(QUEUE_CAPACITY);
    let (out_l, out_r) = playback_process(&mut left, &mut right, 128);
    assert_eq!(out_l.len(), 128);
    assert_eq!(out_r.len(), 128);
    assert!(out_l.iter().all(|s| *s == SILENCE));
    assert!(out_r.iter().all(|s| f32::from_bits(*s) == 0.0));
}

#[test]
fn playback_pads_underrun_with_silence() {
    let mut q = SampleQueue::new(16);
    capture_channel(&mut q, &bits(&[0.25, -0.75]));
    let out = playback_channel(&mut q, 5);
    assert_eq!(floats(&out), vec![0.25, -0.75, 0.0, 0.0, 0.0]);
}

#[test]
fn round_trip_is_bit_exact() {
    let left = bits(&[0.0, -0.0, 1.0, -1.0, f32::MIN_POSITIVE, 3.1415927, f32::INFINITY]);
    let mut right = bits(&[100.5, -1e30, 1e-30, 0.1, -0.1, 42.0, f32::NEG_INFINITY]);
    right[5] = 0x7FC0_0001; // a NaN payload must survive untouched
    let pkt = encode_packet(&left, &right);
    assert_eq!(pkt.len(), left.len() * 8);
    let (dec_l, dec_r) = decode_packet(&pkt, left.len()).expect("well-formed packet");
    assert_eq!(dec_l, left);
    assert_eq!(dec_r, right);
}

#[test]
fn encode_layout_is_interleaved_little_endian() {
    let pkt = encode_packet(&bits(&[1.0, -2.0]), &bits(&[2.0, 1.0]));
    assert_eq!(
        pkt,
        vec![
            0, 0, 128, 63, // 1.0 left, frame 0
            0, 0, 0, 64, // 2.0 right, frame 0
            0, 0, 0, 192, // -2.0 left, frame 1
            0, 0, 128, 63, // 1.0 right, frame 1
        ]
    );
}

#[test]
fn decode_rejects_any_other_length() {
    let pkt = encode_packet(&vec![0; FRAME_COUNT], &vec![0; FRAME_COUNT]);
    assert_eq!(pkt.len(), PACKET_BYTES);
    assert!(decode_packet(&pkt, FRAME_COUNT).is_some());
    assert!(decode_packet(&pkt[..PACKET_BYTES - 1], FRAME_COUNT).is_none());
    let mut long = pkt.clone();
    long.push(0);
    assert!(decode_packet(&long, FRAME_COUNT).is_none());
    assert!(decode_packet(&[], FRAME_COUNT).is_none());
}

#[test]
fn sender_drains_one_packet_exactly() {
    let mut left = SampleQueue::new(QUEUE_CAPACITY);
    let mut right = SampleQueue::new(QUEUE_CAPACITY);
    let in_l: Vec<u32> = (0..FRAME_COUNT).map(|i| (i as f32).to_bits()).collect();
    let in_r: Vec<u32> = (0..FRAME_COUNT).map(|i| (-(i as f32)).to_bits()).collect();
    capture_process(&mut left, &mut right, &in_l, &in_r);
    assert!(packet_ready(&left, &right, FRAME_COUNT));
    let pkt = sender_poll(&mut left, &mut right, FRAME_COUNT).expect("a full packet is queued");
    assert_eq!(pkt.len(), FRAME_COUNT * 8);
    assert_eq!(left.occupancy(), 0);
    assert_eq!(right.occupancy(), 0);
    let (dec_l, dec_r) = decode_packet(&pkt, FRAME_COUNT).expect("well-formed packet");
    assert_eq!(dec_l, in_l);
    assert_eq!(dec_r, in_r);
}

#[test]
fn sender_idles_below_one_packet() {
    let mut left = SampleQueue::new(QUEUE_CAPACITY);
    let mut right = SampleQueue::new(QUEUE_CAPACITY);
    capture_process(&mut left, &mut right, &vec![1; FRAME_COUNT - 1], &vec![2; FRAME_COUNT]);
    assert!(!packet_ready(&left, &right, FRAME_COUNT));
    assert!(sender_poll(&mut left, &mut right, FRAME_COUNT).is_none());
    assert_eq!(left.occupancy(), FRAME_COUNT - 1);
    assert_eq!(right.occupancy(), FRAME_COUNT);
}

#[test]
fn receiver_fills_playback_queues_in_order() {
    let in_l: Vec<u32> = (0..FRAME_COUNT).map(|i| (0.25 * i as f32).to_bits()).collect();
    let in_r: Vec<u32> = (0..FRAME_COUNT).map(|i| (1.0 / (1.0 + i as f32)).to_bits()).collect();
    let pkt = encode_packet(&in_l, &in_r);
    let mut left = SampleQueue::new(QUEUE_CAPACITY);
    let mut right = SampleQueue::new(QUEUE_CAPACITY);
    let accepted = handle_datagram(&mut left, &mut right, &pkt, FRAME_COUNT);
    assert!(accepted);
    assert_eq!(left.occupancy(), FRAME_COUNT);
    assert_eq!(right.occupancy(), FRAME_COUNT);
    let (out_l, out_r) = playback_process(&mut left, &mut right, FRAME_COUNT);
    assert_eq!(out_l, in_l);
    assert_eq!(out_r, in_r);
}

#[test]
fn receiver_rejects_short_datagram_untouched() {
    let mut left = SampleQueue::new(QUEUE_CAPACITY);
    let mut right = SampleQueue::new(QUEUE_CAPACITY);
    capture_channel(&mut left, &bits(&[5.0]));
    let short = vec![0u8; FRAME_COUNT * 8 - 1];
    let accepted = handle_datagram(&mut left, &mut right, &short, FRAME_COUNT);
    assert!(!accepted);
    assert_eq!(left.occupancy(), 1);
    assert_eq!(right.occupancy(), 0);
    let out = playback_channel(&mut left, 1);
    assert_eq!(floats(&out), vec![5.0]);
}

#[test]
fn receiver_drops_samples_beyond_capacity() {
    let in_l: Vec<u32> = (0..4u32).collect();
    let in_r: Vec<u32> = (10..14u32).collect();
    let pkt = encode_packet(&in_l, &in_r);
    let mut left = SampleQueue::new(3);
    let mut right = SampleQueue::new(3);
    assert!(handle_datagram(&mut left, &mut right, &pkt, 4));
    assert_eq!(left.occupancy(), 3);
    assert_eq!(right.occupancy(), 3);
    assert_eq!(playback_channel(&mut left, 3), vec![0, 1, 2]);
    assert_eq!(playback_channel(&mut right, 3), vec![10, 11, 12]);
}

#[test]
fn packet_ready_needs_both_channels() {
    let mut left = SampleQueue::new(8);
    let mut right = SampleQueue::new(8);
    capture_channel(&mut left, &vec![1, 2, 3]);
    capture_channel(&mut right, &vec![4, 5]);
    assert!(packet_ready(&left, &right, 2));
    assert!(!packet_ready(&left, &right, 3));
    assert!(packet_ready(&left, &right, 0));
}
