use jack_fourier::queue::{FrameQueue, F_SIZE};

fn ramp(n: usize) -> Vec<f32> {
    let mut v = Vec::with_capacity(n);
    for i in 0..n {
        v.push(i as f32);
    }
    v
}

#[test]
fn new_queue_is_empty() {
    let q: FrameQueue<f32> = FrameQueue::new();
    assert_eq!(q.len(), 0);
    assert!(!q.frame_ready());
}

#[test]
fn append_keeps_order_and_earlier_items() {
    let mut q: FrameQueue<u32> = FrameQueue::new();
    q.append(&[1, 2, 3]);
    q.append(&[]);
    q.append(&[4, 5]);
    assert_eq!(q.len(), 5);
    let mut more = vec![0u32; F_SIZE - 5];
    more[0] = 6;
    q.append(&more);
    let frame = q.take_frame().unwrap();
    assert_eq!(&frame[..7], &[1, 2, 3, 4, 5, 6, 0]);
    assert_eq!(frame.len(), F_SIZE);
    assert_eq!(q.len(), 0);
}

#[test]
fn take_frame_needs_a_whole_frame() {
    let mut q: FrameQueue<f32> = FrameQueue::new();
    q.append(&ramp(F_SIZE - 1));
    assert!(q.take_frame().is_none());
    assert_eq!(q.len(), F_SIZE - 1);
    q.append(&[9.0]);
    let frame = q.take_frame().unwrap();
    assert_eq!(frame.len(), F_SIZE);
    assert_eq!(frame[0], 0.0);
    assert_eq!(frame[F_SIZE - 1], 9.0);
    assert_eq!(q.len(), 0);
}

#[test]
fn fifo_fidelity_over_whole_frames() {
    let fed = ramp(4 * F_SIZE);
    let mut q: FrameQueue<f32> = FrameQueue::new();
    q.append(&fed);
    let mut rebuilt: Vec<f32> = Vec::new();
    while let Some(frame) = q.take_frame() {
        assert_eq!(frame.len(), F_SIZE);
        rebuilt.extend(frame);
    }
    assert_eq!(rebuilt, fed);
    assert_eq!(q.len(), 0);
}

#[test]
fn drain_frame_wants_more_than_a_frame() {
    let mut q: FrameQueue<f32> = FrameQueue::new();
    q.append(&ramp(F_SIZE));
    assert!(!q.frame_ready());
    assert!(q.drain_frame().is_none());
    assert_eq!(q.len(), F_SIZE);
    q.append(&[512.0]);
    assert!(q.frame_ready());
    let frame = q.drain_frame().unwrap();
    assert_eq!(frame, ramp(F_SIZE));
    assert_eq!(q.len(), 1);
    assert!(q.drain_frame().is_none());
}

#[test]
fn drain_frames_catches_up_in_order() {
    let fed = ramp(3 * F_SIZE + 7);
    let mut q: FrameQueue<f32> = FrameQueue::new();
    q.append(&fed);
    let frames = q.drain_frames();
    assert_eq!(frames.len(), 3);
    for (k, frame) in frames.iter().enumerate() {
        assert_eq!(&frame[..], &fed[k * F_SIZE..(k + 1) * F_SIZE]);
    }
    assert_eq!(q.len(), 7);
    q.append(&ramp(F_SIZE - 7));
    let tail = q.take_frame().unwrap();
    assert_eq!(&tail[..7], &fed[3 * F_SIZE..]);
}

#[test]
fn drain_frames_leaves_the_last_whole_frame() {
    let mut q: FrameQueue<f32> = FrameQueue::new();
    q.append(&ramp(2 * F_SIZE));
    let frames = q.drain_frames();
    assert_eq!(frames.len(), 1);
    assert_eq!(q.len(), F_SIZE);
    assert!(q.drain_frames().is_empty());
    assert_eq!(q.len(), F_SIZE);
}

#[test]
fn leftover_is_short_after_a_drain() {
    for n in [0usize, 1, 511, 513, 600, 1023, 1025, 5000] {
        let mut q: FrameQueue<u8> = FrameQueue::new();
        q.append(&vec![0u8; n]);
        let frames = q.drain_frames();
        assert!(q.len() < F_SIZE, "n = {}", n);
        assert_eq!(frames.len() * F_SIZE + q.len(), n);
    }
}

#[test]
fn backlog_grows_when_the_producer_is_faster() {
    let mut q: FrameQueue<f32> = FrameQueue::new();
    let period = ramp(F_SIZE + 128);
    let mut last = q.len();
    for round in 0..200 {
        q.append(&period);
        let frame = q.drain_frame();
        assert!(frame.is_some());
        assert!(q.len() >= last);
        assert_eq!(q.len(), (round + 1) * 128);
        last = q.len();
    }
    assert_eq!(last, 200 * 128);
}
