use jack_fourier::queue::{FrameQueue, F_SIZE};
use jack_fourier::spectral::{as_pairs, capture, spectral_stage, spectral_tick, KEEP_RUNNING};

#[test]
fn capture_appends_and_keeps_running() {
    let mut q: FrameQueue<f32> = FrameQueue::new();
    assert_eq!(capture(&mut q, &[0.5, -0.25]), 0);
    assert_eq!(capture(&mut q, &[]), KEEP_RUNNING);
    assert_eq!(capture(&mut q, &[1.0]), KEEP_RUNNING);
    assert_eq!(q.len(), 3);
    q.append(&vec![0.0; F_SIZE - 3]);
    let frame = q.take_frame().unwrap();
    assert_eq!(&frame[..4], &[0.5, -0.25, 1.0, 0.0]);
}

#[test]
fn tick_drains_every_due_frame() {
    let mut q: FrameQueue<u32> = FrameQueue::new();
    let all: Vec<u32> = (0..(2 * F_SIZE as u32 + 1)).collect();
    capture(&mut q, &all);
    let frames = spectral_tick(true, &mut q);
    assert_eq!(frames.len(), 2);
    assert_eq!(frames[0][0], 0);
    assert_eq!(frames[0][F_SIZE - 1], F_SIZE as u32 - 1);
    assert_eq!(frames[1][0], F_SIZE as u32);
    assert_eq!(q.len(), 1);
}

#[test]
fn tick_does_not_transform_a_partial_frame() {
    let mut q: FrameQueue<u32> = FrameQueue::new();
    capture(&mut q, &vec![1u32; F_SIZE - 1]);
    assert!(spectral_tick(true, &mut q).is_empty());
    assert_eq!(q.len(), F_SIZE - 1);
}

#[test]
fn nothing_is_drained_once_the_flag_is_down() {
    let mut q: FrameQueue<u32> = FrameQueue::new();
    capture(&mut q, &vec![7u32; 3 * F_SIZE]);
    let frames = spectral_tick(false, &mut q);
    assert!(frames.is_empty());
    assert_eq!(q.len(), 3 * F_SIZE);
}

#[test]
fn pairs_are_real_then_imaginary() {
    let pairs = as_pairs(&[1.0f32, 2.0, 3.0, 4.0, 5.0, 6.0]);
    assert_eq!(pairs, vec![(1.0, 2.0), (3.0, 4.0), (5.0, 6.0)]);
}

#[test]
fn an_odd_last_item_has_no_pair() {
    assert_eq!(as_pairs(&[1u8, 2, 3]), vec![(1, 2)]);
    assert!(as_pairs::<u8>(&[]).is_empty());
    assert!(as_pairs(&[9u8]).is_empty());
}

#[test]
fn a_frame_gives_half_as_many_pairs() {
    let frame = vec![0.0f32; F_SIZE];
    assert_eq!(as_pairs(&frame).len(), F_SIZE / 2);
}

#[test]
fn stage_transforms_each_due_frame_and_queues_the_result() {
    let mut samples: FrameQueue<f32> = FrameQueue::new();
    let mut frequencies: FrameQueue<f32> = FrameQueue::new();
    let all: Vec<f32> = (0..(2 * F_SIZE + 3)).map(|i| i as f32).collect();
    capture(&mut samples, &all);
    frequencies.append(&[-1.0]);
    let sum = |pairs: Vec<(f32, f32)>| -> Vec<f32> { pairs.iter().map(|p| p.0 + p.1).collect() };
    let spectra = spectral_stage(true, &mut samples, &mut frequencies, &sum);
    assert_eq!(spectra.len(), 2);
    assert_eq!(spectra[0].len(), F_SIZE / 2);
    assert_eq!(spectra[0][0], 1.0);
    assert_eq!(spectra[0][1], 5.0);
    assert_eq!(spectra[1][0], (2 * F_SIZE + 1) as f32);
    assert_eq!(samples.len(), 3);
    assert_eq!(frequencies.len(), 1 + F_SIZE);
    frequencies.append(&vec![0.0; F_SIZE - 1]);
    let first = frequencies.take_frame().unwrap();
    assert_eq!(&first[..3], &[-1.0, 1.0, 5.0]);
    assert_eq!(first[F_SIZE / 2 + 1], (2 * F_SIZE + 1) as f32);
}

#[test]
fn stage_is_idle_once_the_flag_is_down() {
    let mut samples: FrameQueue<u8> = FrameQueue::new();
    let mut frequencies: FrameQueue<u8> = FrameQueue::new();
    samples.append(&vec![1u8; 4 * F_SIZE]);
    let never = |_pairs: Vec<(u8, u8)>| -> Vec<u8> { panic!("no frame may be transformed") };
    let spectra = spectral_stage(false, &mut samples, &mut frequencies, &never);
    assert!(spectra.is_empty());
    assert_eq!(samples.len(), 4 * F_SIZE);
    assert_eq!(frequencies.len(), 0);
}

#[test]
fn stage_waits_for_more_than_one_frame() {
    let mut samples: FrameQueue<u8> = FrameQueue::new();
    let mut frequencies: FrameQueue<u8> = FrameQueue::new();
    samples.append(&vec![1u8; F_SIZE]);
    let never = |_pairs: Vec<(u8, u8)>| -> Vec<u8> { panic!("no frame may be transformed") };
    assert!(spectral_stage(true, &mut samples, &mut frequencies, &never).is_empty());
    assert_eq!(samples.len(), F_SIZE);
}
