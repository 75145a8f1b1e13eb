//! The FIFO queue that carries samples (and later spectral values) between
//! the stages, and the rule by which whole frames are taken from its head.

use std::collections::VecDeque;
use vstd::prelude::*;

verus! {

/// Number of samples in one frame, the unit handed to the transform.
pub const F_SIZE: usize = 512;

/// The `k`-th whole frame of `s`, counted from the head.
pub open spec fn frame_at<T>(s: Seq<T>, k: int) -> Seq<T> {
    s.subrange(k * F_SIZE, (k + 1) * F_SIZE)
}

/// What is left of `s` once `k` whole frames have been taken from its head.
pub open spec fn rest_after<T>(s: Seq<T>, k: int) -> Seq<T> {
    s.subrange(k * F_SIZE, s.len() as int)
}

/// The first `k` frames of `s`, one after the other.
pub open spec fn concat_frames<T>(s: Seq<T>, k: nat) -> Seq<T>
    decreases k,
{
    if k == 0 {
        Seq::<T>::empty()
    } else {
        concat_frames(s, (k - 1) as nat) + frame_at(s, k - 1)
    }
}

/// How many frames a stage takes from a queue of `n` items when it drains
/// one frame for as long as the queue holds more than `F_SIZE` items.
pub open spec fn frames_due(n: nat) -> nat {
    if n == 0 {
        0
    } else {
        ((n - 1) / (F_SIZE as int)) as nat
    }
}

/// An unbounded first-in first-out queue. Its view is the sequence of the
/// items it holds, head first.
pub struct FrameQueue<T> {
    items: VecDeque<T>,
}

impl<T> View for FrameQueue<T> {
    type V = Seq<T>;

    closed spec fn view(&self) -> Seq<T> {
        self.items@
    }
}

impl<T: Copy> FrameQueue<T> {
    /// An empty queue.
    pub fn new() -> (q: Self)
        ensures
            q@ == Seq::<T>::empty(),
    {
        FrameQueue { items: VecDeque::new() }
    }

    /// Number of items waiting.
    pub fn len(&self) -> (n: usize)
        ensures
            n == self@.len(),
    {
        self.items.len()
    }

    /// Appends all of `samples` at the tail, in their order. Nothing that
    /// was queued before is touched.
    pub fn append(&mut self, samples: &[T])
        ensures
            final(self)@ == old(self)@ + samples@,
    {
        let n: usize = samples.len();
        let mut i: usize = 0;
        while i < n
            invariant
                n == samples@.len(),
                i <= n,
                self@ == old(self)@ + samples@.subrange(0, i as int),
            decreases n - i,
        {
            self.items.push_back(samples[i]);
            proof {
                assert(samples@.subrange(0, i + 1) == samples@.subrange(0, i as int).push(
                    samples@[i as int],
                ));
            }
            i = i + 1;
        }
        proof {
            assert(samples@.subrange(0, n as int) == samples@);
        }
    }

    /// Whether the spectral stage may take a frame: the queue must hold
    /// more than one frame's worth.
    pub fn frame_ready(&self) -> (ready: bool)
        ensures
            ready == (self@.len() > F_SIZE),
    {
        self.items.len() > F_SIZE
    }

    /// Takes the first `F_SIZE` items as one frame, if that many are there.
    /// A partial frame is never handed out.
    pub fn take_frame(&mut self) -> (frame: Option<Vec<T>>)
        ensures
            old(self)@.len() >= F_SIZE ==> frame.is_some() && frame.unwrap()@ == frame_at(
                old(self)@,
                0,
            ) && final(self)@ == rest_after(old(self)@, 1),
            old(self)@.len() < F_SIZE ==> frame.is_none() && final(self)@ == old(self)@,
    {
        if self.items.len() < F_SIZE {
            return None;
        }
        let mut frame: Vec<T> = Vec::new();
        let mut i: usize = 0;
        while i < F_SIZE
            invariant
                i <= F_SIZE,
                old(self)@.len() >= F_SIZE,
                frame@ == old(self)@.subrange(0, i as int),
                self@ == old(self)@.subrange(i as int, old(self)@.len() as int),
            decreases F_SIZE - i,
        {
            let head = self.items.pop_front();
            match head {
                Some(x) => {
                    frame.push(x);
                },
                None => {},
            }
            proof {
                let s = old(self)@;
                assert(s.subrange(0, i + 1) == s.subrange(0, i as int).push(s[i as int]));
                assert(s.subrange(i as int, s.len() as int).subrange(
                    1,
                    s.len() - i,
                ) == s.subrange(i + 1, s.len() as int));
            }
            i = i + 1;
        }
        Some(frame)
    }

    /// One step of a draining stage: hands out the first frame when the
    /// queue holds more than `F_SIZE` items, and otherwise leaves the
    /// queue as it is.
    pub fn drain_frame(&mut self) -> (frame: Option<Vec<T>>)
        ensures
            old(self)@.len() > F_SIZE ==> frame.is_some() && frame.unwrap()@ == frame_at(
                old(self)@,
                0,
            ) && final(self)@ == rest_after(old(self)@, 1),
            old(self)@.len() <= F_SIZE ==> frame.is_none() && final(self)@ == old(self)@,
    {
        if self.frame_ready() {
            self.take_frame()
        } else {
            None
        }
    }

    /// Drains one frame after the other for as long as more than `F_SIZE`
    /// items are waiting, so that a stage that fell behind catches up in
    /// one call. The frames come out in queue order, none overlapping, and
    /// what stays behind are the items after the last frame taken.
    pub fn drain_frames(&mut self) -> (frames: Vec<Vec<T>>)
        ensures
            frames@.len() == frames_due(old(self)@.len()),
            forall|k: int| 0 <= k < frames@.len() ==> (#[trigger] frames@[k])@ == frame_at(old(self)@, k),
            forall|k: int| 0 <= k < frames@.len() ==> (#[trigger] frames@[k])@.len() == F_SIZE,
            final(self)@ == rest_after(old(self)@, frames@.len() as int),
            final(self)@.len() <= F_SIZE,
            (old(self)@.len() == 0 || old(self)@.len() % (F_SIZE as nat) != 0) ==> final(self)@.len()
                < F_SIZE,
    {
        let mut frames: Vec<Vec<T>> = Vec::new();
        proof {
            assert(rest_after(self@, 0) == self@);
        }
        while self.frame_ready()
            invariant
                frames@.len() * F_SIZE + self@.len() == old(self)@.len(),
                frames@.len() > 0 ==> self@.len() >= 1,
                self@ == rest_after(old(self)@, frames@.len() as int),
                forall|k: int| 0 <= k < frames@.len() ==> (#[trigger] frames@[k])@ == frame_at(old(self)@, k),
                forall|k: int| 0 <= k < frames@.len() ==> (#[trigger] frames@[k])@.len() == F_SIZE,
            decreases self@.len(),
        {
            let ghost before = self@;
            let ghost k = frames@.len() as int;
            let taken = self.take_frame();
            match taken {
                Some(frame) => {
                    proof {
                        let s = old(self)@;
                        assert(frame_at(before, 0) == frame_at(s, k));
                        assert(rest_after(before, 1) == rest_after(s, k + 1));
                    }
                    frames.push(frame);
                },
                None => {},
            }
        }
        frames
    }
}

/// The first `k` frames of a sequence, put one after the other, are its
/// first `k * F_SIZE` items: framing neither reorders, repeats nor loses.
pub proof fn lemma_frames_are_a_prefix<T>(s: Seq<T>, k: nat)
    requires
        k * F_SIZE <= s.len(),
    ensures
        concat_frames(s, k) == s.subrange(0, k * F_SIZE),
    decreases k,
{
    if k == 0 {
        assert(s.subrange(0, 0) == Seq::<T>::empty());
    } else {
        lemma_frames_are_a_prefix(s, (k - 1) as nat);
        assert(s.subrange(0, (k - 1) * F_SIZE) + frame_at(s, k - 1) == s.subrange(
            0,
            k * F_SIZE,
        ));
    }
}

/// Once the first frame is taken, frame `k` of what is left is frame
/// `k + 1` of the whole: taking frames one by one walks through them
/// in order.
pub proof fn lemma_next_frame_follows<T>(s: Seq<T>, k: nat)
    requires
        (k + 2) * F_SIZE <= s.len(),
    ensures
        frame_at(rest_after(s, 1), k as int) == frame_at(s, (k + 1) as int),
{
    assert(frame_at(rest_after(s, 1), k as int) =~= frame_at(s, (k + 1) as int));
}

/// A sequence whose length is a whole number of frames is rebuilt exactly
/// by concatenating the frames taken from it in order.
pub proof fn lemma_whole_frames_rebuild<T>(s: Seq<T>)
    requires
        s.len() % (F_SIZE as nat) == 0,
    ensures
        concat_frames(s, s.len() / (F_SIZE as nat)) == s,
{
    let k = s.len() / (F_SIZE as nat);
    lemma_frames_are_a_prefix(s, k);
    assert(s.subrange(0, s.len() as int) == s);
}

/// Whatever the length, the frames that a draining stage takes followed by
/// what it leaves in the queue are the sequence it found.
pub proof fn lemma_drained_then_left_is_all<T>(s: Seq<T>)
    ensures
        concat_frames(s, frames_due(s.len())) + rest_after(s, frames_due(s.len()) as int) == s,
{
    let k = frames_due(s.len());
    lemma_leftover_bound(s.len());
    lemma_frames_are_a_prefix(s, k);
    assert(s.subrange(0, k * F_SIZE) + s.subrange(k * F_SIZE, s.len() as int) == s);
}

/// After a drain at most one frame's worth stays behind, and strictly less
/// than a frame unless the queue held a positive whole number of frames;
/// a frame is only ever taken from a queue that held at least `F_SIZE`.
pub proof fn lemma_leftover_bound(n: nat)
    ensures
        frames_due(n) * F_SIZE <= n,
        n - frames_due(n) * F_SIZE <= F_SIZE,
        frames_due(n) > 0 ==> n > F_SIZE,
        (n == 0 || n % (F_SIZE as nat) != 0) ==> n - frames_due(n) * F_SIZE < F_SIZE,
{
}

/// Length of a queue of `n` items after `added` items were appended and
/// the stage then took a single frame, if one was due.
pub open spec fn len_after_round(n: nat, added: nat) -> nat {
    if n + added > F_SIZE {
        (n + added - F_SIZE) as nat
    } else {
        n + added
    }
}

/// When every round brings at least a frame's worth and takes at most one
/// frame, the queue never gets shorter: nothing is dropped to keep up.
pub proof fn lemma_backlog_never_shrinks(n: nat, added: nat)
    requires
        added >= F_SIZE,
    ensures
        len_after_round(n, added) >= n,
{
}

} // verus!
