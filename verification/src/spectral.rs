//! The capture step and the framing side of the spectral stage: what goes
//! into the sample queue, when frames leave it, and how a frame of real
//! samples is read as complex pairs.

use crate::queue::{frame_at, frames_due, rest_after, FrameQueue, F_SIZE};
use vstd::prelude::*;

verus! {

/// Status handed back to the audio backend after a capture period: keep
/// calling.
pub const KEEP_RUNNING: i32 = 0;

/// One capture period: every delivered sample is appended to the sample
/// queue, in order, and the backend is told to continue. There is no
/// failure status; a backlog is dealt with downstream.
pub fn capture<T: Copy>(samples: &mut FrameQueue<T>, period: &[T]) -> (status: i32)
    ensures
        status == KEEP_RUNNING,
        final(samples)@ == old(samples)@ + period@,
{
    samples.append(period);
    KEEP_RUNNING
}

/// One wake-up of the spectral stage. The running flag is looked at first:
/// once it is down nothing is drained. While it is up, every frame that is
/// due is taken, oldest first.
pub fn spectral_tick<T: Copy>(running: bool, samples: &mut FrameQueue<T>) -> (frames: Vec<Vec<T>>)
    ensures
        !running ==> frames@.len() == 0 && final(samples)@ == old(samples)@,
        running ==> frames@.len() == frames_due(old(samples)@.len()),
        frames@.len() > 0 ==> running && old(samples)@.len() > F_SIZE,
        forall|k: int|
            0 <= k < frames@.len() ==> (#[trigger] frames@[k])@ == frame_at(old(samples)@, k),
        final(samples)@ == rest_after(old(samples)@, frames@.len() as int),
        forall|k: int| 0 <= k < frames@.len() ==> (#[trigger] frames@[k])@.len() == F_SIZE,
{
    if !running {
        proof {
            assert(rest_after(samples@, 0) == samples@);
        }
        return Vec::new();
    }
    proof {
        crate::queue::lemma_leftover_bound(samples@.len());
    }
    samples.drain_frames()
}

/// A buffer of reals read as complex values: items `2i` and `2i + 1` are
/// the real and imaginary part of value `i`. An odd last item has no
/// partner and is left out.
pub open spec fn pairs_of<T>(reals: Seq<T>) -> Seq<(T, T)> {
    Seq::new(reals.len() / 2, |i: int| (reals[2 * i], reals[2 * i + 1]))
}

/// The first `k` of `spectra`, one after the other.
pub open spec fn joined<T>(spectra: Seq<Vec<T>>, k: nat) -> Seq<T>
    decreases k,
{
    if k == 0 {
        Seq::<T>::empty()
    } else {
        joined(spectra, (k - 1) as nat) + spectra[k - 1]@
    }
}

/// `out` is what `transform` made of `frame` read as complex values.
pub open spec fn transformed_from<T, F: Fn(Vec<(T, T)>) -> Vec<T>>(
    transform: &F,
    frame: Seq<T>,
    out: Vec<T>,
) -> bool {
    exists|input: Vec<(T, T)>| input@ == pairs_of(frame) && call_ensures(transform, (input,), out)
}

/// Executable form of [`pairs_of`].
pub fn as_pairs<T: Copy>(reals: &[T]) -> (pairs: Vec<(T, T)>)
    ensures
        pairs@ == pairs_of(reals@),
{
    let len: usize = reals.len();
    let n: usize = len / 2;
    let mut pairs: Vec<(T, T)> = Vec::new();
    let mut i: usize = 0;
    while i < n
        invariant
            len == reals@.len(),
            n == len / 2,
            i <= n,
            pairs@.len() == i,
            forall|j: int|
                0 <= j < i ==> #[trigger] pairs@[j] == (reals@[2 * j], reals@[2 * j + 1]),
        decreases n - i,
    {
        pairs.push((reals[2 * i], reals[2 * i + 1]));
        i = i + 1;
    }
    proof {
        assert(pairs@ =~= pairs_of(reals@));
    }
    pairs
}

/// One wake-up of the whole spectral stage. With the running flag down it
/// does nothing. Otherwise every frame that is due leaves the sample
/// queue, is read as `F_SIZE / 2` complex values and handed to
/// `transform`, and what comes back is appended to the frequency queue,
/// frame after frame and in the order in which `transform` gave it. The
/// spectra that were appended are handed back.
pub fn spectral_stage<T: Copy, F: Fn(Vec<(T, T)>) -> Vec<T>>(
    running: bool,
    samples: &mut FrameQueue<T>,
    frequencies: &mut FrameQueue<T>,
    transform: &F,
) -> (spectra: Vec<Vec<T>>)
    requires
        forall|input: Vec<(T, T)>| input@.len() == F_SIZE / 2 ==> call_requires(transform, (input,)),
    ensures
        !running ==> spectra@.len() == 0 && final(samples)@ == old(samples)@,
        running ==> spectra@.len() == frames_due(old(samples)@.len()),
        spectra@.len() > 0 ==> running && old(samples)@.len() > F_SIZE,
        final(samples)@ == rest_after(old(samples)@, spectra@.len() as int),
        forall|k: int|
            0 <= k < spectra@.len() ==> transformed_from(
                transform,
                frame_at(old(samples)@, k),
                #[trigger] spectra@[k],
            ),
        final(frequencies)@ == old(frequencies)@ + joined(spectra@, spectra@.len()),
{
    let frames = spectral_tick(running, samples);
    let n: usize = frames.len();
    let mut spectra: Vec<Vec<T>> = Vec::new();
    let mut k: usize = 0;
    proof {
        assert(frequencies@ + joined(spectra@, 0) == frequencies@);
    }
    while k < n
        invariant
            k <= n,
            n == frames@.len(),
            spectra@.len() == k,
            forall|input: Vec<(T, T)>|
                input@.len() == F_SIZE / 2 ==> call_requires(transform, (input,)),
            forall|j: int| 0 <= j < n ==> (#[trigger] frames@[j])@.len() == F_SIZE,
            forall|j: int|
                0 <= j < k ==> transformed_from(transform, frames@[j]@, #[trigger] spectra@[j]),
            frequencies@ == old(frequencies)@ + joined(spectra@, k as nat),
        decreases n - k,
    {
        let input = as_pairs(frames[k].as_slice());
        let ghost fed = input;
        let spectrum = transform(input);
        frequencies.append(spectrum.as_slice());
        let ghost earlier = spectra@;
        spectra.push(spectrum);
        proof {
            assert(transformed_from(transform, frames@[k as int]@, spectra@[k as int])) by {
                assert(fed@ == pairs_of(frames@[k as int]@));
                assert(call_ensures(transform, (fed,), spectrum));
            }
            lemma_joined_ignores_later(earlier, spectra@, k as nat);
            assert(joined(spectra@, (k + 1) as nat) == joined(spectra@, k as nat) + spectrum@);
            assert(old(frequencies)@ + (joined(spectra@, k as nat) + spectrum@) =~= (old(
                frequencies,
            )@ + joined(spectra@, k as nat)) + spectrum@);
        }
        k = k + 1;
    }
    spectra
}

/// What the first `k` spectra join to does not depend on the spectra
/// that follow them.
proof fn lemma_joined_ignores_later<T>(a: Seq<Vec<T>>, b: Seq<Vec<T>>, k: nat)
    requires
        k <= a.len(),
        k <= b.len(),
        forall|j: int| 0 <= j < k ==> a[j] == b[j],
    ensures
        joined(a, k) == joined(b, k),
    decreases k,
{
    if k > 0 {
        lemma_joined_ignores_later(a, b, (k - 1) as nat);
    }
}

} // verus!
