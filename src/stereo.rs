use vstd::prelude::*;

verus! {

/// Per-channel scratch buffers of a stereo backend, allocated once with a fixed capacity
/// in frames so that no block needs a new allocation.
pub struct StereoScratch<T> {
    pub left: Vec<T>,
    pub right: Vec<T>,
    pub max_frames: usize,
}

/// Every sample of `s` is `v`.
pub open spec fn all_equal<T>(s: Seq<T>, v: T) -> bool {
    forall|i: int| 0 <= i < s.len() ==> s[i] == v
}

impl<T: Copy> StereoScratch<T> {
    pub open spec fn wf(&self) -> bool {
        self.left@.len() == self.max_frames && self.right@.len() == self.max_frames
    }

    /// Allocates both channels for `max_frames` frames, filled with `silence`.
    pub fn new(max_frames: usize, silence: T) -> (r: StereoScratch<T>)
        ensures
            r.wf(),
            r.max_frames == max_frames,
            all_equal(r.left@, silence),
            all_equal(r.right@, silence),
    {
        let mut left: Vec<T> = Vec::new();
        let mut right: Vec<T> = Vec::new();
        let mut i: usize = 0;
        while i < max_frames
            invariant
                i <= max_frames,
                left@.len() == i,
                right@.len() == i,
                all_equal(left@, silence),
                all_equal(right@, silence),
            decreases max_frames - i,
        {
            left.push(silence);
            right.push(silence);
            i += 1;
        }
        StereoScratch { left, right, max_frames }
    }

    /// Readies a block of the interleaved stereo `buffer` for the backend.
    ///
    /// A block of more frames than the scratch holds is not processed: the whole buffer is
    /// set to `silence` and the result is `None`. Otherwise the first `frames` samples of
    /// each channel are set to `silence`, the buffer is left as it was, and the result is
    /// the number of frames.
    pub fn prepare_block(&mut self, buffer: &mut [T], silence: T) -> (r: Option<usize>)
        requires
            old(self).wf(),
        ensures
            final(self).wf(),
            final(self).max_frames == old(self).max_frames,
            final(buffer)@.len() == old(buffer)@.len(),
            old(buffer)@.len() / 2 > old(self).max_frames ==> r.is_none() && all_equal(final(buffer)@, silence),
            old(buffer)@.len() / 2 <= old(self).max_frames ==> {
                &&& r == Some((old(buffer)@.len() / 2) as usize)
                &&& final(buffer)@ == old(buffer)@
                &&& all_equal(final(self).left@.subrange(0, (old(buffer)@.len() / 2) as int), silence)
                &&& all_equal(final(self).right@.subrange(0, (old(buffer)@.len() / 2) as int), silence)
            },
    {
        let frames = buffer.len() / 2;
        if frames > self.max_frames {
            let mut i: usize = 0;
            while i < buffer.len()
                invariant
                    i <= buffer@.len(),
                    buffer@.len() == old(buffer)@.len(),
                    forall|j: int| 0 <= j < i ==> buffer@[j] == silence,
                decreases buffer@.len() - i,
            {
                buffer[i] = silence;
                i += 1;
            }
            return None;
        }
        let mut i: usize = 0;
        while i < frames
            invariant
                i <= frames <= self.max_frames,
                self.wf(),
                self.max_frames == old(self).max_frames,
                forall|j: int| 0 <= j < i ==> self.left@[j] == silence && self.right@[j] == silence,
            decreases frames - i,
        {
            self.left.set(i, silence);
            self.right.set(i, silence);
            i += 1;
        }
        Some(frames)
    }

    /// Writes the first `frames` frames of both channels back into the interleaved
    /// `buffer`: left on even samples, right on odd ones.
    pub fn interleave_into(&self, buffer: &mut [T], frames: usize)
        requires
            self.wf(),
            frames <= self.max_frames,
            2 * frames <= old(buffer)@.len(),
        ensures
            final(buffer)@.len() == old(buffer)@.len(),
            forall|i: int| 0 <= i < frames ==> final(buffer)@[2 * i] == self.left@[i] && final(buffer)@[2 * i + 1] == self.right@[i],
            forall|j: int| 2 * frames <= j < old(buffer)@.len() ==> final(buffer)@[j] == old(buffer)@[j],
    {
        let mut i: usize = 0;
        while i < frames
            invariant
                i <= frames <= self.max_frames,
                self.wf(),
                2 * frames <= buffer@.len(),
                buffer@.len() == old(buffer)@.len(),
                forall|k: int| 0 <= k < i ==> buffer@[2 * k] == self.left@[k] && buffer@[2 * k + 1] == self.right@[k],
                forall|j: int| 2 * frames <= j < buffer@.len() ==> buffer@[j] == old(buffer)@[j],
            decreases frames - i,
        {
            let n = buffer.len();
            assert(2 * i + 1 < n);
            buffer[2 * i] = self.left[i];
            buffer[2 * i + 1] = self.right[i];
            i += 1;
        }
    }
}

} // verus!
