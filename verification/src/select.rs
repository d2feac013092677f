//! Frame sampling: the stride between kept frames, the selection rule, and
//! the dispatcher state that assigns each decoded frame its index and counts
//! how many reduction jobs were submitted.

use vstd::prelude::*;
use vstd::arithmetic::div_mod::{
    lemma_div_by_self, lemma_div_is_ordered, lemma_div_pos_is_pos, lemma_fundamental_div_mod,
    lemma_mod_multiples_basic, lemma_small_mod,
};
use crate::error::PipelineError;

verus! {

/// Computes the sampling stride: the spacing, in decoded-frame-index units,
/// between two consecutive kept frames. Fails fast on a degenerate
/// configuration (width zero, or width larger than the advisory frame count)
/// before any decoding work is spent.
pub fn compute_stride(total_frames: u64, requested_width: u64) -> (r: Result<
    u64,
    PipelineError,
>)
    ensures
        match r {
            Ok(stride) => {
                &&& 1 <= requested_width <= total_frames
                &&& stride == total_frames as int / requested_width as int
                &&& stride >= 1
            },
            Err(e) => {
                ||| (e == PipelineError::WidthZero && requested_width == 0)
                ||| (e == PipelineError::WidthExceedsFrames && requested_width > total_frames)
            },
        },
{
    if requested_width == 0 {
        return Err(PipelineError::WidthZero);
    }
    if requested_width > total_frames {
        return Err(PipelineError::WidthExceedsFrames);
    }
    let stride = total_frames / requested_width;
    proof {
        lemma_div_by_self(requested_width as int);
        lemma_div_is_ordered(
            requested_width as int,
            total_frames as int,
            requested_width as int,
        );
    }
    Ok(stride)
}

/// The selection rule: a decoded frame is kept iff its index is a multiple of
/// the stride.
pub fn select(frame_index: u64, stride: u64) -> (kept: bool)
    requires
        stride >= 1,
    ensures
        kept == (frame_index % stride == 0),
{
    frame_index % stride == 0
}

/// How many indices in `[0, n)` the selection rule keeps for this stride.
pub open spec fn num_selected(n: nat, stride: nat) -> nat
    decreases n,
{
    if n == 0 {
        0
    } else {
        num_selected((n - 1) as nat, stride) + if (n - 1) % stride as int == 0 {
            1nat
        } else {
            0nat
        }
    }
}

/// No more frames are kept than are decoded.
pub proof fn lemma_num_selected_le(n: nat, stride: nat)
    ensures
        num_selected(n, stride) <= n,
    decreases n,
{
    if n > 0 {
        lemma_num_selected_le((n - 1) as nat, stride);
    }
}

/// Index 0 is always kept, so any run that decodes at least one frame keeps
/// at least one frame, however degenerate the configuration.
pub proof fn lemma_at_least_one_selected(n: nat, stride: nat)
    requires
        n >= 1,
        stride >= 1,
    ensures
        num_selected(n, stride) >= 1,
    decreases n,
{
    if n == 1 {
        lemma_small_mod(0, stride);
    } else {
        lemma_at_least_one_selected((n - 1) as nat, stride);
    }
}

/// The selection rule keeps exactly the multiples of the stride: together
/// with `select`'s contract, the set of kept indices below any decode count
/// is `{0, stride, 2 * stride, ...}` intersected with `[0, count)`.
pub proof fn lemma_selected_iff_multiple(frame_index: u64, stride: u64)
    requires
        stride >= 1,
    ensures
        (frame_index % stride == 0) <==> (exists|k: int|
            0 <= k && frame_index == #[trigger] (k * stride)),
{
    if frame_index % stride == 0 {
        lemma_fundamental_div_mod(frame_index as int, stride as int);
        lemma_div_pos_is_pos(frame_index as int, stride as int);
        let k = frame_index as int / stride as int;
        assert(frame_index == k * stride) by (nonlinear_arith)
            requires
                frame_index == stride * k + frame_index % stride,
                frame_index % stride == 0,
        ;
    }
    if exists|k: int| 0 <= k && frame_index == #[trigger] (k * stride) {
        let k = choose|k: int| 0 <= k && frame_index == #[trigger] (k * stride);
        lemma_mod_multiples_basic(k, stride as int);
    }
}

/// The driver-side state of the work dispatcher: the stride, the index the
/// next decoded frame will receive, and how many reduction jobs have been
/// submitted so far. The index counter has a single writer (the decode
/// driver), and the submitted count — not any later counter read — is the
/// number of results the collector must expect.
pub struct Dispatcher {
    pub stride: u64,
    pub next_index: u64,
    pub submitted: u64,
}

impl Dispatcher {
    /// The dispatcher's invariant: the stride is positive and the submitted
    /// count is exactly the number of already-assigned indices the selection
    /// rule keeps.
    pub open spec fn wf(self) -> bool {
        &&& self.stride >= 1
        &&& self.submitted == num_selected(self.next_index as nat, self.stride as nat)
    }

    /// A fresh dispatcher: no frame decoded, no job submitted.
    pub fn new(stride: u64) -> (d: Dispatcher)
        requires
            stride >= 1,
        ensures
            d.wf(),
            d.stride == stride,
            d.next_index == 0,
            d.submitted == 0,
    {
        Dispatcher { stride, next_index: 0, submitted: 0 }
    }

    /// Observes the next decoded frame: assigns it the next index, decides
    /// whether it is kept, and counts it as submitted if so. Returns the
    /// frame's index and the selection decision.
    pub fn observe_frame(&mut self) -> (r: (u64, bool))
        requires
            old(self).wf(),
            old(self).next_index < u64::MAX,
        ensures
            final(self).wf(),
            final(self).stride == old(self).stride,
            final(self).next_index == old(self).next_index + 1,
            r.0 == old(self).next_index,
            r.1 == (old(self).next_index % old(self).stride == 0),
            final(self).submitted == old(self).submitted + if r.1 {
                1int
            } else {
                0int
            },
    {
        let index = self.next_index;
        let kept = select(index, self.stride);
        proof {
            lemma_num_selected_le(self.next_index as nat, self.stride as nat);
        }
        self.next_index = self.next_index + 1;
        if kept {
            self.submitted = self.submitted + 1;
        }
        (index, kept)
    }

    /// The number of results the collector must drain: exactly the number of
    /// jobs that were submitted.
    pub fn expected_results(&self) -> (n: u64)
        ensures
            n == self.submitted,
    {
        self.submitted
    }
}

} // verus!
