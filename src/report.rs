//! The counts a session report gives of the frames it covers.
use crate::gesture::GestureType;
use vstd::prelude::*;

verus! {

/// What the report reads of one frame's result.
#[derive(Clone, Copy, Debug, PartialEq, Eq, Structural)]
pub struct FrameSummary {
    pub tracking_lost: bool,
    pub left_gesture: Option<GestureType>,
}

#[derive(Clone, Copy, Debug, PartialEq, Eq, Structural)]
pub struct SessionTally {
    pub total_frames: usize,
    pub tracking_lost: usize,
    pub left_supination: usize,
    pub left_pronation: usize,
}

/// Frames among the first `n` whose tracking was lost.
pub open spec fn lost_count(frames: Seq<FrameSummary>, n: int) -> nat
    decreases n,
{
    if n <= 0 {
        0
    } else {
        lost_count(frames, n - 1) + if frames[n - 1].tracking_lost {
            1nat
        } else {
            0nat
        }
    }
}

/// Frames among the first `n` that show gesture `g` on the left arm.
pub open spec fn left_count(frames: Seq<FrameSummary>, g: GestureType, n: int) -> nat
    decreases n,
{
    if n <= 0 {
        0
    } else {
        left_count(frames, g, n - 1) + if frames[n - 1].left_gesture == Some(g) {
            1nat
        } else {
            0nat
        }
    }
}

proof fn lemma_counts_bounded(frames: Seq<FrameSummary>, n: int)
    requires
        0 <= n,
    ensures
        lost_count(frames, n) <= n,
        left_count(frames, GestureType::Supination, n) <= n,
        left_count(frames, GestureType::Pronation, n) <= n,
    decreases n,
{
    if n > 0 {
        lemma_counts_bounded(frames, n - 1);
    }
}

/// Counts the frames of a session, those that lost tracking, and those whose
/// left arm shows supination or pronation.
pub fn tally(frames: &Vec<FrameSummary>) -> (r: SessionTally)
    ensures
        r.total_frames == frames@.len(),
        r.tracking_lost == lost_count(frames@, frames@.len() as int),
        r.left_supination == left_count(frames@, GestureType::Supination, frames@.len() as int),
        r.left_pronation == left_count(frames@, GestureType::Pronation, frames@.len() as int),
{
    let mut lost: usize = 0;
    let mut sup: usize = 0;
    let mut pro: usize = 0;
    let mut i: usize = 0;
    while i < frames.len()
        invariant
            i <= frames@.len(),
            lost == lost_count(frames@, i as int),
            sup == left_count(frames@, GestureType::Supination, i as int),
            pro == left_count(frames@, GestureType::Pronation, i as int),
        decreases frames@.len() - i,
    {
        proof {
            lemma_counts_bounded(frames@, i as int);
        }
        let f = frames[i];
        if f.tracking_lost {
            lost = lost + 1;
        }
        match f.left_gesture {
            Some(GestureType::Supination) => sup = sup + 1,
            Some(GestureType::Pronation) => pro = pro + 1,
            _ => {},
        }
        i = i + 1;
    }
    SessionTally { total_frames: frames.len(), tracking_lost: lost, left_supination: sup, left_pronation: pro }
}

} // verus!
