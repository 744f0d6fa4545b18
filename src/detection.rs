//! Selection of the one record published for each frame.
//!
//! The detector ranks its candidates; only the first is considered. It is
//! accepted when its decision margin is above the acceptance threshold and
//! its pose could be estimated. Every frame yields exactly one record: a
//! rejected or missing candidate gives a "not detected" record.

use vstd::prelude::*;
use crate::wire::{VisionData, is_consistent};

verus! {

/// An estimated tag pose; each component holds the bit pattern of a 64-bit
/// float (translation in meters, rotation as roll/pitch/yaw in radians).
#[derive(Clone, Copy, Debug, PartialEq, Eq)]
pub struct Pose {
    pub translation: [u64; 3],
    pub rotation: [u64; 3],
}

/// The first-ranked candidate of a detection pass, as the selection reads it.
#[derive(Clone, Copy, Debug, PartialEq, Eq)]
pub struct Candidate {
    /// The decoded tag id.
    pub id: u64,
    /// Whether the decision margin is strictly above the acceptance threshold.
    pub above_threshold: bool,
    /// The estimated pose, or `None` where pose estimation failed.
    pub pose: Option<Pose>,
}

/// The record that reports no detection at `timestamp`.
pub open spec fn not_detected(timestamp: u64) -> VisionData {
    VisionData { detected: false, tag_id: 0, timestamp, translation: [0u64, 0, 0], rotation: [0u64, 0, 0] }
}

/// The record published for a frame whose first-ranked candidate is `first`.
pub open spec fn selected_record(first: Option<Candidate>, timestamp: u64) -> VisionData {
    match first {
        Some(c) => if c.above_threshold && c.pose.is_some() {
            VisionData {
                detected: true,
                tag_id: c.id,
                timestamp,
                translation: c.pose.unwrap().translation,
                rotation: c.pose.unwrap().rotation,
            }
        } else {
            not_detected(timestamp)
        },
        None => not_detected(timestamp),
    }
}

impl VisionData {
    /// The record that reports no detection at `timestamp`.
    pub fn not_detected(timestamp: u64) -> (r: VisionData)
        ensures
            r == not_detected(timestamp),
            is_consistent(r),
    {
        let r = VisionData { detected: false, tag_id: 0, timestamp, translation: [0u64, 0, 0], rotation: [0u64, 0, 0] };
        assert(r.translation@ =~= seq![0u64, 0, 0]);
        assert(r.rotation@ =~= seq![0u64, 0, 0]);
        r
    }
}

/// The record to publish for a frame whose first-ranked candidate is `first`
/// (`None` when the detector found nothing), stamped with `timestamp`.
pub fn select_record(first: Option<Candidate>, timestamp: u64) -> (r: VisionData)
    ensures
        r == selected_record(first, timestamp),
        is_consistent(r),
{
    match first {
        Some(c) => {
            if c.above_threshold {
                match c.pose {
                    Some(pose) => VisionData::new(true, c.id, timestamp, pose.translation, pose.rotation),
                    None => VisionData::not_detected(timestamp),
                }
            } else {
                VisionData::not_detected(timestamp)
            }
        },
        None => VisionData::not_detected(timestamp),
    }
}

/// A candidate whose decision margin is not above the threshold never gives
/// a detection, whatever its pose.
pub proof fn lemma_below_threshold_not_detected(c: Candidate, timestamp: u64)
    requires
        !c.above_threshold,
    ensures
        !selected_record(Some(c), timestamp).detected,
        selected_record(Some(c), timestamp) == not_detected(timestamp),
{
}

/// A candidate above the threshold with an estimated pose is reported with
/// its id and that pose.
pub proof fn lemma_accepted_reports_pose(c: Candidate, pose: Pose, timestamp: u64)
    requires
        c.above_threshold,
        c.pose == Some(pose),
    ensures
        selected_record(Some(c), timestamp).detected,
        selected_record(Some(c), timestamp).tag_id == c.id,
        selected_record(Some(c), timestamp).translation == pose.translation,
        selected_record(Some(c), timestamp).rotation == pose.rotation,
{
}

/// Every record that the selection emits reports no detection with a zero
/// tag id and all-zero vectors.
pub proof fn lemma_selected_is_consistent(first: Option<Candidate>, timestamp: u64)
    ensures
        is_consistent(selected_record(first, timestamp)),
{
    let r = selected_record(first, timestamp);
    if !r.detected {
        assert(r.translation@ =~= seq![0u64, 0, 0]);
        assert(r.rotation@ =~= seq![0u64, 0, 0]);
    }
}

} // verus!
