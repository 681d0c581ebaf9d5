use crate::frame_queue::{offer, EnqueueOutcome, FrameQueue};
use vstd::prelude::*;

verus! {

/// What the capture loop does next, decided under the queue's lock.
pub enum CaptureStep {
    /// The queue is full: wake the consumer and poll again without reading the sensor.
    WaitForSpace,
    /// There is room: read one frame from the sensor.
    Capture,
}

/// What became of one read of the sensor.
pub enum CaptureReport {
    /// The frame was queued; the queue now holds this many frames.
    Enqueued(usize),
    /// The sensor had no frame ready; nothing changed.
    NoFrame,
    /// The queue had no room; the frame is handed back and the queue is unchanged.
    Full(Vec<u8>),
}

/// Chooses the next step of the capture loop: the sensor is read only when the
/// queue has room, so a full queue makes the loop sample a newer frame later.
pub fn next_capture_step(queue: &FrameQueue) -> (r: CaptureStep)
    ensures
        r is WaitForSpace <==> queue.full_spec(),
{
    if queue.is_full() {
        CaptureStep::WaitForSpace
    } else {
        CaptureStep::Capture
    }
}

/// Whether the consumer is woken after `step` has been chosen.
pub open spec fn step_wakes_consumer(step: CaptureStep) -> bool {
    step is WaitForSpace
}

/// Whether the consumer is woken after a read that ended in `report`.
pub open spec fn report_wakes_consumer(report: CaptureReport) -> bool {
    report is Enqueued
}

/// Stores what the sensor returned.
pub fn store_capture(queue: &mut FrameQueue, frame: Option<Vec<u8>>) -> (r: CaptureReport)
    requires
        old(queue).wf(),
    ensures
        final(queue).wf(),
        final(queue).capacity_spec() == old(queue).capacity_spec(),
        match frame {
            None => r is NoFrame && final(queue).view() == old(queue).view(),
            Some(f) => {
                &&& final(queue).view() == offer(old(queue).view(), old(queue).capacity_spec(), f@)
                &&& match r {
                    CaptureReport::Enqueued(n) => !old(queue).full_spec() && n == final(queue).view().len(),
                    CaptureReport::Full(g) => old(queue).full_spec() && g == f,
                    CaptureReport::NoFrame => false,
                }
            },
        },
{
    match frame {
        None => CaptureReport::NoFrame,
        Some(f) => match queue.try_enqueue(f) {
            EnqueueOutcome::Accepted => CaptureReport::Enqueued(queue.len()),
            EnqueueOutcome::Rejected(g) => CaptureReport::Full(g),
        },
    }
}

impl CaptureReport {
    /// Whether the consumer should be woken: a frame became available.
    pub fn wakes_consumer(&self) -> (r: bool)
        ensures
            r == report_wakes_consumer(*self),
    {
        match self {
            CaptureReport::Enqueued(_) => true,
            _ => false,
        }
    }
}

impl CaptureStep {
    /// Whether the consumer should be woken: the producer waits for it to make room.
    pub fn wakes_consumer(&self) -> (r: bool)
        ensures
            r == step_wakes_consumer(*self),
    {
        match self {
            CaptureStep::WaitForSpace => true,
            CaptureStep::Capture => false,
        }
    }
}

} // verus!
