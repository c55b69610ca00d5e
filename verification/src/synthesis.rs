//! The synthesis of one request: its segments go to the engine one at a
//! time, in their order, and the run ends at the first failure. The caller
//! holds the engine and makes the calls.

use crate::request::{segment_views, Segment};
use vstd::prelude::*;

verus! {

/// What the engine reported of the segments of one request.
#[derive(Debug)]
pub enum Synthesis {
    /// The samples of each segment, quantized to 16 bits, in the order of
    /// the segments.
    Samples { parts: Vec<Vec<i16>>, sample_rate: i32 },
    /// The engine failed on the segment at place `segment`.
    EngineFailed { segment: usize, reason: String },
    /// The task that ran the engine did not come back.
    TaskFailed { reason: String },
}

/// The samples of each part of `parts`, in order.
pub open spec fn part_views(parts: Seq<Vec<i16>>) -> Seq<Seq<i16>> {
    Seq::new(parts.len(), |i: int| parts[i]@)
}

/// The mathematical content of a [`SynthesisRun`].
pub struct RunModel {
    /// The segments of the request.
    pub segments: Seq<(Seq<char>, Seq<char>)>,
    /// The samples of the segments synthesized so far.
    pub parts: Seq<Seq<i16>>,
    /// The sample rate of the engine.
    pub sample_rate: int,
}

/// A run under way: at least one segment is still to be synthesized.
#[derive(Debug)]
pub struct SynthesisRun {
    segments: Vec<Segment>,
    parts: Vec<Vec<i16>>,
    sample_rate: i32,
}

/// Where a run stands.
#[derive(Debug)]
pub enum SynthesisStep {
    /// Call the engine on the pending segment of the run.
    Call(SynthesisRun),
    /// Every segment was synthesized.
    Done(Synthesis),
}

impl View for SynthesisRun {
    type V = RunModel;

    closed spec fn view(&self) -> RunModel {
        RunModel {
            segments: segment_views(self.segments@),
            parts: part_views(self.parts@),
            sample_rate: self.sample_rate as int,
        }
    }
}

/// Whether `step` is where a run stands that has synthesized `parts` of
/// `segments`: done with all samples in order where none is left, and else
/// about to call the engine on the next one.
pub open spec fn is_step_of(
    step: SynthesisStep,
    segments: Seq<(Seq<char>, Seq<char>)>,
    parts: Seq<Seq<i16>>,
    sample_rate: int,
) -> bool {
    if parts.len() >= segments.len() {
        &&& step matches SynthesisStep::Done(Synthesis::Samples { parts: all, sample_rate: rate })
        &&& part_views(all@) == parts
        &&& rate == sample_rate
    } else {
        &&& step matches SynthesisStep::Call(run)
        &&& run@ == RunModel { segments, parts, sample_rate }
    }
}

impl SynthesisRun {
    #[verifier::type_invariant]
    spec fn well_formed(self) -> bool {
        self.parts.len() < self.segments.len()
    }

    fn step(segments: Vec<Segment>, parts: Vec<Vec<i16>>, sample_rate: i32) -> (step:
        SynthesisStep)
        ensures
            is_step_of(step, segment_views(segments@), part_views(parts@), sample_rate as int),
    {
        if parts.len() >= segments.len() {
            SynthesisStep::Done(Synthesis::Samples { parts, sample_rate })
        } else {
            SynthesisStep::Call(SynthesisRun { segments, parts, sample_rate })
        }
    }

    /// Starts the run over `segments` on an engine of the given sample
    /// rate.
    pub fn start(segments: Vec<Segment>, sample_rate: i32) -> (step: SynthesisStep)
        ensures
            is_step_of(
                step,
                segment_views(segments@),
                Seq::<Seq<i16>>::empty(),
                sample_rate as int,
            ),
    {
        let parts: Vec<Vec<i16>> = Vec::new();
        assert(part_views(parts@) =~= Seq::<Seq<i16>>::empty());
        SynthesisRun::step(segments, parts, sample_rate)
    }

    /// The place of the pending segment among the segments of the request.
    pub fn place(&self) -> (place: usize)
        ensures
            place == self@.parts.len(),
            place < self@.segments.len(),
    {
        proof {
            use_type_invariant(self);
        }
        self.parts.len()
    }

    /// The pending segment: the first that was not synthesized yet.
    pub fn segment(&self) -> (segment: &Segment)
        ensures
            self@.parts.len() < self@.segments.len(),
            segment@ == self@.segments[self@.parts.len() as int],
    {
        proof {
            use_type_invariant(self);
        }
        &self.segments[self.parts.len()]
    }

    /// The run after the engine returned `samples` for the pending
    /// segment.
    pub fn accept(self, samples: Vec<i16>) -> (step: SynthesisStep)
        ensures
            is_step_of(
                step,
                self@.segments,
                self@.parts.push(samples@),
                self@.sample_rate,
            ),
    {
        let ghost before = self.parts@;
        let SynthesisRun { segments, mut parts, sample_rate } = self;
        parts.push(samples);
        assert(part_views(parts@) =~= part_views(before).push(samples@));
        SynthesisRun::step(segments, parts, sample_rate)
    }

    /// The end of the run after the engine failed on the pending segment:
    /// the failure carries the place of that segment.
    pub fn fail(self, reason: String) -> (outcome: Synthesis)
        ensures
            outcome == (Synthesis::EngineFailed {
                segment: self@.parts.len() as usize,
                reason,
            }),
    {
        let segment = self.place();
        Synthesis::EngineFailed { segment, reason }
    }
}

} // verus!
