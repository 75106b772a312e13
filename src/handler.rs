use vstd::prelude::*;
use crate::gate::{FailureGate, next_count, tripped};
use crate::raster::{FrameFormat, RasterError, encode_raster, raster_of};

verus! {

/// The control call that answers one frame event.
#[derive(Clone, Copy, Debug, PartialEq, Eq, Structural)]
pub enum ControlCall {
    /// Acknowledge the frame of the given session, asking for the next one.
    Ack(u32),
    /// Stop the capture.
    Stop,
}

/// Whether the frame that brought the count to `count` is answered with a stop.
pub open spec fn stops_after(count: u64, threshold: u64, ok: bool) -> bool {
    !ok && tripped(count, threshold)
}

/// The answer to a frame whose outcome brought the count to `count`.
pub open spec fn control_for(session_id: u32, count: u64, threshold: u64, ok: bool) -> ControlCall {
    if stops_after(count, threshold, ok) {
        ControlCall::Stop
    } else {
        ControlCall::Ack(session_id)
    }
}

/// The failure count after a run of outcomes (`true` for a frame that encoded).
pub open spec fn count_after(count: u64, outcomes: Seq<bool>) -> u64
    decreases outcomes.len(),
{
    if outcomes.len() == 0 {
        count
    } else {
        count_after(next_count(count, outcomes[0]), outcomes.drop_first())
    }
}

/// For each outcome of a run, whether its frame is answered with a stop.
pub open spec fn stops_in_run(count: u64, threshold: u64, outcomes: Seq<bool>) -> Seq<bool>
    decreases outcomes.len(),
{
    if outcomes.len() == 0 {
        seq![]
    } else {
        let c = next_count(count, outcomes[0]);
        seq![stops_after(c, threshold, outcomes[0])] + stops_in_run(c, threshold, outcomes.drop_first())
    }
}

/// A run of `n` frames that all fail to encode.
pub open spec fn failure_run(n: nat) -> Seq<bool> {
    Seq::new(n, |i: int| false)
}

proof fn lemma_failures_from(count: u64, threshold: u64, n: nat)
    requires
        count + n <= u64::MAX,
    ensures
        count_after(count, failure_run(n)) == count + n,
        stops_in_run(count, threshold, failure_run(n)).len() == n,
        forall|i: int|
            0 <= i < n ==> #[trigger] stops_in_run(count, threshold, failure_run(n))[i] == (count + i
                + 1 > threshold),
    decreases n,
{
    if n > 0 {
        let c = next_count(count, false);
        assert(failure_run(n).drop_first() =~= failure_run((n - 1) as nat));
        lemma_failures_from(c, threshold, (n - 1) as nat);
        let rest = stops_in_run(c, threshold, failure_run((n - 1) as nat));
        assert(stops_in_run(count, threshold, failure_run(n)) == seq![stops_after(c, threshold, false)]
            + rest);
        assert forall|i: int| 0 <= i < n implies #[trigger] stops_in_run(count, threshold, failure_run(n))[i]
            == (count + i + 1 > threshold) by {
            if i > 0 {
                assert(rest[i - 1] == (c + (i - 1) + 1 > threshold));
            }
        }
    }
}

proof fn lemma_run_concat(count: u64, threshold: u64, x: Seq<bool>, y: Seq<bool>)
    ensures
        count_after(count, x + y) == count_after(count_after(count, x), y),
        stops_in_run(count, threshold, x + y) == stops_in_run(count, threshold, x) + stops_in_run(
            count_after(count, x),
            threshold,
            y,
        ),
    decreases x.len(),
{
    if x.len() == 0 {
        assert(x + y =~= y);
        assert(stops_in_run(count, threshold, x) + stops_in_run(count, threshold, y) =~= stops_in_run(
            count,
            threshold,
            y,
        ));
    } else {
        let c = next_count(count, x[0]);
        assert((x + y).drop_first() =~= x.drop_first() + y);
        lemma_run_concat(c, threshold, x.drop_first(), y);
        assert(stops_in_run(count, threshold, x + y) =~= stops_in_run(count, threshold, x)
            + stops_in_run(count_after(count, x), threshold, y));
    }
}

/// From a fresh count, each of a run of failed frames is acknowledged as long
/// as the failures so far do not exceed the threshold, and is answered with a
/// stop from the first failure beyond it on.
pub proof fn lemma_failure_run_stops_past_threshold(threshold: u64, n: nat)
    requires
        n <= u64::MAX,
    ensures
        count_after(0, failure_run(n)) == n,
        stops_in_run(0, threshold, failure_run(n)).len() == n,
        forall|i: int|
            0 <= i < n ==> #[trigger] stops_in_run(0, threshold, failure_run(n))[i] == (i >= threshold),
{
    lemma_failures_from(0, threshold, n);
}

/// One frame that encodes between two runs of failures resets the count: the
/// second run is answered as if it started from a fresh count, so runs of at
/// most `threshold` failures on either side are all acknowledged.
pub proof fn lemma_success_resets_count(threshold: u64, a: nat, b: nat)
    requires
        a <= u64::MAX,
        b <= u64::MAX,
    ensures
        ({
            let run = failure_run(a) + seq![true] + failure_run(b);
            &&& count_after(0, run) == b
            &&& stops_in_run(0, threshold, run) == stops_in_run(0, threshold, failure_run(a))
                + seq![false] + stops_in_run(0, threshold, failure_run(b))
            &&& (a <= threshold && b <= threshold) ==> forall|i: int|
                0 <= i < run.len() ==> !#[trigger] stops_in_run(0, threshold, run)[i]
        }),
{
    let fa = failure_run(a);
    let fb = failure_run(b);
    let run = fa + seq![true] + fb;
    lemma_failures_from(0, threshold, a);
    lemma_failures_from(0, threshold, b);
    let ca = count_after(0, fa);
    lemma_run_concat(0, threshold, fa, seq![true]);
    lemma_run_concat(0, threshold, fa + seq![true], fb);
    let one = seq![true];
    assert(one.drop_first() =~= Seq::<bool>::empty());
    assert(count_after(0, Seq::<bool>::empty()) == 0);
    assert(stops_in_run(0, threshold, Seq::<bool>::empty()) == Seq::<bool>::empty());
    assert(one[0]);
    assert(count_after(ca, one) == 0);
    assert(stops_in_run(ca, threshold, one) =~= seq![false]);
    let all = stops_in_run(0, threshold, run);
    if a <= threshold && b <= threshold {
        assert forall|i: int| 0 <= i < run.len() implies !#[trigger] all[i] by {
            if i < a {
                assert(all[i] == stops_in_run(0, threshold, fa)[i]);
            } else if i > a {
                assert(all[i] == stops_in_run(0, threshold, fb)[i - a - 1]);
            }
        }
    }
}

/// What the handler hands back for one frame: the raster image to transmit,
/// if the frame encoded, and the control call to answer the frame with.
pub struct FrameStep {
    pub raster: Option<Vec<u8>>,
    pub control: ControlCall,
}

/// Handles incoming frames: encodes each, keeps count of consecutive
/// failures, and decides how to answer the frame source.
pub struct FrameHandler {
    gate: FailureGate,
}

impl FrameHandler {
    /// The current number of consecutive failures.
    pub closed spec fn failures(&self) -> u64 {
        self.gate.failures()
    }

    /// The number of consecutive failures that is still tolerated.
    pub closed spec fn limit(&self) -> u64 {
        self.gate.limit()
    }

    /// A handler with no failures recorded that stops after more than
    /// `threshold` consecutive failures.
    pub fn new(threshold: u64) -> (h: FrameHandler)
        ensures
            h.failures() == 0,
            h.limit() == threshold,
    {
        FrameHandler { gate: FailureGate::new(threshold) }
    }

    /// Records the outcome of one frame and returns the call to answer it with.
    pub fn decide(&mut self, session_id: u32, ok: bool) -> (c: ControlCall)
        ensures
            final(self).failures() == next_count(old(self).failures(), ok),
            final(self).limit() == old(self).limit(),
            c == control_for(session_id, final(self).failures(), final(self).limit(), ok),
    {
        if ok {
            self.gate.record_success();
            ControlCall::Ack(session_id)
        } else {
            let count = self.gate.record_failure();
            if self.gate.is_tripped(count) {
                ControlCall::Stop
            } else {
                ControlCall::Ack(session_id)
            }
        }
    }

    /// Handles one frame: encodes its payload and decides the answer. Only
    /// the encoding's outcome counts; transmitting the raster is up to the
    /// caller and does not touch the count.
    pub fn on_frame(&mut self, session_id: u32, payload: &String, format: FrameFormat) -> (step: FrameStep)
        ensures
            ({
                let ok = raster_of(payload@, format) is Ok;
                &&& final(self).failures() == next_count(old(self).failures(), ok)
                &&& final(self).limit() == old(self).limit()
                &&& step.control == control_for(session_id, final(self).failures(), final(self).limit(), ok)
                &&& match step.raster {
                    Some(bytes) => raster_of(payload@, format) == Ok::<Seq<u8>, RasterError>(bytes@),
                    None => !ok,
                }
            }),
    {
        match encode_raster(payload, format) {
            Ok(bytes) => {
                let control = self.decide(session_id, true);
                FrameStep { raster: Some(bytes), control }
            },
            Err(_) => {
                let control = self.decide(session_id, false);
                FrameStep { raster: None, control }
            },
        }
    }

    /// The current number of consecutive failures.
    pub fn consecutive_failures(&self) -> (r: u64)
        ensures
            r == self.failures(),
    {
        self.gate.consecutive_failures()
    }
}

} // verus!
