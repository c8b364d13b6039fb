use vstd::prelude::*;
use crate::hydrated_stream::HydratedInfo;
use crate::process_build_abort_errors::Response;

verus! {

/// One response action a handler produced for a dispatched event.
#[derive(Clone, PartialEq, Debug)]
pub enum BuildEventResponse {
    ProcessedBuildFailures(Response),
}

/// What an event handler must provide: given a run identifier and one
/// hydrated event, produce zero or more response actions. The dispatcher
/// may hand different events to different workers concurrently, so an
/// implementation must not depend on cross-event ordering.
pub trait BazelEventHandler {
    fn process_event(&self, bazel_run_id: usize, event: &HydratedInfo) -> Vec<BuildEventResponse>;
}

/// How many of the hydrated slots carry an event (a `None` marks a build
/// boundary and is never handed to a handler).
pub open spec fn count_some(s: Seq<Option<HydratedInfo>>) -> nat
    decreases s.len(),
{
    if s.len() == 0 {
        0
    } else {
        count_some(s.drop_last()) + if s.last() is Some {
            1nat
        } else {
            0nat
        }
    }
}

proof fn lemma_count_some_le_len(s: Seq<Option<HydratedInfo>>)
    ensures
        count_some(s) <= s.len(),
    decreases s.len(),
{
    if s.len() > 0 {
        lemma_count_some_le_len(s.drop_last());
    }
}

/// The fan-out dispatcher: delivers every non-boundary event to every
/// registered handler. The embedding application may run several workers
/// over one shared queue; each worker calls `dispatch_event` on the items
/// it receives, so no ordering across different events is promised.
pub struct EventStreamListener<H> {
    processors: Vec<H>,
}

impl<H: BazelEventHandler> EventStreamListener<H> {
    /// How many handlers are registered.
    pub closed spec fn processor_count(&self) -> nat {
        self.processors@.len()
    }

    pub fn new(processors: Vec<H>) -> (r: Self)
        ensures
            r.processor_count() == processors@.len(),
    {
        EventStreamListener { processors }
    }

    /// Delivers one hydrated slot: a boundary marker is discarded without
    /// any handler call; an event is handed to every handler in
    /// registration order. Returns all produced responses in order and the
    /// number of handler invocations made.
    #[verifier::loop_isolation(false)]
    pub fn dispatch_event(&self, bazel_run_id: usize, event: &Option<HydratedInfo>) -> (r: (
        Vec<BuildEventResponse>,
        usize,
    ))
        requires
            self.processor_count() <= usize::MAX,
        ensures
            r.1 as nat == if event is Some {
                self.processor_count()
            } else {
                0nat
            },
{
        let mut responses: Vec<BuildEventResponse> = Vec::new();
        let mut invocations: usize = 0;
        match event {
            None => {},
            Some(e) => {
                let mut i: usize = 0;
                while i < self.processors.len()
                    invariant
                        i <= self.processors@.len(),
                        invocations == i,
                    decreases self.processors@.len() - i,
                {
                    let mut rs = self.processors[i].process_event(bazel_run_id, e);
                    responses.append(&mut rs);
                    invocations = invocations + 1;
                    i = i + 1;
                }
            },
        }
        (responses, invocations)
    }

    /// Dispatches a whole sequence of hydrated slots in order. Exactly
    /// one handler invocation happens per registered handler per
    /// non-boundary event, however the slots are split across workers.
    #[verifier::loop_isolation(false)]
    pub fn dispatch_events(&self, bazel_run_id: usize, events: &Vec<Option<HydratedInfo>>) -> (r: (
        Vec<BuildEventResponse>,
        usize,
    ))
        requires
            events@.len() * self.processor_count() <= usize::MAX,
        ensures
            r.1 as nat == count_some(events@) * self.processor_count(),
    {
        let mut responses: Vec<BuildEventResponse> = Vec::new();
        let mut invocations: usize = 0;
        proof {
            assert(events@.take(0) =~= Seq::<Option<HydratedInfo>>::empty());
            assert(count_some(events@.take(0)) == 0);
        }
        let mut i: usize = 0;
        while i < events.len()
            invariant
                i <= events@.len(),
                invocations as nat == count_some(events@.take(i as int)) * self.processor_count(),
            decreases events@.len() - i,
        {
            proof {
                assert(self.processor_count() <= events@.len() * self.processor_count())
                    by (nonlinear_arith)
                    requires
                        1 <= events@.len(),
                        0 <= self.processor_count(),
                ;
            }
            let (mut rs, n) = self.dispatch_event(bazel_run_id, &events[i]);
            proof {
                let ghost p = self.processor_count();
                let ghost cs_i = count_some(events@.take(i as int));
                let ghost cs_j = count_some(events@.take(i as int + 1));
                let ghost delta: nat = if events@[i as int] is Some {
                    1nat
                } else {
                    0nat
                };
                lemma_count_some_le_len(events@.take(i as int + 1));
                assert(events@.take(i as int + 1).drop_last() =~= events@.take(i as int));
                assert(events@.take(i as int + 1).last() == events@[i as int]);
                assert(cs_j == cs_i + delta);
                assert(cs_j <= i + 1);
                assert(cs_j * p == cs_i * p + delta * p) by (nonlinear_arith)
                    requires
                        cs_j == cs_i + delta,
                ;
                assert(cs_j * p <= (i + 1) * p) by (nonlinear_arith)
                    requires
                        cs_j <= i + 1,
                        0 <= p,
                ;
                assert((i + 1) * p <= events@.len() * p) by (nonlinear_arith)
                    requires
                        i + 1 <= events@.len(),
                        0 <= p,
                ;
                assert(invocations + n <= usize::MAX);
            }
            responses.append(&mut rs);
            invocations = invocations + n;
            i = i + 1;
        }
        proof {
            assert(events@.take(events@.len() as int) =~= events@);
        }
        (responses, invocations)
    }
}

} // verus!
