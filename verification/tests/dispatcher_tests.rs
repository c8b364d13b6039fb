use bazelfe_core::bazel_event::ProgressEvt;
use bazelfe_core::event_stream_listener::{
    BazelEventHandler, BuildEventResponse, EventStreamListener,
};
use bazelfe_core::hydrated_stream::HydratedInfo;
use bazelfe_core::process_build_abort_errors::Response;

struct CountingHandler {
    responses_per_event: usize,
}

impl BazelEventHandler for CountingHandler {
    fn process_event(&self, _bazel_run_id: usize, _event: &HydratedInfo) -> Vec<BuildEventResponse> {
        let mut out = Vec::new();
        let mut i = 0;
        while i < self.responses_per_event {
            out.push(BuildEventResponse::ProcessedBuildFailures(Response {
                target_stories: Vec::new(),
            }));
            i += 1;
        }
        out
    }
}

fn progress(text: &str) -> Option<HydratedInfo> {
    Some(HydratedInfo::Progress(ProgressEvt {
        stdout: String::from(text),
        stderr: String::new(),
    }))
}

#[test]
fn n_events_times_m_handlers_invocations() {
    // Three non-boundary events, two handlers: exactly six invocations;
    // the two boundary markers contribute none.
    let listener = EventStreamListener::new(vec![
        CountingHandler { responses_per_event: 1 },
        CountingHandler { responses_per_event: 2 },
    ]);
    let events = vec![progress("a"), None, progress("b"), progress("c"), None];
    let (responses, invocations) = listener.dispatch_events(9, &events);
    assert_eq!(invocations, 6);
    assert_eq!(responses.len(), 9);
}

#[test]
fn boundary_markers_reach_no_handler() {
    let listener = EventStreamListener::new(vec![CountingHandler { responses_per_event: 1 }]);
    let (responses, invocations) = listener.dispatch_event(1, &None);
    assert_eq!(invocations, 0);
    assert!(responses.is_empty());
}

#[test]
fn no_handlers_no_invocations() {
    let listener: EventStreamListener<CountingHandler> = EventStreamListener::new(Vec::new());
    let events = vec![progress("a"), progress("b")];
    let (responses, invocations) = listener.dispatch_events(1, &events);
    assert_eq!(invocations, 0);
    assert!(responses.is_empty());
}
