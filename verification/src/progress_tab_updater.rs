use vstd::prelude::*;
use crate::auto_test_action::{ActionTargetStateScrollEntry, CompleteKind};
use crate::bazel_event::{File, TestStatus};
use crate::hydrated_stream::{opt_file_seq, HydratedInfo};

verus! {

/// Whether a test outcome counts as success on the dashboard: only a
/// passed test does; flaky, timed-out and failed runs all count as
/// failures.
pub open spec fn spec_test_passed(s: TestStatus) -> bool {
    s is Passed
}

/// The executable form of `spec_test_passed`.
pub fn test_status_passed(s: TestStatus) -> (r: bool)
    ensures
        r == spec_test_passed(s),
{
    match s {
        TestStatus::Passed => true,
        _ => false,
    }
}

/// The chunks of build-tool output a progress event contributes to the
/// log pane: the stderr chunk then the stdout chunk, empty ones skipped.
pub open spec fn spec_progress_chunks(stdout: String, stderr: String) -> Seq<String> {
    (if stderr@.len() > 0 {
        seq![stderr]
    } else {
        Seq::<String>::empty()
    }) + (if stdout@.len() > 0 {
        seq![stdout]
    } else {
        Seq::<String>::empty()
    })
}

/// The log chunks a progress event contributes, in sending order.
pub fn progress_chunks(stdout: &String, stderr: &String) -> (r: Vec<String>)
    ensures
        r@ == spec_progress_chunks(*stdout, *stderr),
{
    let mut r: Vec<String> = Vec::new();
    if !stderr.as_str().is_empty() {
        r.push(stderr.clone());
    }
    if !stdout.as_str().is_empty() {
        r.push(stdout.clone());
    }
    proof {
        assert(r@ =~= spec_progress_chunks(*stdout, *stderr));
    }
    r
}

/// Whether `r` is the completion-scroll entry for `event`: an action,
/// target or test completion becomes one entry with its kind, success
/// flag, label and associated files; progress and abort events produce
/// none.
pub open spec fn scroll_entry_ok(
    event: HydratedInfo,
    bazel_run_id: usize,
    when: u64,
    r: Option<ActionTargetStateScrollEntry>,
) -> bool {
    match event {
        HydratedInfo::Progress(_) => r is None,
        HydratedInfo::BazelAbort(_) => r is None,
        HydratedInfo::ActionFailed(af) => r matches Some(e) && e.complete_type is Action
            && !e.success && e.label == af.label && e.when == when && e.bazel_run_id == bazel_run_id
            && e.files.deep_view() == opt_file_seq(af.stdout.deep_view()) + opt_file_seq(
            af.stderr.deep_view(),
        ),
        HydratedInfo::ActionSuccess(asi) => r matches Some(e) && e.complete_type is Action
            && e.success && e.label == asi.label && e.when == when && e.bazel_run_id == bazel_run_id
            && e.files.deep_view() == opt_file_seq(asi.stdout.deep_view()) + opt_file_seq(
            asi.stderr.deep_view(),
        ),
        HydratedInfo::TargetComplete(tc) => r matches Some(e) && e.complete_type is Target
            && e.success == tc.success && e.label == tc.label && e.when == when && e.bazel_run_id
            == bazel_run_id && e.files.deep_view() == tc.output_files.deep_view(),
        HydratedInfo::TestResult(tst) => r matches Some(e) && e.complete_type is Test && e.success
            == spec_test_passed(tst.test_summary_event.test_status) && e.label
            == tst.test_summary_event.label && e.when == when && e.bazel_run_id == bazel_run_id
            && e.files.deep_view() == Seq::<crate::bazel_event::FileView>::empty(),
    }
}

fn clone_files(v: &Vec<File>) -> (r: Vec<File>)
    ensures
        r.deep_view() == v.deep_view(),
{
    let mut r: Vec<File> = Vec::new();
    let mut i: usize = 0;
    proof {
        assert(r.deep_view() =~= v.deep_view().take(0));
    }
    while i < v.len()
        invariant
            i <= v@.len(),
            r.deep_view() == v.deep_view().take(i as int),
        decreases v@.len() - i,
    {
        let ghost pre = r.deep_view();
        let copied = v[i].clone();
        proof {
            assert(copied.deep_view() == v@[i as int].deep_view());
        }
        r.push(copied);
        i = i + 1;
        proof {
            assert(r.deep_view() =~= pre.push(v@[i as int - 1].deep_view()));
            assert(r.deep_view() =~= v.deep_view().take(i as int));
        }
    }
    proof {
        assert(r.deep_view() =~= v.deep_view());
    }
    r
}

/// The dashboard entry one hydrated event contributes to the completion
/// scroll, if any. The embedding handler sends the entry (and the
/// progress chunks) over its channels; this is the whole decision.
pub fn scroll_entry_for_event(
    event: &HydratedInfo,
    bazel_run_id: usize,
    when: u64,
) -> (r: Option<ActionTargetStateScrollEntry>)
    ensures
        scroll_entry_ok(*event, bazel_run_id, when, r),
{
    match event {
        HydratedInfo::Progress(_) => None,
        HydratedInfo::BazelAbort(_) => None,
        HydratedInfo::ActionFailed(af) => {
            let files = af.files();
            Some(
                ActionTargetStateScrollEntry {
                    complete_type: CompleteKind::Action,
                    success: false,
                    label: af.label.clone(),
                    when,
                    bazel_run_id,
                    files,
                },
            )
        },
        HydratedInfo::ActionSuccess(asi) => {
            let files = asi.files();
            Some(
                ActionTargetStateScrollEntry {
                    complete_type: CompleteKind::Action,
                    success: true,
                    label: asi.label.clone(),
                    when,
                    bazel_run_id,
                    files,
                },
            )
        },
        HydratedInfo::TargetComplete(tc) => {
            let files = clone_files(&tc.output_files);
            Some(
                ActionTargetStateScrollEntry {
                    complete_type: CompleteKind::Target,
                    success: tc.success,
                    label: tc.label.clone(),
                    when,
                    bazel_run_id,
                    files,
                },
            )
        },
        HydratedInfo::TestResult(tst) => {
            let empty_files: Vec<File> = Vec::new();
            proof {
                assert(empty_files.deep_view() =~= Seq::<crate::bazel_event::FileView>::empty());
            }
            Some(
                ActionTargetStateScrollEntry {
                    complete_type: CompleteKind::Test,
                    success: test_status_passed(tst.test_summary_event.test_status),
                    label: tst.test_summary_event.label.clone(),
                    when,
                    bazel_run_id,
                    files: empty_files,
                },
            )
        },
    }
}

} // verus!
