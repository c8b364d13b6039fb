use bazelfe_core::auto_test_action::CompleteKind;
use bazelfe_core::bazel_event::{ProgressEvt, TestResultEvt, TestStatus};
use bazelfe_core::hydrated_stream::{
    ActionFailedErrorInfo, HydratedInfo, TestResultInfo,
};
use bazelfe_core::progress_tab_updater::{
    progress_chunks, scroll_entry_for_event, test_status_passed,
};

#[test]
fn progress_chunks_sends_stderr_then_stdout() {
    assert_eq!(
        progress_chunks(&String::from("out"), &String::from("err")),
        vec![String::from("err"), String::from("out")]
    );
    assert_eq!(
        progress_chunks(&String::new(), &String::from("err")),
        vec![String::from("err")]
    );
    assert_eq!(
        progress_chunks(&String::from("out"), &String::new()),
        vec![String::from("out")]
    );
    assert_eq!(progress_chunks(&String::new(), &String::new()), Vec::<String>::new());
}

#[test]
fn only_passed_tests_count_as_success() {
    assert!(test_status_passed(TestStatus::Passed));
    assert!(!test_status_passed(TestStatus::Flaky));
    assert!(!test_status_passed(TestStatus::Timeout));
    assert!(!test_status_passed(TestStatus::Failed));
    assert!(!test_status_passed(TestStatus::FailedToBuild));
}

#[test]
fn failed_action_becomes_failed_action_entry() {
    let event = HydratedInfo::ActionFailed(ActionFailedErrorInfo {
        label: String::from("//x:y"),
        stdout: None,
        stderr: None,
        target_kind: None,
    });
    let entry = scroll_entry_for_event(&event, 4, 100).expect("entry expected");
    assert_eq!(entry.complete_type, CompleteKind::Action);
    assert!(!entry.success);
    assert_eq!(entry.label, String::from("//x:y"));
    assert_eq!(entry.bazel_run_id, 4);
    assert_eq!(entry.when, 100);
    assert!(entry.files.is_empty());
}

#[test]
fn flaky_test_becomes_failed_test_entry() {
    let event = HydratedInfo::TestResult(TestResultInfo {
        test_summary_event: TestResultEvt {
            label: String::from("//x:test"),
            test_status: TestStatus::Flaky,
        },
        target_kind: None,
    });
    let entry = scroll_entry_for_event(&event, 1, 5).expect("entry expected");
    assert_eq!(entry.complete_type, CompleteKind::Test);
    assert!(!entry.success);
}

#[test]
fn progress_event_yields_no_entry() {
    let event = HydratedInfo::Progress(ProgressEvt {
        stdout: String::from("s"),
        stderr: String::new(),
    });
    assert!(scroll_entry_for_event(&event, 0, 0).is_none());
}
