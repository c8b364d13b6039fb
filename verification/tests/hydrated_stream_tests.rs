use bazelfe_core::bazel_event::{
    ActionCompletedEvt, BazelBuildEvent, BuildEventAction, Evt, File, FileRef, NamedSetOfFiles,
    OutputGroup, TargetCompletedEvt, TargetConfiguredEvt,
};
use bazelfe_core::hydrated_stream::{ActionFailedErrorInfo, HydratedInfo, HydratorState};

fn build_event(event: Evt) -> BuildEventAction {
    BuildEventAction::BuildEvent(BazelBuildEvent { event })
}

#[test]
fn test_no_history() {
    let mut state = HydratorState::new();
    let received_res = state.process(build_event(Evt::ActionCompleted(ActionCompletedEvt {
        stdout: None,
        stderr: None,
        label: String::from("foo_bar_baz"),
        success: false,
    })));

    assert_eq!(
        received_res,
        vec![Some(HydratedInfo::ActionFailed(ActionFailedErrorInfo {
            target_kind: None,
            label: String::from("foo_bar_baz"),
            stderr: None,
            stdout: None
        }))]
    );
}

#[test]
fn test_with_files() {
    let mut state = HydratorState::new();
    let received_res = state.process(build_event(Evt::ActionCompleted(ActionCompletedEvt {
        stdout: Some(FileRef::Uri(String::from("path-to-stdout"))),
        stderr: Some(FileRef::Uri(String::from("path-to-stderr"))),
        label: String::from("foo_bar_baz"),
        success: false,
    })));

    assert_eq!(
        received_res,
        vec![Some(HydratedInfo::ActionFailed(ActionFailedErrorInfo {
            target_kind: None,
            label: String::from("foo_bar_baz"),
            stderr: Some(File {
                name: String::from("stderr"),
                path_prefix: Vec::new(),
                file: Some(FileRef::Uri(String::from("path-to-stderr")))
            }),
            stdout: Some(File {
                name: String::from("stdout"),
                path_prefix: Vec::new(),
                file: Some(FileRef::Uri(String::from("path-to-stdout")))
            }),
        }))]
    );
}

#[test]
fn test_with_history() {
    let mut state = HydratorState::new();
    let none = state.process(build_event(Evt::TargetConfigured(TargetConfiguredEvt {
        label: String::from("foo_bar_baz"),
        rule_kind: String::from("my_madeup_rule"),
    })));
    assert_eq!(none, Vec::new());

    let received_res = state.process(build_event(Evt::ActionCompleted(ActionCompletedEvt {
        stdout: Some(FileRef::Uri(String::from("path-to-stdout"))),
        stderr: Some(FileRef::Uri(String::from("path-to-stderr"))),
        label: String::from("foo_bar_baz"),
        success: false,
    })));

    assert_eq!(
        received_res,
        vec![Some(HydratedInfo::ActionFailed(ActionFailedErrorInfo {
            target_kind: Some(String::from("my_madeup_rule")),
            label: String::from("foo_bar_baz"),
            stderr: Some(File {
                name: String::from("stderr"),
                path_prefix: Vec::new(),
                file: Some(FileRef::Uri(String::from("path-to-stderr")))
            }),
            stdout: Some(File {
                name: String::from("stdout"),
                path_prefix: Vec::new(),
                file: Some(FileRef::Uri(String::from("path-to-stdout")))
            }),
        }))]
    );
}

#[test]
fn state_resets_on_new_build() {
    let mut state = HydratorState::new();
    state.process(build_event(Evt::TargetConfigured(TargetConfiguredEvt {
        label: String::from("foo_bar_baz"),
        rule_kind: String::from("my_madeup_rule"),
    })));

    // First the build boundary: exactly one None.
    let boundary = state.process(BuildEventAction::BuildCompleted);
    assert_eq!(boundary, vec![None]);

    let received_res = state.process(build_event(Evt::ActionCompleted(ActionCompletedEvt {
        stdout: Some(FileRef::Uri(String::from("path-to-stdout"))),
        stderr: Some(FileRef::Uri(String::from("path-to-stderr"))),
        label: String::from("foo_bar_baz"),
        success: false,
    })));

    assert_eq!(
        received_res,
        vec![Some(HydratedInfo::ActionFailed(ActionFailedErrorInfo {
            target_kind: None,
            label: String::from("foo_bar_baz"),
            stderr: Some(File {
                name: String::from("stderr"),
                path_prefix: Vec::new(),
                file: Some(FileRef::Uri(String::from("path-to-stderr")))
            }),
            stdout: Some(File {
                name: String::from("stdout"),
                path_prefix: Vec::new(),
                file: Some(FileRef::Uri(String::from("path-to-stdout")))
            }),
        }))]
    );
}

#[test]
fn configured_kind_is_attached() {
    // A configuration record followed by a failing action for the same
    // label: the emitted event carries the configured rule kind.
    let mut state = HydratorState::new();
    state.process(build_event(Evt::TargetConfigured(TargetConfiguredEvt {
        label: String::from("A"),
        rule_kind: String::from("java_library"),
    })));
    let out = state.process(build_event(Evt::ActionCompleted(ActionCompletedEvt {
        stdout: None,
        stderr: None,
        label: String::from("A"),
        success: false,
    })));
    assert_eq!(
        out,
        vec![Some(HydratedInfo::ActionFailed(ActionFailedErrorInfo {
            target_kind: Some(String::from("java_library")),
            label: String::from("A"),
            stdout: None,
            stderr: None,
        }))]
    );
}

#[test]
fn target_completion_waits_for_file_set() {
    // The completion references file set "s1" before it is defined: no
    // event yet; the file-set record then releases exactly one completed
    // event carrying the flattened file list.
    let mut state = HydratorState::new();
    let out1 = state.process(build_event(Evt::TargetCompleted(TargetCompletedEvt {
        label: String::from("T"),
        aspect: None,
        success: true,
        output_groups: vec![OutputGroup {
            name: String::from("default"),
            file_sets: vec![String::from("s1")],
        }],
    })));
    assert_eq!(out1, Vec::new());

    let f1 = File {
        name: String::from("f1"),
        path_prefix: Vec::new(),
        file: Some(FileRef::Uri(String::from("file:///f1"))),
    };
    let out2 = state.process(build_event(Evt::NamedSetOfFiles {
        id: String::from("s1"),
        named_set_of_files: NamedSetOfFiles {
            files: vec![f1.clone()],
            file_sets: Vec::new(),
        },
    }));
    assert_eq!(out2.len(), 1);
    match &out2[0] {
        Some(HydratedInfo::TargetComplete(info)) => {
            assert_eq!(info.label, String::from("T"));
            assert_eq!(info.success, true);
            assert_eq!(info.output_files, vec![f1]);
        }
        other => panic!("expected a target completion, got {:?}", other),
    }
}

#[test]
fn target_completion_resolves_chained_sets() {
    // "s1" references "s2"; both must be known before the completion
    // resolves, and the flattened list holds the files of both.
    let mut state = HydratorState::new();
    let f_inner = File {
        name: String::from("inner"),
        path_prefix: Vec::new(),
        file: Some(FileRef::Uri(String::from("file:///inner"))),
    };
    state.process(build_event(Evt::NamedSetOfFiles {
        id: String::from("s2"),
        named_set_of_files: NamedSetOfFiles {
            files: vec![f_inner.clone()],
            file_sets: Vec::new(),
        },
    }));
    let out1 = state.process(build_event(Evt::TargetCompleted(TargetCompletedEvt {
        label: String::from("T"),
        aspect: None,
        success: true,
        output_groups: vec![OutputGroup {
            name: String::from("default"),
            file_sets: vec![String::from("s1")],
        }],
    })));
    assert_eq!(out1, Vec::new());

    let f_outer = File {
        name: String::from("outer"),
        path_prefix: Vec::new(),
        file: Some(FileRef::Uri(String::from("file:///outer"))),
    };
    let out2 = state.process(build_event(Evt::NamedSetOfFiles {
        id: String::from("s1"),
        named_set_of_files: NamedSetOfFiles {
            files: vec![f_outer.clone()],
            file_sets: vec![String::from("s2")],
        },
    }));
    assert_eq!(out2.len(), 1);
    match &out2[0] {
        Some(HydratedInfo::TargetComplete(info)) => {
            assert_eq!(info.output_files, vec![f_outer, f_inner]);
        }
        other => panic!("expected a target completion, got {:?}", other),
    }
}

#[test]
fn files_method_orders_stdout_then_stderr() {
    let info = ActionFailedErrorInfo {
        label: String::from("x"),
        stdout: Some(File {
            name: String::from("stdout"),
            path_prefix: Vec::new(),
            file: Some(FileRef::Uri(String::from("o"))),
        }),
        stderr: Some(File {
            name: String::from("stderr"),
            path_prefix: Vec::new(),
            file: Some(FileRef::Uri(String::from("e"))),
        }),
        target_kind: None,
    };
    let files = info.files();
    assert_eq!(files.len(), 2);
    assert_eq!(files[0].name, String::from("stdout"));
    assert_eq!(files[1].name, String::from("stderr"));
}

#[test]
fn unknown_events_are_dropped() {
    let mut state = HydratorState::new();
    assert_eq!(state.process(build_event(Evt::UnknownEvent)), Vec::new());
    assert_eq!(state.process(build_event(Evt::BazelEvent)), Vec::new());
    assert_eq!(state.process(BuildEventAction::LifecycleEvent), Vec::new());
}
