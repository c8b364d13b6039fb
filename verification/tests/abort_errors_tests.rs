use bazelfe_core::bazel_event::{AbortReason, ProgressEvt};
use bazelfe_core::hydrated_stream::BazelAbortErrorInfo;
use bazelfe_core::process_build_abort_errors::{
    apply_candidates, process_build_abort_errors, process_progress, split_lines,
    extract_added_cycle_in_dependency_graph, extract_target_does_not_exist,
    extract_target_not_declared_in_package, extract_target_not_visible, BazelCorrectionCommand,
    BuildozerRemoveDepCmd, CurrentState, TargetStory, TargetStoryAction,
};
use bazelfe_core::string_kv::StringKeyMap;

#[test]
fn test_extract_target_does_not_exist() {
    // This was referring to a random string put into the dependencies list of the target
    let sample_output = BazelAbortErrorInfo {
        description: String::from("in deps attribute of java_library rule //src/main/java/com/example:Example: target '//src/main/java/com/example:asdfasdf' does not exist"),
        reason: Some(AbortReason::AnalysisFailure),
        label: None,
    };

    let mut results = vec![];
    extract_target_does_not_exist(&sample_output, &mut results);
    assert_eq!(
        results,
        vec![BazelCorrectionCommand::BuildozerRemoveDep(
            BuildozerRemoveDepCmd {
                target_to_operate_on: String::from("//src/main/java/com/example:Example"),
                dependency_to_remove: String::from("//src/main/java/com/example:asdfasdf"),
                why: String::from("Dependency on does not exist"),
            }
        )]
    );
}

#[test]
fn test_extract_target_not_declared_in_package() {
    // This was referring to a random string put into the dependencies list of the target
    let sample_output = ProgressEvt {
        stderr: String::from("no such target '//src/main/java/com/example/foo:foo': target 'foo' not declared in package 'src/main/java/com/example/foo' defined by /User/jim/github/example_bazel_project/src/main/java/com/example/foo/BUILD and referenced by '//src/main/java/com/example/c:c'"),
        stdout: String::from(""),
    };

    let mut results = vec![];
    extract_target_not_declared_in_package(&sample_output, &mut results);
    assert_eq!(
        results,
        vec![BazelCorrectionCommand::BuildozerRemoveDep(
            BuildozerRemoveDepCmd {
                target_to_operate_on: String::from("//src/main/java/com/example/c:c"),
                dependency_to_remove: String::from("//src/main/java/com/example/foo:foo"),
                why: String::from("Dependency on does not exist"),
            }
        )]
    );
}

#[test]
fn test_extract_target_not_visible() {
    // This was referring to a random string put into the dependencies list of the target
    let sample_output = BazelAbortErrorInfo {
        description: String::from("in java_library rule //src/main/java/com/com/example:Example: target '@third_party_jvm//3rdparty/jvm/com/google/api/grpc:proto_google_common_protos' is not visible from target '//src/main/java/com/com/example:Example'. Check the visibility declaration of the former target if you think the dependency is legitimate"),
        reason: Some(AbortReason::AnalysisFailure),
        label: None,
    };

    let mut results = vec![];
    extract_target_not_visible(&sample_output, &mut results);
    assert_eq!(
        results,
        vec![BazelCorrectionCommand::BuildozerRemoveDep(
            BuildozerRemoveDepCmd {
                target_to_operate_on: String::from("//src/main/java/com/com/example:Example"),
                dependency_to_remove: String::from("@third_party_jvm//3rdparty/jvm/com/google/api/grpc:proto_google_common_protos"),
                why: String::from("Target dependended on is not visible from the current target"),
            }
        )]
    );
}

fn cycle_stderr() -> String {
    String::from("ERROR: /Users/exampleuser/example_path/example_repo/src/main/java/com/example/foo/actions/BUILD:1:13: in java_library rule //src/main/java/com/example/foo/actions:actions: cycle in dependency graph:\n    .-> //src/main/java/com/example/foo/actions:actions\n    |   //src/main/java/com/example/foo:bar\n    `-- //src/main/java/com/example/foo/actions:actions")
}

#[test]
fn test_extract_added_cycle_in_dependency_graph() {
    let sample_output = ProgressEvt {
        stderr: cycle_stderr(),
        stdout: String::from(""),
    };

    let mut results = vec![];
    let previous_global_seen: StringKeyMap<CurrentState> = StringKeyMap::new();
    extract_added_cycle_in_dependency_graph(&sample_output, &mut results, &previous_global_seen);
    assert_eq!(results, vec![]);
}

#[test]
fn test_extract_added_cycle_in_dependency_graph_with_state() {
    let sample_output = ProgressEvt {
        stderr: cycle_stderr(),
        stdout: String::from(""),
    };

    let mut results = vec![];
    let mut previous_global_seen: StringKeyMap<CurrentState> = StringKeyMap::new();
    let current_state = CurrentState {
        ignore_list: vec![String::from(
            "//src/main/java/com/example/foo/actions:actions",
        )],
    };
    previous_global_seen.insert(
        String::from("//src/main/java/com/example/foo:bar"),
        current_state,
    );
    extract_added_cycle_in_dependency_graph(&sample_output, &mut results, &previous_global_seen);
    assert_eq!(
        results,
        vec![BazelCorrectionCommand::BuildozerRemoveDep(
            BuildozerRemoveDepCmd {
                target_to_operate_on: String::from("//src/main/java/com/example/foo:bar"),
                dependency_to_remove: String::from(
                    "//src/main/java/com/example/foo/actions:actions"
                ),
                why: String::from(
                    "There is a cyclic dependency, so attempting to unwind/remove dependencies"
                ),
            }
        ),]
    );
}

#[test]
fn split_lines_cuts_at_newlines() {
    assert_eq!(
        split_lines("a\nb\r\nc"),
        vec![String::from("a"), String::from("b"), String::from("c")]
    );
    assert_eq!(split_lines(""), Vec::<String>::new());
    assert_eq!(split_lines("x\n"), vec![String::from("x")]);
    assert_eq!(split_lines("\ny"), vec![String::from(""), String::from("y")]);
}

#[test]
fn apply_candidates_records_successes_only() {
    let cmd = |t: &str, d: &str| {
        BazelCorrectionCommand::BuildozerRemoveDep(BuildozerRemoveDepCmd {
            target_to_operate_on: String::from(t),
            dependency_to_remove: String::from(d),
            why: String::from("Dependency on does not exist"),
        })
    };
    let commands = vec![cmd("//a:a", "//b:b"), cmd("//c:c", "//d:d")];
    let results = vec![true, false];
    let response = apply_candidates(&commands, &results, 7);
    assert_eq!(
        response.target_stories,
        vec![TargetStory {
            target: String::from("//a:a"),
            action: TargetStoryAction::RemovedDependency {
                removed_what: String::from("//b:b"),
                why: String::from("Dependency on does not exist"),
            },
            when: 7,
        }]
    );
}

#[test]
fn process_build_abort_errors_combines_extractors() {
    let sample_output = BazelAbortErrorInfo {
        description: String::from("in deps attribute of java_library rule //src/main/java/com/example:Example: target '//src/main/java/com/example:asdfasdf' does not exist"),
        reason: Some(AbortReason::AnalysisFailure),
        label: None,
    };
    let cmds = process_build_abort_errors(&sample_output);
    assert_eq!(cmds.len(), 1);

    let quiet = BazelAbortErrorInfo {
        description: String::from("nothing interesting"),
        reason: Some(AbortReason::UserInterrupted),
        label: None,
    };
    assert_eq!(process_build_abort_errors(&quiet), vec![]);
}

#[test]
fn process_progress_combines_extractors() {
    let sample_output = ProgressEvt {
        stderr: String::from("no such target '//src/main/java/com/example/foo:foo': target 'foo' not declared in package 'src/main/java/com/example/foo' defined by /tmp/BUILD and referenced by '//src/main/java/com/example/c:c'"),
        stdout: String::from(""),
    };
    let previous_global_seen: StringKeyMap<CurrentState> = StringKeyMap::new();
    let cmds = process_progress(&sample_output, &previous_global_seen);
    assert_eq!(cmds.len(), 1);
}
