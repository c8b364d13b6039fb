use bazelfe_core::auto_test_action::{
    merge_dirty_files, AutoTestActionError, AutoTestOrchestrator, BazelStatus, BuildStatus,
    FileStatus, OrchestratorCommand, OrchestratorEvent, Phase, Target,
};

fn file(path: &str, stamp: u64) -> FileStatus {
    FileStatus {
        path: String::from(path),
        updated_at: stamp,
    }
}

fn target(label: &str, is_test: bool) -> Target {
    Target {
        label: String::from(label),
        is_test,
    }
}

fn failing_signals(cmds: &[OrchestratorCommand]) -> usize {
    cmds.iter()
        .filter(|c| matches!(c, OrchestratorCommand::SignalBuildStatus(BuildStatus::ActionsFailing)))
        .count()
}

#[test]
fn cycle_through_three_distances_clears_dirty() {
    // max_distance = 3; the build succeeds at distances 1 and 2, the
    // distance-3 query returns no targets: the dirty files are cleared
    // and the distance resets to 1.
    let mut orch = AutoTestOrchestrator::new(3);
    assert_eq!(
        orch.initial_command(),
        OrchestratorCommand::WaitForFiles { since_when: 0 }
    );

    let cmds = orch.on_event(OrchestratorEvent::FilesChanged(vec![file("src/a.rs", 5)]));
    assert_eq!(cmds, vec![OrchestratorCommand::RequestInstant]);

    let cmds = orch.on_event(OrchestratorEvent::InstantNow(6));
    assert_eq!(
        cmds[0],
        OrchestratorCommand::NotifyFileChanged {
            path: String::from("src/a.rs")
        }
    );
    assert!(matches!(
        cmds[1],
        OrchestratorCommand::QueryTargets { distance: 1, .. }
    ));

    for expected_distance in [2u64, 3u64] {
        // Targets at this distance: build them (they are not tests).
        let cmds = orch.on_event(OrchestratorEvent::TargetsFound(vec![target("//x:lib", false)]));
        assert_eq!(
            cmds[0],
            OrchestratorCommand::SignalBazelStatus(BazelStatus::Idle)
        );
        assert_eq!(
            cmds[1],
            OrchestratorCommand::SignalBazelStatus(BazelStatus::Build)
        );
        assert_eq!(
            cmds[2],
            OrchestratorCommand::RunBuild {
                labels: vec![String::from("//x:lib")]
            }
        );
        // The build succeeds; no test targets, so the cycle widens.
        let cmds = orch.on_event(OrchestratorEvent::CommandFinished(0));
        assert_eq!(
            cmds[1],
            OrchestratorCommand::SignalBuildStatus(BuildStatus::ActionsGreen)
        );
        assert!(matches!(
            cmds[2],
            OrchestratorCommand::QueryTargets { distance, .. } if distance == expected_distance
        ));
        assert_eq!(orch.cur_distance, expected_distance);
    }

    // The distance-3 query returns nothing: cycle satisfied.
    let cmds = orch.on_event(OrchestratorEvent::TargetsFound(vec![]));
    assert_eq!(
        cmds,
        vec![
            OrchestratorCommand::SignalBazelStatus(BazelStatus::Idle),
            OrchestratorCommand::WaitForFiles { since_when: 6 },
        ]
    );
    assert_eq!(orch.cur_distance, 1);
    assert!(orch.dirty_files.is_empty());
    assert_eq!(orch.phase, Phase::Idle);
}

#[test]
fn build_failure_retains_dirty_files() {
    let mut orch = AutoTestOrchestrator::new(3);
    orch.on_event(OrchestratorEvent::FilesChanged(vec![file("src/a.rs", 5)]));
    orch.on_event(OrchestratorEvent::InstantNow(6));
    let dirty_before = orch.dirty_files.clone();
    assert_eq!(dirty_before.len(), 1);

    orch.on_event(OrchestratorEvent::TargetsFound(vec![target("//x:lib", false)]));
    let cmds = orch.on_event(OrchestratorEvent::CommandFinished(1));
    // Exactly one failing signal for this cycle, dirty files retained.
    assert_eq!(failing_signals(&cmds), 1);
    assert_eq!(orch.dirty_files, dirty_before);
    assert_eq!(orch.phase, Phase::Idle);
    assert_eq!(
        cmds[2],
        OrchestratorCommand::WaitForFiles { since_when: 6 }
    );
}

#[test]
fn test_failure_retains_dirty_files() {
    let mut orch = AutoTestOrchestrator::new(3);
    orch.on_event(OrchestratorEvent::FilesChanged(vec![file("src/a.rs", 5)]));
    orch.on_event(OrchestratorEvent::InstantNow(6));
    orch.on_event(OrchestratorEvent::TargetsFound(vec![target("//x:t", true)]));
    // Build succeeded; the test target now runs.
    let cmds = orch.on_event(OrchestratorEvent::CommandFinished(0));
    assert_eq!(
        cmds[1],
        OrchestratorCommand::SignalBazelStatus(BazelStatus::Test)
    );
    assert_eq!(
        cmds[2],
        OrchestratorCommand::RunTests {
            labels: vec![String::from("//x:t")]
        }
    );
    // The test run fails.
    let cmds = orch.on_event(OrchestratorEvent::CommandFinished(1));
    assert_eq!(failing_signals(&cmds), 1);
    assert_eq!(orch.dirty_files.len(), 1);
    assert_eq!(orch.cur_distance, 1);
}

#[test]
fn in_query_latches_and_retries() {
    let mut orch = AutoTestOrchestrator::new(3);
    orch.on_event(OrchestratorEvent::FilesChanged(vec![file("src/a.rs", 5)]));
    orch.on_event(OrchestratorEvent::InstantNow(6));
    let cmds = orch.on_event(OrchestratorEvent::TargetsInQuery);
    assert_eq!(
        cmds[0],
        OrchestratorCommand::SignalBazelStatus(BazelStatus::InQuery)
    );
    assert!(matches!(
        &cmds[1],
        OrchestratorCommand::QueryTargets { distance: 1, in_query: true, .. }
    ));
    assert!(orch.bazel_in_query);
}

#[test]
fn shutdown_stops_the_loop() {
    let mut orch = AutoTestOrchestrator::new(3);
    let cmds = orch.on_event(OrchestratorEvent::Shutdown);
    assert_eq!(cmds, vec![OrchestratorCommand::Stop]);
    assert_eq!(orch.phase, Phase::Finished);
}

#[test]
fn merge_deduplicates_and_sorts_by_recency() {
    let mut dirty = vec![file("a", 3), file("b", 1)];
    let incoming = vec![file("b", 9), file("c", 2)];
    merge_dirty_files(&mut dirty, &incoming);
    assert_eq!(dirty, vec![file("b", 9), file("a", 3), file("c", 2)]);
}

#[test]
fn no_daemon_error_message() {
    let err = AutoTestActionError::NoDaemon;
    assert_eq!(
        err.message(),
        String::from("Requested Autotest, but the daemon isn't running")
    );
}

#[test]
fn merge_keeps_newest_record_per_path() {
    let mut dirty = vec![file("a", 5)];
    let incoming = vec![file("a", 2)];
    merge_dirty_files(&mut dirty, &incoming);
    // The later report wins for its path, even with an older stamp.
    assert_eq!(dirty, vec![file("a", 2)]);
}

#[test]
fn events_outside_their_phase_are_ignored() {
    let mut orch = AutoTestOrchestrator::new(3);
    // No build is running, so a finished-command report changes nothing.
    let cmds = orch.on_event(OrchestratorEvent::CommandFinished(0));
    assert!(cmds.is_empty());
    assert_eq!(orch.phase, Phase::Idle);
}
