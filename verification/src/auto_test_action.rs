use vstd::prelude::*;
use crate::bazel_event::File;

verus! {

/// What the build tool is busy with right now.
#[derive(Clone, Copy, PartialEq, Eq, Debug)]
pub enum BazelStatus {
    Idle,
    InQuery,
    Build,
    Test,
}

/// Whether the last completed cycle left the tree green or failing.
#[derive(Clone, Copy, PartialEq, Eq, Debug)]
pub enum BuildStatus {
    ActionsGreen,
    ActionsFailing,
}

/// Why auto-test mode could not start.
#[derive(Clone, Copy, PartialEq, Eq, Debug)]
pub enum AutoTestActionError {
    NoDaemon,
}

impl AutoTestActionError {
    /// The human-readable description of this error.
    pub fn message(&self) -> (r: String)
        ensures
            r@ == "Requested Autotest, but the daemon isn't running"@,
    {
        "Requested Autotest, but the daemon isn't running".to_owned()
    }
}

/// Which kind of completion a dashboard entry reports.
#[derive(Clone, Copy, PartialEq, Eq, Debug)]
pub enum CompleteKind {
    Action,
    Target,
    Test,
}

/// One entry of the dashboard's completion scroll.
#[derive(PartialEq, Debug)]
pub struct ActionTargetStateScrollEntry {
    pub complete_type: CompleteKind,
    pub success: bool,
    pub label: String,
    pub when: u64,
    pub bazel_run_id: usize,
    pub files: Vec<File>,
}

/// A changed-file record from the dependency daemon: the path and a
/// monotonic stamp saying when the change was seen.
#[derive(PartialEq, Eq, Debug)]
pub struct FileStatus {
    pub path: String,
    pub updated_at: u64,
}

impl Clone for FileStatus {
    fn clone(&self) -> (res: Self)
        ensures
            res == *self,
    {
        FileStatus { path: self.path.clone(), updated_at: self.updated_at }
    }
}

/// A build target the daemon reports as affected, with its test/non-test
/// classification.
#[derive(PartialEq, Eq, Debug)]
pub struct Target {
    pub label: String,
    pub is_test: bool,
}

impl Clone for Target {
    fn clone(&self) -> (res: Self)
        ensures
            res == *self,
    {
        Target { label: self.label.clone(), is_test: self.is_test }
    }
}

/// The map a sequence of changed-file records denotes: each path to the
/// stamp of its latest record (later records win).
pub open spec fn file_map(s: Seq<FileStatus>) -> Map<Seq<char>, u64>
    decreases s.len(),
{
    if s.len() == 0 {
        Map::empty()
    } else {
        file_map(s.drop_last()).insert(s.last().path@, s.last().updated_at)
    }
}

/// No two records share a path.
pub open spec fn distinct_paths(s: Seq<FileStatus>) -> bool {
    forall|i: int, j: int| 0 <= i < j < s.len() ==> s[i].path@ != s[j].path@
}

/// Records are ordered newest first.
pub open spec fn sorted_by_recency(s: Seq<FileStatus>) -> bool {
    forall|i: int, j: int| 0 <= i < j < s.len() ==> s[i].updated_at >= s[j].updated_at
}

proof fn lemma_file_map_contains(s: Seq<FileStatus>, p: Seq<char>)
    ensures
        file_map(s).contains_key(p) == exists|i: int| 0 <= i < s.len() && s[i].path@ == p,
    decreases s.len(),
{
    if s.len() > 0 {
        lemma_file_map_contains(s.drop_last(), p);
        if s.last().path@ == p {
            assert(s[s.len() - 1].path@ == p);
        } else if exists|i: int| 0 <= i < s.len() && s[i].path@ == p {
            let i = choose|i: int| 0 <= i < s.len() && s[i].path@ == p;
            assert(s.drop_last()[i].path@ == p);
        }
    }
}

proof fn lemma_file_map_insert_mid(s: Seq<FileStatus>, pos: int, x: FileStatus)
    requires
        0 <= pos <= s.len(),
        forall|i: int| 0 <= i < s.len() ==> s[i].path@ != x.path@,
    ensures
        file_map(s.insert(pos, x)) == file_map(s).insert(x.path@, x.updated_at),
    decreases s.len(),
{
    let t = s.insert(pos, x);
    if pos == s.len() {
        assert(t.drop_last() =~= s);
        assert(t.last() == x);
    } else {
        assert(t.drop_last() =~= s.drop_last().insert(pos, x));
        assert(t.last() == s.last());
        lemma_file_map_insert_mid(s.drop_last(), pos, x);
        assert(file_map(t) == file_map(s.drop_last()).insert(x.path@, x.updated_at).insert(
            s.last().path@,
            s.last().updated_at,
        ));
        assert(s[s.len() - 1].path@ != x.path@);
        assert(file_map(s.drop_last()).insert(x.path@, x.updated_at).insert(
            s.last().path@,
            s.last().updated_at,
        ) =~= file_map(s.drop_last()).insert(s.last().path@, s.last().updated_at).insert(
            x.path@,
            x.updated_at,
        ));
    }
}

fn contains_path(v: &Vec<FileStatus>, p: &String) -> (r: bool)
    ensures
        r == exists|i: int| 0 <= i < v@.len() && v@[i].path@ == p@,
{
    let mut i: usize = 0;
    while i < v.len()
        invariant
            i <= v@.len(),
            forall|j: int| 0 <= j < i ==> v@[j].path@ != p@,
        decreases v@.len() - i,
    {
        if v[i].path == *p {
            assert(v@[i as int].path@ == p@);
            return true;
        }
        i = i + 1;
    }
    false
}

#[verifier::loop_isolation(false)]
fn sorted_insert_pos(v: &Vec<FileStatus>, stamp: u64) -> (pos: usize)
    requires
        sorted_by_recency(v@),
    ensures
        pos <= v@.len(),
        forall|j: int| 0 <= j < pos ==> v@[j].updated_at >= stamp,
        forall|j: int| pos <= j < v@.len() ==> v@[j].updated_at < stamp,
    {
    let mut i: usize = 0;
    while i < v.len()
        invariant
            i <= v@.len(),
            forall|j: int| 0 <= j < i ==> v@[j].updated_at >= stamp,
        decreases v@.len() - i,
    {
        if v[i].updated_at < stamp {
            proof {
                assert forall|j: int| i <= j < v@.len() implies v@[j].updated_at < stamp by {
                    if i < j {
                        assert(v@[i as int].updated_at >= v@[j].updated_at);
                    }
                }
            }
            return i;
        }
        i = i + 1;
    }
    v.len()
}

/// Merges newly reported changed files into the accumulated dirty set:
/// one record per path (a path reported again keeps its newest record)
/// and the whole list ordered by recency, newest first.
#[verifier::rlimit(60)]
#[verifier::loop_isolation(false)]
pub fn merge_dirty_files(dirty: &mut Vec<FileStatus>, incoming: &Vec<FileStatus>)
    ensures
        distinct_paths(final(dirty)@),
        sorted_by_recency(final(dirty)@),
        file_map(final(dirty)@) == file_map(old(dirty)@ + incoming@),
{
    let mut all: Vec<FileStatus> = Vec::new();
    core::mem::swap(&mut all, dirty);
    let mut c: usize = 0;
    while c < incoming.len()
        invariant
            c <= incoming@.len(),
            all@ == old(dirty)@ + incoming@.take(c as int),
        decreases incoming@.len() - c,
    {
        all.push(incoming[c].clone());
        c = c + 1;
        proof {
            assert(all@ =~= old(dirty)@ + incoming@.take(c as int));
        }
    }
    proof {
        assert(all@ =~= old(dirty)@ + incoming@);
    }
    let mut kept: Vec<FileStatus> = Vec::new();
    let mut i: usize = all.len();
    proof {
        assert(all@.take(i as int) =~= all@);
        assert(file_map(all@).union_prefer_right(file_map(Seq::<FileStatus>::empty())) =~= file_map(
            all@,
        ));
    }
    while i > 0
        invariant
            i <= all@.len(),
            distinct_paths(kept@),
            sorted_by_recency(kept@),
            file_map(all@) == file_map(all@.take(i as int)).union_prefer_right(file_map(kept@)),
        decreases i,
    {
        i = i - 1;
        let ghost pre_kept = kept@;
        let present = contains_path(&kept, &all[i].path);
        proof {
            lemma_file_map_contains(kept@, all@[i as int].path@);
            assert(all@.take(i as int + 1).drop_last() =~= all@.take(i as int));
            assert(all@.take(i as int + 1).last() == all@[i as int]);
        }
        if !present {
            let pos = sorted_insert_pos(&kept, all[i].updated_at);
            let copied = all[i].clone();
            kept.insert(pos, copied);
            proof {
                assert(kept@ == pre_kept.insert(pos as int, all@[i as int]));
                lemma_file_map_insert_mid(pre_kept, pos as int, all@[i as int]);
                assert(distinct_paths(kept@)) by {
                    assert(forall|k: int|
                        0 <= k < kept@.len() ==> kept@[k] == if k < pos {
                            pre_kept[k]
                        } else if k == pos {
                            all@[i as int]
                        } else {
                            pre_kept[k - 1]
                        });
                }
                assert(sorted_by_recency(kept@)) by {
                    assert(forall|k: int|
                        0 <= k < kept@.len() ==> kept@[k] == if k < pos {
                            pre_kept[k]
                        } else if k == pos {
                            all@[i as int]
                        } else {
                            pre_kept[k - 1]
                        });
                }
                assert(file_map(all@.take(i as int)).union_prefer_right(file_map(kept@))
                    =~= file_map(all@.take(i as int + 1)).union_prefer_right(file_map(pre_kept)));
            }
        } else {
            proof {
                assert(file_map(all@.take(i as int)).union_prefer_right(file_map(kept@))
                    =~= file_map(all@.take(i as int + 1)).union_prefer_right(file_map(kept@)));
            }
        }
    }
    proof {
        assert(all@.take(0) =~= Seq::<FileStatus>::empty());
        assert(file_map(Seq::<FileStatus>::empty()).union_prefer_right(file_map(kept@)) =~= file_map(
            kept@,
        ));
    }
    core::mem::swap(dirty, &mut kept);
}


/// An observation the embedding application feeds the orchestrator: the
/// control channel closing, a poll result, the daemon's current instant,
/// a target-query answer, or a finished build/test invocation.
#[derive(PartialEq, Debug)]
pub enum OrchestratorEvent {
    Shutdown,
    FilesChanged(Vec<FileStatus>),
    InstantNow(u64),
    TargetsInQuery,
    TargetsFound(Vec<Target>),
    CommandFinished(i32),
}

/// An action the orchestrator asks the embedding application to perform.
/// Status signals are best-effort sends to the dashboard; the rest are the
/// daemon calls and build-runner invocations of the rebuild loop.
#[derive(PartialEq, Debug)]
pub enum OrchestratorCommand {
    WaitForFiles { since_when: u64 },
    RequestInstant,
    NotifyFileChanged { path: String },
    QueryTargets { files: Vec<FileStatus>, distance: u64, in_query: bool },
    SignalBazelStatus(BazelStatus),
    SignalBuildStatus(BuildStatus),
    RunBuild { labels: Vec<String> },
    RunTests { labels: Vec<String> },
    Stop,
}

/// Where the orchestrator stands in its poll/query/build/test cycle.
#[derive(Clone, Copy, PartialEq, Eq, Debug)]
pub enum Phase {
    Idle,
    AwaitingInstant,
    Querying,
    Building,
    Testing,
    Finished,
}

/// The auto-rebuild orchestrator: a state machine that turns file-change
/// notifications into distance-bounded build/test cycles. The embedding
/// application performs each returned command and feeds the outcome back
/// as the next event; no two build-runner invocations are ever requested
/// before the previous one's `CommandFinished` arrives.
pub struct AutoTestOrchestrator {
    pub phase: Phase,
    pub dirty_files: Vec<FileStatus>,
    pub pending_files: Vec<FileStatus>,
    pub cycle_targets: Vec<Target>,
    pub cur_distance: u64,
    pub max_distance: u64,
    pub invalid_since_when: u64,
    pub bazel_in_query: bool,
}

/// The labels of all targets, in order.
pub open spec fn build_labels(ts: Seq<Target>) -> Seq<String> {
    ts.map_values(|t: Target| t.label)
}

/// The labels of the test-kind targets, in order.
pub open spec fn test_labels(ts: Seq<Target>) -> Seq<String> {
    ts.filter(|t: Target| t.is_test).map_values(|t: Target| t.label)
}

/// Whether `c` queries the daemon for the targets affected by `files`
/// within `distance` hops, passing the index-rebuild hint.
pub open spec fn is_query_cmd(
    c: OrchestratorCommand,
    files: Seq<FileStatus>,
    distance: u64,
    in_query: bool,
) -> bool {
    c matches OrchestratorCommand::QueryTargets { files: f, distance: d, in_query: q } && f@
        == files && d == distance && q == in_query
}

/// Whether `c` runs a build over exactly `labels`.
pub open spec fn is_run_build(c: OrchestratorCommand, labels: Seq<String>) -> bool {
    c matches OrchestratorCommand::RunBuild { labels: l } && l@ == labels
}

/// Whether `c` runs tests over exactly `labels`.
pub open spec fn is_run_tests(c: OrchestratorCommand, labels: Seq<String>) -> bool {
    c matches OrchestratorCommand::RunTests { labels: l } && l@ == labels
}

/// An event that does not belong to the current phase changes nothing.
pub open spec fn ignored_ok(
    pre: AutoTestOrchestrator,
    post: AutoTestOrchestrator,
    cmds: Seq<OrchestratorCommand>,
) -> bool {
    post == pre && cmds == Seq::<OrchestratorCommand>::empty()
}

/// A failed build or test aborts the cycle: the failing signal goes out
/// exactly once, the dirty files are retained for the next cycle, the
/// distance is kept, and the orchestrator goes back to polling.
pub open spec fn fail_ok(
    pre: AutoTestOrchestrator,
    post: AutoTestOrchestrator,
    cmds: Seq<OrchestratorCommand>,
) -> bool {
    &&& post.phase is Idle
    &&& post.dirty_files == pre.dirty_files
    &&& post.pending_files == pre.pending_files
    &&& post.cycle_targets@ == Seq::<Target>::empty()
    &&& post.cur_distance == pre.cur_distance
    &&& post.max_distance == pre.max_distance
    &&& post.invalid_since_when == pre.invalid_since_when
    &&& post.bazel_in_query == pre.bazel_in_query
    &&& cmds.len() == 3
    &&& cmds[0] == OrchestratorCommand::SignalBazelStatus(BazelStatus::Idle)
    &&& cmds[1] == OrchestratorCommand::SignalBuildStatus(BuildStatus::ActionsFailing)
    &&& cmds[2] == (OrchestratorCommand::WaitForFiles { since_when: pre.invalid_since_when })
}

/// The end of one inner-loop iteration: at the maximum distance the cycle
/// is satisfied (dirty files cleared, distance reset, back to polling);
/// otherwise the distance widens by one and the query repeats.
pub open spec fn advance_ok(
    pre: AutoTestOrchestrator,
    post: AutoTestOrchestrator,
    tail: Seq<OrchestratorCommand>,
) -> bool {
    if pre.cur_distance >= pre.max_distance {
        &&& post.phase is Idle
        &&& post.cur_distance == 1
        &&& post.dirty_files@ == Seq::<FileStatus>::empty()
        &&& post.pending_files == pre.pending_files
        &&& post.cycle_targets == pre.cycle_targets
        &&& post.max_distance == pre.max_distance
        &&& post.invalid_since_when == pre.invalid_since_when
        &&& post.bazel_in_query == pre.bazel_in_query
        &&& tail == seq![OrchestratorCommand::WaitForFiles { since_when: pre.invalid_since_when }]
    } else {
        &&& post.phase is Querying
        &&& post.cur_distance == pre.cur_distance + 1
        &&& post.dirty_files == pre.dirty_files
        &&& post.pending_files == pre.pending_files
        &&& post.cycle_targets == pre.cycle_targets
        &&& post.max_distance == pre.max_distance
        &&& post.invalid_since_when == pre.invalid_since_when
        &&& post.bazel_in_query == pre.bazel_in_query
        &&& tail.len() == 1
        &&& is_query_cmd(tail[0], pre.dirty_files@, (pre.cur_distance + 1) as u64, pre.bazel_in_query)
    }
}

/// What one orchestrator step does: how the state changes and exactly
/// which commands go out, for every event in every phase.
pub open spec fn on_event_ok(
    pre: AutoTestOrchestrator,
    event: OrchestratorEvent,
    post: AutoTestOrchestrator,
    cmds: Seq<OrchestratorCommand>,
) -> bool {
    match event {
        OrchestratorEvent::Shutdown => {
            &&& post == (AutoTestOrchestrator { phase: Phase::Finished, ..pre })
            &&& cmds == seq![OrchestratorCommand::Stop]
        },
        OrchestratorEvent::FilesChanged(files) => if pre.phase is Idle {
            if files@.len() == 0 {
                &&& post == pre
                &&& cmds == seq![
                    OrchestratorCommand::WaitForFiles { since_when: pre.invalid_since_when },
                ]
            } else {
                &&& post == (AutoTestOrchestrator {
                    phase: Phase::AwaitingInstant,
                    pending_files: files,
                    ..pre
                })
                &&& cmds == seq![OrchestratorCommand::RequestInstant]
            }
        } else {
            ignored_ok(pre, post, cmds)
        },
        OrchestratorEvent::InstantNow(t) => if pre.phase is AwaitingInstant {
            &&& post.phase is Querying
            &&& post.invalid_since_when == t
            &&& post.pending_files@ == Seq::<FileStatus>::empty()
            &&& distinct_paths(post.dirty_files@)
            &&& sorted_by_recency(post.dirty_files@)
            &&& file_map(post.dirty_files@) == file_map(pre.dirty_files@ + pre.pending_files@)
            &&& post.cycle_targets == pre.cycle_targets
            &&& post.cur_distance == pre.cur_distance
            &&& post.max_distance == pre.max_distance
            &&& post.bazel_in_query == pre.bazel_in_query
            &&& cmds.len() == pre.pending_files@.len() + 1
            &&& (forall|k: int|
                0 <= k < pre.pending_files@.len() ==> cmds[k] == (
                OrchestratorCommand::NotifyFileChanged { path: pre.pending_files@[k].path }))
            &&& is_query_cmd(cmds.last(), post.dirty_files@, pre.cur_distance, pre.bazel_in_query)
        } else {
            ignored_ok(pre, post, cmds)
        },
        OrchestratorEvent::TargetsInQuery => if pre.phase is Querying {
            &&& post == (AutoTestOrchestrator { bazel_in_query: true, ..pre })
            &&& cmds.len() == 2
            &&& cmds[0] == OrchestratorCommand::SignalBazelStatus(BazelStatus::InQuery)
            &&& is_query_cmd(cmds[1], pre.dirty_files@, pre.cur_distance, true)
        } else {
            ignored_ok(pre, post, cmds)
        },
        OrchestratorEvent::TargetsFound(ts) => if pre.phase is Querying {
            if ts@.len() > 0 {
                &&& post == (AutoTestOrchestrator {
                    phase: Phase::Building,
                    bazel_in_query: false,
                    cycle_targets: ts,
                    ..pre
                })
                &&& cmds.len() == 3
                &&& cmds[0] == OrchestratorCommand::SignalBazelStatus(BazelStatus::Idle)
                &&& cmds[1] == OrchestratorCommand::SignalBazelStatus(BazelStatus::Build)
                &&& is_run_build(cmds[2], build_labels(ts@))
            } else {
                &&& cmds.len() >= 1
                &&& cmds[0] == OrchestratorCommand::SignalBazelStatus(BazelStatus::Idle)
                &&& advance_ok(
                    (AutoTestOrchestrator { bazel_in_query: false, ..pre }),
                    post,
                    cmds.skip(1),
                )
            }
        } else {
            ignored_ok(pre, post, cmds)
        },
        OrchestratorEvent::CommandFinished(code) => if pre.phase is Building {
            if code != 0 {
                fail_ok(pre, post, cmds)
            } else if test_labels(pre.cycle_targets@).len() > 0 {
                &&& post == (AutoTestOrchestrator { phase: Phase::Testing, ..pre })
                &&& cmds.len() == 3
                &&& cmds[0] == OrchestratorCommand::SignalBazelStatus(BazelStatus::Idle)
                &&& cmds[1] == OrchestratorCommand::SignalBazelStatus(BazelStatus::Test)
                &&& is_run_tests(cmds[2], test_labels(pre.cycle_targets@))
            } else {
                &&& cmds.len() >= 2
                &&& cmds[0] == OrchestratorCommand::SignalBazelStatus(BazelStatus::Idle)
                &&& cmds[1] == OrchestratorCommand::SignalBuildStatus(BuildStatus::ActionsGreen)
                &&& advance_ok(pre, post, cmds.skip(2))
            }
        } else if pre.phase is Testing {
            if code != 0 {
                fail_ok(pre, post, cmds)
            } else {
                &&& cmds.len() >= 2
                &&& cmds[0] == OrchestratorCommand::SignalBazelStatus(BazelStatus::Idle)
                &&& cmds[1] == OrchestratorCommand::SignalBuildStatus(BuildStatus::ActionsGreen)
                &&& advance_ok(pre, post, cmds.skip(2))
            }
        } else {
            ignored_ok(pre, post, cmds)
        },
    }
}

fn clone_file_statuses(v: &Vec<FileStatus>) -> (r: Vec<FileStatus>)
    ensures
        r@ == v@,
{
    let mut r: Vec<FileStatus> = Vec::new();
    let mut i: usize = 0;
    while i < v.len()
        invariant
            i <= v@.len(),
            r@ == v@.take(i as int),
        decreases v@.len() - i,
    {
        r.push(v[i].clone());
        i = i + 1;
        proof {
            assert(r@ =~= v@.take(i as int));
        }
    }
    proof {
        assert(r@ =~= v@);
    }
    r
}

impl AutoTestOrchestrator {
    /// A fresh orchestrator that has seen no changes: distance 1, empty
    /// dirty set, watermark 0.
    pub fn new(max_distance: u64) -> (r: Self)
        ensures
            r.phase is Idle,
            r.dirty_files@ == Seq::<FileStatus>::empty(),
            r.pending_files@ == Seq::<FileStatus>::empty(),
            r.cycle_targets@ == Seq::<Target>::empty(),
            r.cur_distance == 1,
            r.max_distance == max_distance,
            r.invalid_since_when == 0,
            !r.bazel_in_query,
    {
        AutoTestOrchestrator {
            phase: Phase::Idle,
            dirty_files: Vec::new(),
            pending_files: Vec::new(),
            cycle_targets: Vec::new(),
            cur_distance: 1,
            max_distance,
            invalid_since_when: 0,
            bazel_in_query: false,
        }
    }

    /// The command that starts the outer loop: poll for changed files.
    pub fn initial_command(&self) -> (c: OrchestratorCommand)
        ensures
            c == (OrchestratorCommand::WaitForFiles { since_when: self.invalid_since_when }),
    {
        OrchestratorCommand::WaitForFiles { since_when: self.invalid_since_when }
    }

    fn advance_distance(&mut self) -> (cmds: Vec<OrchestratorCommand>)
        ensures
            advance_ok(*old(self), *final(self), cmds@),
    {
        let mut cmds: Vec<OrchestratorCommand> = Vec::new();
        if self.cur_distance >= self.max_distance {
            self.cur_distance = 1;
            self.dirty_files = Vec::new();
            self.phase = Phase::Idle;
            cmds.push(OrchestratorCommand::WaitForFiles { since_when: self.invalid_since_when });
            proof {
                assert(cmds@ =~= seq![
                    OrchestratorCommand::WaitForFiles { since_when: old(self).invalid_since_when },
                ]);
            }
        } else {
            self.cur_distance = self.cur_distance + 1;
            self.phase = Phase::Querying;
            let files = clone_file_statuses(&self.dirty_files);
            cmds.push(
                OrchestratorCommand::QueryTargets {
                    files,
                    distance: self.cur_distance,
                    in_query: self.bazel_in_query,
                },
            );
        }
        cmds
    }

    /// Feeds one observation to the orchestrator and returns the commands
    /// the embedding application must now perform, in order.
    #[verifier::loop_isolation(false)]
    pub fn on_event(&mut self, event: OrchestratorEvent) -> (cmds: Vec<OrchestratorCommand>)
        ensures
            on_event_ok(*old(self), event, *final(self), cmds@),
    {
        let mut cmds: Vec<OrchestratorCommand> = Vec::new();
        match event {
            OrchestratorEvent::Shutdown => {
                self.phase = Phase::Finished;
                cmds.push(OrchestratorCommand::Stop);
                proof {
                    assert(cmds@ =~= seq![OrchestratorCommand::Stop]);
                }
            },
            OrchestratorEvent::FilesChanged(files) => match self.phase {
                Phase::Idle => {
                    if files.len() == 0 {
                        cmds.push(
                            OrchestratorCommand::WaitForFiles {
                                since_when: self.invalid_since_when,
                            },
                        );
                        proof {
                            assert(cmds@ =~= seq![
                                OrchestratorCommand::WaitForFiles {
                                    since_when: old(self).invalid_since_when,
                                },
                            ]);
                        }
                    } else {
                        self.pending_files = files;
                        self.phase = Phase::AwaitingInstant;
                        cmds.push(OrchestratorCommand::RequestInstant);
                        proof {
                            assert(cmds@ =~= seq![OrchestratorCommand::RequestInstant]);
                        }
                    }
                },
                _ => {},
            },
            OrchestratorEvent::InstantNow(t) => match self.phase {
                Phase::AwaitingInstant => {
                    let mut pending: Vec<FileStatus> = Vec::new();
                    core::mem::swap(&mut pending, &mut self.pending_files);
                    self.invalid_since_when = t;
                    let mut k: usize = 0;
                    while k < pending.len()
                        invariant
                            k <= pending@.len(),
                            cmds@.len() == k,
                            forall|j: int|
                                0 <= j < k ==> cmds@[j] == (OrchestratorCommand::NotifyFileChanged {
                                    path: pending@[j].path,
                                }),
                        decreases pending@.len() - k,
                    {
                        cmds.push(
                            OrchestratorCommand::NotifyFileChanged {
                                path: pending[k].path.clone(),
                            },
                        );
                        k = k + 1;
                    }
                    merge_dirty_files(&mut self.dirty_files, &pending);
                    let files = clone_file_statuses(&self.dirty_files);
                    cmds.push(
                        OrchestratorCommand::QueryTargets {
                            files,
                            distance: self.cur_distance,
                            in_query: self.bazel_in_query,
                        },
                    );
                    self.phase = Phase::Querying;
                },
                _ => {},
            },
            OrchestratorEvent::TargetsInQuery => match self.phase {
                Phase::Querying => {
                    self.bazel_in_query = true;
                    cmds.push(OrchestratorCommand::SignalBazelStatus(BazelStatus::InQuery));
                    let files = clone_file_statuses(&self.dirty_files);
                    cmds.push(
                        OrchestratorCommand::QueryTargets {
                            files,
                            distance: self.cur_distance,
                            in_query: true,
                        },
                    );
                },
                _ => {},
            },
            OrchestratorEvent::TargetsFound(ts) => match self.phase {
                Phase::Querying => {
                    self.bazel_in_query = false;
                    cmds.push(OrchestratorCommand::SignalBazelStatus(BazelStatus::Idle));
                    if ts.len() > 0 {
                        let mut labels: Vec<String> = Vec::new();
                        let mut k: usize = 0;
                        while k < ts.len()
                            invariant
                                k <= ts@.len(),
                                labels@ == build_labels(ts@.take(k as int)),
                            decreases ts@.len() - k,
                        {
                            labels.push(ts[k].label.clone());
                            k = k + 1;
                            proof {
                                assert(labels@ =~= build_labels(ts@.take(k as int)));
                            }
                        }
                        proof {
                            assert(ts@.take(ts@.len() as int) =~= ts@);
                            assert(labels@ =~= build_labels(ts@));
                        }
                        self.cycle_targets = ts;
                        self.phase = Phase::Building;
                        cmds.push(OrchestratorCommand::SignalBazelStatus(BazelStatus::Build));
                        cmds.push(OrchestratorCommand::RunBuild { labels });
                    } else {
                        let mut tail = self.advance_distance();
                        let ghost tail0 = tail@;
                        cmds.append(&mut tail);
                        proof {
                            assert(cmds@.skip(1) =~= tail0);
                        }
                    }
                },
                _ => {},
            },
            OrchestratorEvent::CommandFinished(code) => match self.phase {
                Phase::Building => {
                    cmds.push(OrchestratorCommand::SignalBazelStatus(BazelStatus::Idle));
                    if code != 0 {
                        self.cycle_targets = Vec::new();
                        self.phase = Phase::Idle;
                        cmds.push(
                            OrchestratorCommand::SignalBuildStatus(BuildStatus::ActionsFailing),
                        );
                        cmds.push(
                            OrchestratorCommand::WaitForFiles {
                                since_when: self.invalid_since_when,
                            },
                        );
                    } else {
                        let mut labels: Vec<String> = Vec::new();
                        let mut k: usize = 0;
                        proof {
                            assert(self.cycle_targets@.take(0).filter(|t: Target| t.is_test) =~= Seq::<
                                Target,
                            >::empty());
                            assert(labels@ =~= test_labels(self.cycle_targets@.take(0)));
                        }
                        while k < self.cycle_targets.len()
                            invariant
                                k <= self.cycle_targets@.len(),
                                labels@ == test_labels(self.cycle_targets@.take(k as int)),
                            decreases self.cycle_targets@.len() - k,
                        {
                            proof {
                                crate::hydrated_stream::lemma_filter_take_succ(
                                    self.cycle_targets@,
                                    |t: Target| t.is_test,
                                    k as int,
                                );
                            }
                            if self.cycle_targets[k].is_test {
                                labels.push(self.cycle_targets[k].label.clone());
                                proof {
                                    assert(labels@ =~= test_labels(self.cycle_targets@.take(
                                        k as int + 1,
                                    )));
                                }
                            } else {
                                proof {
                                    assert(labels@ =~= test_labels(self.cycle_targets@.take(
                                        k as int + 1,
                                    )));
                                }
                            }
                            k = k + 1;
                        }
                        proof {
                            assert(self.cycle_targets@.take(self.cycle_targets@.len() as int)
                                =~= self.cycle_targets@);
                        }
                        if labels.len() > 0 {
                            self.phase = Phase::Testing;
                            cmds.push(OrchestratorCommand::SignalBazelStatus(BazelStatus::Test));
                            cmds.push(OrchestratorCommand::RunTests { labels });
                        } else {
                            cmds.push(
                                OrchestratorCommand::SignalBuildStatus(BuildStatus::ActionsGreen),
                            );
                            let mut tail = self.advance_distance();
                            let ghost tail0 = tail@;
                            cmds.append(&mut tail);
                            proof {
                                assert(cmds@.skip(2) =~= tail0);
                            }
                        }
                    }
                },
                Phase::Testing => {
                    cmds.push(OrchestratorCommand::SignalBazelStatus(BazelStatus::Idle));
                    if code != 0 {
                        self.cycle_targets = Vec::new();
                        self.phase = Phase::Idle;
                        cmds.push(
                            OrchestratorCommand::SignalBuildStatus(BuildStatus::ActionsFailing),
                        );
                        cmds.push(
                            OrchestratorCommand::WaitForFiles {
                                since_when: self.invalid_since_when,
                            },
                        );
                    } else {
                        cmds.push(OrchestratorCommand::SignalBuildStatus(BuildStatus::ActionsGreen));
                        let mut tail = self.advance_distance();
                        let ghost tail0 = tail@;
                        cmds.append(&mut tail);
                        proof {
                            assert(cmds@.skip(2) =~= tail0);
                        }
                    }
                },
                _ => {},
            },
        }
        cmds
    }
}

/// How many of the commands signal `ActionsFailing`.
pub open spec fn failing_signal_count(cmds: Seq<OrchestratorCommand>) -> nat
    decreases cmds.len(),
{
    if cmds.len() == 0 {
        0
    } else {
        failing_signal_count(cmds.drop_last()) + if cmds.last()
            == OrchestratorCommand::SignalBuildStatus(BuildStatus::ActionsFailing) {
            1nat
        } else {
            0nat
        }
    }
}

proof fn lemma_failing_count_zero(cmds: Seq<OrchestratorCommand>)
    requires
        forall|k: int|
            0 <= k < cmds.len() ==> cmds[k] != OrchestratorCommand::SignalBuildStatus(
                BuildStatus::ActionsFailing,
            ),
    ensures
        failing_signal_count(cmds) == 0,
    decreases cmds.len(),
{
    if cmds.len() > 0 {
        lemma_failing_count_zero(cmds.drop_last());
    }
}

/// Law: when the cycle completes at the maximum distance — the query at
/// that distance returns no affected targets — the accumulated dirty
/// files are cleared and the distance resets to 1.
pub proof fn lemma_cycle_completion_resets(
    pre: AutoTestOrchestrator,
    ts: Vec<Target>,
    post: AutoTestOrchestrator,
    cmds: Seq<OrchestratorCommand>,
)
    requires
        pre.phase is Querying,
        pre.cur_distance >= pre.max_distance,
        ts@.len() == 0,
        on_event_ok(pre, OrchestratorEvent::TargetsFound(ts), post, cmds),
    ensures
        post.phase is Idle,
        post.cur_distance == 1,
        post.dirty_files@ == Seq::<FileStatus>::empty(),
{
}

/// Law: a fully green build/test pass at the maximum distance also clears
/// the dirty files and resets the distance to 1.
pub proof fn lemma_green_cycle_at_max_resets(
    pre: AutoTestOrchestrator,
    post: AutoTestOrchestrator,
    cmds: Seq<OrchestratorCommand>,
)
    requires
        pre.phase is Testing || (pre.phase is Building && test_labels(pre.cycle_targets@).len()
            == 0),
        pre.cur_distance >= pre.max_distance,
        on_event_ok(pre, OrchestratorEvent::CommandFinished(0), post, cmds),
    ensures
        post.phase is Idle,
        post.cur_distance == 1,
        post.dirty_files@ == Seq::<FileStatus>::empty(),
{
}

/// Law: a build or test failure keeps the dirty files for the next cycle
/// untouched and signals `ActionsFailing` exactly once in that step.
pub proof fn lemma_failure_retains_dirty(
    pre: AutoTestOrchestrator,
    code: i32,
    post: AutoTestOrchestrator,
    cmds: Seq<OrchestratorCommand>,
)
    requires
        pre.phase is Building || pre.phase is Testing,
        code != 0,
        on_event_ok(pre, OrchestratorEvent::CommandFinished(code), post, cmds),
    ensures
        post.dirty_files == pre.dirty_files,
        post.cur_distance == pre.cur_distance,
        failing_signal_count(cmds) == 1,
{
    assert(cmds.drop_last() =~= cmds.take(2));
    assert(cmds.take(2).drop_last() =~= cmds.take(1));
    assert(cmds.take(1).drop_last() =~= cmds.take(0));
    assert(cmds.take(2).last() == cmds[1]);
    assert(cmds.take(1).last() == cmds[0]);
    assert(cmds.last() == cmds[2]);
    assert(failing_signal_count(cmds.take(0)) == 0);
    assert(failing_signal_count(cmds.take(1)) == 0);
    assert(failing_signal_count(cmds.take(2)) == 1);
    assert(failing_signal_count(cmds) == 1);
}

/// Law: no other step ever signals `ActionsFailing`: the signal of a
/// failed cycle is observed exactly once.
pub proof fn lemma_no_spurious_failing_signal(
    pre: AutoTestOrchestrator,
    event: OrchestratorEvent,
    post: AutoTestOrchestrator,
    cmds: Seq<OrchestratorCommand>,
)
    requires
        on_event_ok(pre, event, post, cmds),
        match event {
            OrchestratorEvent::CommandFinished(code) => code == 0 || !(pre.phase is Building
                || pre.phase is Testing),
            _ => true,
        },
    ensures
        failing_signal_count(cmds) == 0,
{
    assert forall|k: int|
        0 <= k < cmds.len() implies cmds[k] != OrchestratorCommand::SignalBuildStatus(
        BuildStatus::ActionsFailing,
    ) by {
        let failing = OrchestratorCommand::SignalBuildStatus(BuildStatus::ActionsFailing);
        match event {
            OrchestratorEvent::Shutdown => {
                assert(cmds[k] == OrchestratorCommand::Stop);
            },
            OrchestratorEvent::FilesChanged(files) => {},
            OrchestratorEvent::InstantNow(t) => {
                if pre.phase is AwaitingInstant {
                    if k < cmds.len() - 1 {
                        assert(cmds[k] == (OrchestratorCommand::NotifyFileChanged {
                            path: pre.pending_files@[k].path,
                        }));
                    } else {
                        assert(cmds[k] == cmds.last());
                        assert(cmds.last() is QueryTargets);
                    }
                }
            },
            OrchestratorEvent::TargetsInQuery => {},
            OrchestratorEvent::TargetsFound(ts) => {
                if pre.phase is Querying && ts@.len() == 0 {
                    if k >= 1 {
                        assert(cmds.skip(1)[k - 1] == cmds[k]);
                        let mid = AutoTestOrchestrator { bazel_in_query: false, ..pre };
                        if mid.cur_distance >= mid.max_distance {
                            let w = OrchestratorCommand::WaitForFiles {
                                since_when: mid.invalid_since_when,
                            };
                            assert(cmds.skip(1) == seq![w]);
                            assert(seq![w].len() == 1);
                            assert(seq![w][0] == w);
                            assert(k == 1);
                            assert(cmds[k] == w);
                        } else {
                            assert(cmds.skip(1)[0] is QueryTargets);
                        }
                    }
                }
            },
            OrchestratorEvent::CommandFinished(code) => {
                if pre.phase is Building && test_labels(pre.cycle_targets@).len() > 0 {
                    assert(cmds[2] is RunTests);
                } else if pre.phase is Building || pre.phase is Testing {
                    if k >= 2 {
                        assert(cmds.skip(2)[k - 2] == cmds[k]);
                        if pre.cur_distance >= pre.max_distance {
                            let w = OrchestratorCommand::WaitForFiles {
                                since_when: pre.invalid_since_when,
                            };
                            assert(cmds.skip(2) == seq![w]);
                            assert(seq![w].len() == 1);
                            assert(seq![w][0] == w);
                            assert(k == 2);
                            assert(cmds[k] == w);
                        } else {
                            assert(cmds.skip(2)[0] is QueryTargets);
                        }
                    }
                }
            },
        }
    }
    lemma_failing_count_zero(cmds);
}

} // verus!
