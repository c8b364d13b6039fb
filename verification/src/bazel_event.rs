use vstd::prelude::*;

verus! {

/// A reference to the contents of a produced file: either a URI or the
/// bytes themselves, mirroring the build-event protocol's file record.
#[derive(PartialEq, Debug)]
pub enum FileRef {
    Uri(String),
    Contents(Vec<u8>),
}

/// The mathematical value of a `FileRef`.
pub enum FileRefView {
    Uri(Seq<char>),
    Contents(Seq<u8>),
}

impl DeepView for FileRef {
    type V = FileRefView;

    open spec fn deep_view(&self) -> FileRefView {
        match self {
            FileRef::Uri(s) => FileRefView::Uri(s@),
            FileRef::Contents(b) => FileRefView::Contents(b@),
        }
    }
}

impl Clone for FileRef {
    fn clone(&self) -> (res: Self)
        ensures
            res.deep_view() == self.deep_view(),
    {
        match self {
            FileRef::Uri(s) => FileRef::Uri(s.clone()),
            FileRef::Contents(b) => {
                let mut copy: Vec<u8> = Vec::new();
                let mut i: usize = 0;
                while i < b.len()
                    invariant
                        i <= b.len(),
                        copy@ == b@.take(i as int),
                    decreases b.len() - i,
                {
                    copy.push(b[i]);
                    i = i + 1;
                    proof {
                        assert(copy@ =~= b@.take(i as int));
                    }
                }
                proof {
                    assert(copy@ =~= b@);
                }
                FileRef::Contents(copy)
            },
        }
    }
}

/// A named output file: the protocol names the file, prefixes its path,
/// and points at its contents.
#[derive(PartialEq, Debug)]
pub struct File {
    pub name: String,
    pub path_prefix: Vec<String>,
    pub file: Option<FileRef>,
}

/// The mathematical value of a `File`.
pub struct FileView {
    pub name: Seq<char>,
    pub path_prefix: Seq<Seq<char>>,
    pub file: Option<FileRefView>,
}

impl DeepView for File {
    type V = FileView;

    open spec fn deep_view(&self) -> FileView {
        FileView {
            name: self.name@,
            path_prefix: self.path_prefix.deep_view(),
            file: self.file.deep_view(),
        }
    }
}

impl Clone for File {
    fn clone(&self) -> (res: Self)
        ensures
            res.deep_view() == self.deep_view(),
    {
        let mut prefix: Vec<String> = Vec::new();
        let mut i: usize = 0;
        while i < self.path_prefix.len()
            invariant
                i <= self.path_prefix.len(),
                prefix@ == self.path_prefix@.take(i as int),
            decreases self.path_prefix.len() - i,
        {
            prefix.push(self.path_prefix[i].clone());
            i = i + 1;
            proof {
                assert(prefix@ =~= self.path_prefix@.take(i as int));
            }
        }
        let copied_ref: Option<FileRef> = match &self.file {
            Some(f) => Some(f.clone()),
            None => None,
        };
        proof {
            assert(prefix@ =~= self.path_prefix@);
        }
        File { name: self.name.clone(), path_prefix: prefix, file: copied_ref }
    }
}

/// A named, possibly recursive collection of output files: literal files
/// plus the identifiers of child file sets.
#[derive(PartialEq, Debug)]
pub struct NamedSetOfFiles {
    pub files: Vec<File>,
    pub file_sets: Vec<String>,
}

/// One output group of a target-completion record: a group name and the
/// identifiers of the file sets it references.
#[derive(PartialEq, Debug)]
pub struct OutputGroup {
    pub name: String,
    pub file_sets: Vec<String>,
}

/// A configuration record associating a target label with its rule kind.
#[derive(PartialEq, Debug)]
pub struct TargetConfiguredEvt {
    pub label: String,
    pub rule_kind: String,
}

/// An action-completion record.
#[derive(PartialEq, Debug)]
pub struct ActionCompletedEvt {
    pub label: String,
    pub success: bool,
    pub stdout: Option<FileRef>,
    pub stderr: Option<FileRef>,
}

/// A target-completion record; its "default" output group references the
/// file sets that make up the target's outputs.
#[derive(PartialEq, Debug)]
pub struct TargetCompletedEvt {
    pub label: String,
    pub aspect: Option<String>,
    pub success: bool,
    pub output_groups: Vec<OutputGroup>,
}

/// The outcome a test-result record reports.
#[derive(Clone, Copy, PartialEq, Eq, Debug)]
pub enum TestStatus {
    Passed,
    Flaky,
    Timeout,
    Failed,
    Incomplete,
    RemoteFailure,
    FailedToBuild,
    ToolHaltedBeforeTesting,
}

/// A test-result record.
#[derive(PartialEq, Debug)]
pub struct TestResultEvt {
    pub label: String,
    pub test_status: TestStatus,
}

/// A progress record carrying chunks of the build tool's stdout and stderr.
#[derive(PartialEq, Debug)]
pub struct ProgressEvt {
    pub stdout: String,
    pub stderr: String,
}

/// Why the build tool aborted.
#[derive(Clone, Copy, PartialEq, Eq, Debug)]
pub enum AbortReason {
    Unknown,
    UserInterrupted,
    NoAnalyze,
    NoBuild,
    TimeOut,
    RemoteEnvironmentFailure,
    Internal,
    LoadingFailure,
    AnalysisFailure,
    Skipped,
    OutOfMemory,
}

/// An abort record.
#[derive(PartialEq, Debug)]
pub struct AbortedEvt {
    pub label: Option<String>,
    pub reason: Option<AbortReason>,
    pub description: String,
}

/// One tagged build-lifecycle record of the protocol stream.
#[derive(PartialEq, Debug)]
pub enum Evt {
    BazelEvent,
    TargetConfigured(TargetConfiguredEvt),
    NamedSetOfFiles { id: String, named_set_of_files: NamedSetOfFiles },
    TargetCompleted(TargetCompletedEvt),
    ActionCompleted(ActionCompletedEvt),
    TestResult(TestResultEvt),
    Progress(ProgressEvt),
    Aborted(AbortedEvt),
    UnknownEvent,
}

/// A build event as delivered by the protocol source.
#[derive(PartialEq, Debug)]
pub struct BazelBuildEvent {
    pub event: Evt,
}

/// What the protocol source hands the hydrator: a build event, an opaque
/// lifecycle marker, or the end-of-build marker.
#[derive(PartialEq, Debug)]
pub enum BuildEventAction {
    BuildCompleted,
    LifecycleEvent,
    BuildEvent(BazelBuildEvent),
}

} // verus!
