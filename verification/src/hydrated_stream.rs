use vstd::prelude::*;
use crate::bazel_event::{
    AbortReason, ActionCompletedEvt, BazelBuildEvent, BuildEventAction, Evt, File,
    FileRef, FileRefView, FileView, NamedSetOfFiles, OutputGroup, ProgressEvt, TargetCompletedEvt,
    TargetConfiguredEvt, TestResultEvt,
};
use crate::string_kv::StringKeyMap;

verus! {

/// A failed action, hydrated with the rule kind configured earlier in the
/// same build (if any) and its stdout/stderr wrapped as named files.
#[derive(PartialEq, Debug)]
pub struct ActionFailedErrorInfo {
    pub label: String,
    pub stdout: Option<File>,
    pub stderr: Option<File>,
    pub target_kind: Option<String>,
}

/// A successful action, hydrated like `ActionFailedErrorInfo`.
#[derive(PartialEq, Debug)]
pub struct ActionSuccessInfo {
    pub label: String,
    pub stdout: Option<File>,
    pub stderr: Option<File>,
    pub target_kind: Option<String>,
}

/// A test result, hydrated with the rule kind configured earlier.
#[derive(PartialEq, Debug)]
pub struct TestResultInfo {
    pub test_summary_event: TestResultEvt,
    pub target_kind: Option<String>,
}

/// An abort reported by the build tool, passed through unchanged.
#[derive(PartialEq, Debug)]
pub struct BazelAbortErrorInfo {
    pub label: Option<String>,
    pub reason: Option<AbortReason>,
    pub description: String,
}

/// A completed target with its "default" output group fully resolved to a
/// flat list of files.
#[derive(PartialEq, Debug)]
pub struct TargetCompleteInfo {
    pub label: String,
    pub aspect: Option<String>,
    pub success: bool,
    pub target_kind: Option<String>,
    pub output_files: Vec<File>,
}

/// A self-contained domain event produced by the hydrator.
#[derive(PartialEq, Debug)]
pub enum HydratedInfo {
    BazelAbort(BazelAbortErrorInfo),
    ActionFailed(ActionFailedErrorInfo),
    Progress(ProgressEvt),
    TestResult(TestResultInfo),
    ActionSuccess(ActionSuccessInfo),
    TargetComplete(TargetCompleteInfo),
}

/// The sequence of files an optional file contributes.
pub open spec fn opt_file_seq(f: Option<FileView>) -> Seq<FileView> {
    match f {
        Some(x) => seq![x],
        None => Seq::empty(),
    }
}

impl ActionFailedErrorInfo {
    /// The stdout file (if any) followed by the stderr file (if any).
    pub fn files(&self) -> (r: Vec<File>)
        ensures
            r.deep_view() == opt_file_seq(self.stdout.deep_view()) + opt_file_seq(
                self.stderr.deep_view(),
            ),
    {
        let mut r: Vec<File> = Vec::new();
        if let Some(s) = self.stdout.as_ref() {
            r.push(s.clone());
        }
        if let Some(s) = self.stderr.as_ref() {
            r.push(s.clone());
        }
        proof {
            assert(r.deep_view() =~= opt_file_seq(self.stdout.deep_view()) + opt_file_seq(
                self.stderr.deep_view(),
            ));
        }
        r
    }
}

impl ActionSuccessInfo {
    /// The stdout file (if any) followed by the stderr file (if any).
    pub fn files(&self) -> (r: Vec<File>)
        ensures
            r.deep_view() == opt_file_seq(self.stdout.deep_view()) + opt_file_seq(
                self.stderr.deep_view(),
            ),
    {
        let mut r: Vec<File> = Vec::new();
        if let Some(s) = self.stdout.as_ref() {
            r.push(s.clone());
        }
        if let Some(s) = self.stderr.as_ref() {
            r.push(s.clone());
        }
        proof {
            assert(r.deep_view() =~= opt_file_seq(self.stdout.deep_view()) + opt_file_seq(
                self.stderr.deep_view(),
            ));
        }
        r
    }
}

/// Whether `kind` is exactly the rule kind that `rules` associates with
/// `label`: the stored kind when the label is known, `None` otherwise.
pub open spec fn kind_matches(
    rules: Map<Seq<char>, String>,
    label: Seq<char>,
    kind: Option<String>,
) -> bool {
    match kind {
        Some(k) => rules.contains_key(label) && k == rules[label],
        None => !rules.contains_key(label),
    }
}

/// Whether `dst` wraps the raw file reference `src` as a file named `name`
/// with an empty path prefix; an absent reference stays absent.
pub open spec fn wrapped_file(
    name: Seq<char>,
    src: Option<FileRefView>,
    dst: Option<FileView>,
) -> bool {
    match src {
        Some(f) => dst matches Some(file) && file == (FileView {
            name: name,
            path_prefix: Seq::empty(),
            file: Some(f),
        }),
        None => dst is None,
    }
}

/// The todo-list walk that flattens file-set references: pop an id, skip it
/// if already walked, fail if it is unknown, otherwise append the set's
/// literal files and queue its child ids. Ids already walked are not walked
/// again, so shared or cyclic references terminate.
pub open spec fn resolve_walk(
    sets: Map<Seq<char>, NamedSetOfFiles>,
    todo: Seq<String>,
    visited: Set<Seq<char>>,
    acc: Seq<FileView>,
) -> Option<Seq<FileView>>
    decreases sets.dom().difference(visited).len(), todo.len(),
        when sets.dom().finite()
        via resolve_walk_decreases
{
    if todo.len() == 0 {
        Some(acc)
    } else {
        let head = todo.last();
        if visited.contains(head@) {
            resolve_walk(sets, todo.drop_last(), visited, acc)
        } else if sets.contains_key(head@) {
            let ns = sets[head@];
            resolve_walk(
                sets,
                todo.drop_last() + ns.file_sets@,
                visited.insert(head@),
                acc + ns.files.deep_view(),
            )
        } else {
            None
        }
    }
}

#[via_fn]
proof fn resolve_walk_decreases(
    sets: Map<Seq<char>, NamedSetOfFiles>,
    todo: Seq<String>,
    visited: Set<Seq<char>>,
    acc: Seq<FileView>,
) {
    broadcast use vstd::set_lib::lemma_set_subset_finite;

    if todo.len() > 0 {
        let head = todo.last();
        if !visited.contains(head@) && sets.contains_key(head@) {
            let diff = sets.dom().difference(visited);
            assert(diff.subset_of(sets.dom()));
            assert(diff.contains(head@));
            assert(sets.dom().difference(visited.insert(head@)) =~= diff.remove(head@));
        }
    }
}

/// The first output group named "default", if any.
pub open spec fn find_default_group(groups: Seq<OutputGroup>) -> Option<OutputGroup>
    decreases groups.len(),
{
    if groups.len() == 0 {
        None
    } else if groups.first().name@ == "default"@ {
        Some(groups.first())
    } else {
        find_default_group(groups.drop_first())
    }
}

/// The flattened files of a target completion's "default" output group:
/// `None` when a referenced file-set id is not (yet) known; a record with
/// no "default" group resolves to no files.
pub open spec fn resolve_tce(
    sets: Map<Seq<char>, NamedSetOfFiles>,
    tce: TargetCompletedEvt,
) -> Option<Seq<FileView>> {
    match find_default_group(tce.output_groups@) {
        Some(grp) => resolve_walk(sets, grp.file_sets@, Set::empty(), Seq::empty()),
        None => Some(Seq::empty()),
    }
}

/// Whether `info` is the hydrated completion event for `tce`: resolution
/// succeeded, the resolved flat file list is attached, and the rule kind is
/// the one `rules` knows for the label.
pub open spec fn tce_complete_matches(
    rules: Map<Seq<char>, String>,
    sets: Map<Seq<char>, NamedSetOfFiles>,
    tce: TargetCompletedEvt,
    info: TargetCompleteInfo,
) -> bool {
    &&& resolve_tce(sets, tce) matches Some(files) && info.output_files.deep_view() == files
    &&& info.label == tce.label
    &&& info.aspect == tce.aspect
    &&& info.success == tce.success
    &&& kind_matches(rules, tce.label@, info.target_kind)
}

/// The pending completions that still cannot resolve against `sets`,
/// in arrival order.
pub open spec fn still_pending(
    sets: Map<Seq<char>, NamedSetOfFiles>,
    pending: Seq<TargetCompletedEvt>,
) -> Seq<TargetCompletedEvt> {
    pending.filter(|t: TargetCompletedEvt| resolve_tce(sets, t) is None)
}

/// The pending completions that resolve against `sets`, in arrival order.
pub open spec fn now_resolved(
    sets: Map<Seq<char>, NamedSetOfFiles>,
    pending: Seq<TargetCompletedEvt>,
) -> Seq<TargetCompletedEvt> {
    pending.filter(|t: TargetCompletedEvt| resolve_tce(sets, t) is Some)
}

/// Whether `out` emits, in order, exactly one hydrated completion event for
/// each record in `resolved`.
pub open spec fn emits_resolved(
    rules: Map<Seq<char>, String>,
    sets: Map<Seq<char>, NamedSetOfFiles>,
    resolved: Seq<TargetCompletedEvt>,
    out: Seq<Option<HydratedInfo>>,
) -> bool {
    &&& out.len() == resolved.len()
    &&& forall|k: int|
        0 <= k < resolved.len() ==> is_complete_emission(rules, sets, resolved[k], #[trigger] out[k])
}

/// Whether `o` is a hydrated completion event for `tce`.
pub open spec fn is_complete_emission(
    rules: Map<Seq<char>, String>,
    sets: Map<Seq<char>, NamedSetOfFiles>,
    tce: TargetCompletedEvt,
    o: Option<HydratedInfo>,
) -> bool {
    o matches Some(HydratedInfo::TargetComplete(info)) && tce_complete_matches(
        rules,
        sets,
        tce,
        info,
    )
}

/// Whether `e` is the hydrated form of the failed action `ace`.
pub open spec fn action_failed_matches(
    rules: Map<Seq<char>, String>,
    ace: ActionCompletedEvt,
    e: ActionFailedErrorInfo,
) -> bool {
    &&& e.label == ace.label
    &&& wrapped_file("stdout"@, ace.stdout.deep_view(), e.stdout.deep_view())
    &&& wrapped_file("stderr"@, ace.stderr.deep_view(), e.stderr.deep_view())
    &&& kind_matches(rules, ace.label@, e.target_kind)
}

/// Whether `e` is the hydrated form of the successful action `ace`.
pub open spec fn action_success_matches(
    rules: Map<Seq<char>, String>,
    ace: ActionCompletedEvt,
    e: ActionSuccessInfo,
) -> bool {
    &&& e.label == ace.label
    &&& wrapped_file("stdout"@, ace.stdout.deep_view(), e.stdout.deep_view())
    &&& wrapped_file("stderr"@, ace.stderr.deep_view(), e.stderr.deep_view())
    &&& kind_matches(rules, ace.label@, e.target_kind)
}

/// The hydrator's cross-reference state, abstractly: the rule kinds and
/// file sets seen so far, and the completions awaiting unresolved file sets.
pub struct HydratorView {
    pub rules: Map<Seq<char>, String>,
    pub sets: Map<Seq<char>, NamedSetOfFiles>,
    pub pending: Seq<TargetCompletedEvt>,
}

/// What one protocol item does to the hydrator: how the state changes and
/// exactly which domain events come out, in order.
pub open spec fn hydrate_step_ok(
    pre: HydratorView,
    action: BuildEventAction,
    post: HydratorView,
    out: Seq<Option<HydratedInfo>>,
) -> bool {
    match action {
        BuildEventAction::BuildCompleted => {
            &&& post.rules == Map::<Seq<char>, String>::empty()
            &&& post.sets == pre.sets
            &&& post.pending == pre.pending
            &&& out == seq![None::<HydratedInfo>]
        },
        BuildEventAction::LifecycleEvent => post == pre && out == Seq::<
            Option<HydratedInfo>,
        >::empty(),
        BuildEventAction::BuildEvent(msg) => match msg.event {
            Evt::BazelEvent => post == pre && out == Seq::<Option<HydratedInfo>>::empty(),
            Evt::UnknownEvent => post == pre && out == Seq::<Option<HydratedInfo>>::empty(),
            Evt::TargetConfigured(t) => {
                &&& post.rules == pre.rules.insert(t.label@, t.rule_kind)
                &&& post.sets == pre.sets
                &&& post.pending == pre.pending
                &&& out == Seq::<Option<HydratedInfo>>::empty()
            },
            Evt::NamedSetOfFiles { id, named_set_of_files } => {
                &&& post.rules == pre.rules
                &&& post.sets == pre.sets.insert(id@, named_set_of_files)
                &&& post.pending == still_pending(post.sets, pre.pending)
                &&& emits_resolved(pre.rules, post.sets, now_resolved(post.sets, pre.pending), out)
            },
            Evt::TargetCompleted(tce) => match resolve_tce(pre.sets, tce) {
                Some(_) => {
                    &&& post == pre
                    &&& out.len() == 1
                    &&& out[0] matches Some(HydratedInfo::TargetComplete(info))
                        && tce_complete_matches(pre.rules, pre.sets, tce, info)
                },
                None => {
                    &&& post.rules == pre.rules
                    &&& post.sets == pre.sets
                    &&& post.pending == pre.pending.push(tce)
                    &&& out == Seq::<Option<HydratedInfo>>::empty()
                },
            },
            Evt::ActionCompleted(ace) => {
                &&& post == pre
                &&& out.len() == 1
                &&& if ace.success {
                    out[0] matches Some(HydratedInfo::ActionSuccess(e)) && action_success_matches(
                        pre.rules,
                        ace,
                        e,
                    )
                } else {
                    out[0] matches Some(HydratedInfo::ActionFailed(e)) && action_failed_matches(
                        pre.rules,
                        ace,
                        e,
                    )
                }
            },
            Evt::TestResult(t) => {
                &&& post == pre
                &&& out.len() == 1
                &&& out[0] matches Some(HydratedInfo::TestResult(info))
                    && info.test_summary_event == t && kind_matches(
                    pre.rules,
                    t.label@,
                    info.target_kind,
                )
            },
            Evt::Progress(p) => post == pre && out == seq![Some(HydratedInfo::Progress(p))],
            Evt::Aborted(a) => {
                &&& post == pre
                &&& out.len() == 1
                &&& out[0] matches Some(HydratedInfo::BazelAbort(e)) && e.label == a.label
                    && e.reason == a.reason && e.description == a.description
            },
        },
    }
}

/// The set of character sequences a vector of strings denotes.
pub open spec fn str_views(v: Seq<String>) -> Set<Seq<char>> {
    Set::new(|k: Seq<char>| exists|i: int| 0 <= i < v.len() && v[i]@ == k)
}

fn contains_string(v: &Vec<String>, s: &String) -> (r: bool)
    ensures
        r == str_views(v@).contains(s@),
{
    let mut i: usize = 0;
    while i < v.len()
        invariant
            i <= v@.len(),
            forall|j: int| 0 <= j < i ==> v@[j]@ != s@,
        decreases v@.len() - i,
    {
        if v[i] == *s {
            proof {
                assert(str_views(v@).contains(s@)) by {
                    assert(0 <= i < v@.len() && v@[i as int]@ == s@);
                }
            }
            return true;
        }
        i = i + 1;
    }
    false
}

fn lookup_kind(rules: &StringKeyMap<String>, label: &String) -> (r: Option<String>)
    ensures
        kind_matches(rules@, label@, r),
{
    match rules.get(label) {
        Some(k) => Some(k.clone()),
        None => None,
    }
}

/// Flattens the file sets reachable from `ids` into `results`. Returns
/// `false`, leaving `results` unspecified, if a reachable id is unknown.
#[verifier::loop_isolation(false)]
pub fn recursive_lookup(
    lut: &StringKeyMap<NamedSetOfFiles>,
    results: &mut Vec<File>,
    ids: &Vec<String>,
) -> (found: bool)
    ensures
        found == (resolve_walk(lut@, ids@, Set::empty(), old(results).deep_view()) is Some),
        found ==> Some(final(results).deep_view()) == resolve_walk(
            lut@,
            ids@,
            Set::empty(),
            old(results).deep_view(),
        ),
{
    broadcast use vstd::set_lib::lemma_set_subset_finite;

    let ghost target = resolve_walk(lut@, ids@, Set::empty(), old(results).deep_view());
    proof {
        lut.lemma_view_finite();
        assert(str_views(Seq::<String>::empty()) =~= Set::<Seq<char>>::empty());
    }
    let mut todo: Vec<String> = Vec::new();
    let mut c: usize = 0;
    while c < ids.len()
        invariant
            c <= ids@.len(),
            todo@ == ids@.take(c as int),
        decreases ids@.len() - c,
    {
        todo.push(ids[c].clone());
        c = c + 1;
        proof {
            assert(todo@ =~= ids@.take(c as int));
        }
    }
    proof {
        assert(todo@ =~= ids@);
    }
    let mut visited: Vec<String> = Vec::new();
    while todo.len() > 0
        invariant
            lut@.dom().finite(),
            resolve_walk(lut@, todo@, str_views(visited@), results.deep_view()) == target,
        decreases lut@.dom().difference(str_views(visited@)).len(), todo@.len(),
    {
        let ghost pre_todo = todo@;
        let ghost pre_visited = str_views(visited@);
        let head = match todo.pop() {
            Some(h) => h,
            None => {
                proof {
                    assert(false);
                }
                return false;
            },
        };
        proof {
            assert(pre_todo.last() == head);
            assert(todo@ =~= pre_todo.drop_last());
        }
        if contains_string(&visited, &head) {
            proof {
                assert(resolve_walk(lut@, pre_todo, pre_visited, results.deep_view())
                    == resolve_walk(lut@, todo@, pre_visited, results.deep_view()));
            }
        } else {
            match lut.get(&head) {
                Some(r) => {
                    let ghost res0 = results.deep_view();
                    proof {
                        assert(results.deep_view() =~= res0 + r.files.deep_view().take(0));
                    }
                    let mut j: usize = 0;
                    while j < r.files.len()
                        invariant
                            j <= r.files@.len(),
                            results.deep_view() == res0 + r.files.deep_view().take(j as int),
                        decreases r.files@.len() - j,
                    {
                        let ghost pre_files = results.deep_view();
                        let copied = r.files[j].clone();
                        proof {
                            assert(copied.deep_view() == r.files@[j as int].deep_view());
                        }
                        results.push(copied);
                        j = j + 1;
                        proof {
                            assert(results.deep_view() =~= pre_files.push(
                                r.files@[j as int - 1].deep_view(),
                            ));
                            assert(r.files.deep_view().take(j as int)
                                =~= r.files.deep_view().take(j as int - 1).push(
                                r.files@[j as int - 1].deep_view(),
                            ));
                            assert(results.deep_view() =~= res0 + r.files.deep_view().take(
                                j as int,
                            ));
                        }
                    }
                    proof {
                        assert(results.deep_view() =~= res0 + r.files.deep_view());
                    }
                    let ghost todo0 = todo@;
                    let mut j2: usize = 0;
                    while j2 < r.file_sets.len()
                        invariant
                            j2 <= r.file_sets@.len(),
                            todo@ == todo0 + r.file_sets@.take(j2 as int),
                        decreases r.file_sets@.len() - j2,
                    {
                        todo.push(r.file_sets[j2].clone());
                        j2 = j2 + 1;
                        proof {
                            assert(todo@ =~= todo0 + r.file_sets@.take(j2 as int));
                        }
                    }
                    proof {
                        assert(todo@ =~= todo0 + r.file_sets@);
                    }
                    let ghost visited0 = visited@;
                    visited.push(head);
                    proof {
                        assert(str_views(visited@) =~= pre_visited.insert(pre_todo.last()@)) by {
                            assert forall|k: Seq<char>|
                                str_views(visited@).contains(k)
                                    <==> pre_visited.insert(pre_todo.last()@).contains(k) by {
                                if str_views(visited@).contains(k) {
                                    let i = choose|i: int|
                                        0 <= i < visited@.len() && visited@[i]@ == k;
                                    if i < visited0.len() {
                                        assert(visited0[i]@ == k);
                                    }
                                }
                                if pre_visited.contains(k) {
                                    let i = choose|i: int|
                                        0 <= i < visited0.len() && visited0[i]@ == k;
                                    assert(visited@[i]@ == k);
                                }
                                if k == pre_todo.last()@ {
                                    assert(visited@[visited@.len() - 1]@ == k);
                                }
                            }
                        }
                        assert(lut@.dom().difference(str_views(visited@)) =~= lut@.dom().difference(
                            pre_visited,
                        ).remove(pre_todo.last()@));
                        assert(lut@.dom().difference(pre_visited).contains(pre_todo.last()@));
                        assert(lut@.dom().difference(pre_visited).subset_of(lut@.dom()));
                        assert(lut@[pre_todo.last()@] == *r);
                        assert(resolve_walk(lut@, pre_todo, pre_visited, res0) == resolve_walk(
                            lut@,
                            pre_todo.drop_last() + r.file_sets@,
                            pre_visited.insert(pre_todo.last()@),
                            res0 + r.files.deep_view(),
                        ));
                        assert(todo@ == pre_todo.drop_last() + r.file_sets@);
                        assert(str_views(visited@) == pre_visited.insert(pre_todo.last()@));
                        assert(resolve_walk(lut@, todo@, str_views(visited@), results.deep_view())
                            == target);
                    }
                },
                None => {
                    proof {
                        assert(resolve_walk(lut@, pre_todo, pre_visited, results.deep_view())
                            is None);
                        assert(target is None);
                    }
                    return false;
                },
            }
        }
    }
    proof {
        assert(target == Some(results.deep_view()));
    }
    true
}

fn find_default_group_index(groups: &Vec<OutputGroup>) -> (r: Option<usize>)
    ensures
        match r {
            Some(i) => i < groups@.len() && find_default_group(groups@) == Some(groups@[i as int]),
            None => find_default_group(groups@) is None,
        },
{
    let default_name: String = "default".to_owned();
    let mut i: usize = 0;
    proof {
        assert(groups@.skip(0) =~= groups@);
    }
    while i < groups.len()
        invariant
            i <= groups@.len(),
            default_name@ == "default"@,
            find_default_group(groups@) == find_default_group(groups@.skip(i as int)),
        decreases groups@.len() - i,
    {
        if groups[i].name == default_name {
            proof {
                assert(groups@.skip(i as int).first() == groups@[i as int]);
                assert(groups@.skip(i as int).len() > 0);
            }
            return Some(i);
        }
        i = i + 1;
        proof {
            let ghost pre = groups@.skip(i as int - 1);
            assert(pre.first() == groups@[i as int - 1]);
            assert(pre.first().name@ != "default"@);
            assert(pre.drop_first() =~= groups@.skip(i as int));
            assert(find_default_group(pre) == find_default_group(groups@.skip(i as int)));
        }
    }
    proof {
        assert(groups@.skip(groups@.len() as int).len() == 0);
    }
    None
}

/// Hydrates one target-completion record: emits the completed event when
/// every referenced file set is known, otherwise defers the record onto
/// `to_revisit` and emits nothing.
pub fn tce_event(
    tce: TargetCompletedEvt,
    rule_kind_lookup: &StringKeyMap<String>,
    named_set_of_files_lookup: &StringKeyMap<NamedSetOfFiles>,
    to_revisit: &mut Vec<TargetCompletedEvt>,
) -> (r: Option<TargetCompleteInfo>)
    ensures
        match resolve_tce(named_set_of_files_lookup@, tce) {
            Some(_) => {
                &&& r matches Some(info) && tce_complete_matches(
                    rule_kind_lookup@,
                    named_set_of_files_lookup@,
                    tce,
                    info,
                )
                &&& final(to_revisit)@ == old(to_revisit)@
            },
            None => r is None && final(to_revisit)@ == old(to_revisit)@.push(tce),
        },
{
    let mut output_files: Vec<File> = Vec::new();
    proof {
        assert(output_files.deep_view() =~= Seq::<FileView>::empty());
    }
    let found_everything: bool = match find_default_group_index(&tce.output_groups) {
        Some(gi) => {
            let grp = &tce.output_groups[gi];
            let mut set_ids: Vec<String> = Vec::new();
            let mut j: usize = 0;
            while j < grp.file_sets.len()
                invariant
                    j <= grp.file_sets@.len(),
                    set_ids@ == grp.file_sets@.take(j as int),
                decreases grp.file_sets@.len() - j,
            {
                set_ids.push(grp.file_sets[j].clone());
                j = j + 1;
                proof {
                    assert(set_ids@ =~= grp.file_sets@.take(j as int));
                }
            }
            proof {
                assert(set_ids@ =~= grp.file_sets@);
            }
            recursive_lookup(named_set_of_files_lookup, &mut output_files, &set_ids)
        },
        None => true,
    };
    if found_everything {
        let target_kind = lookup_kind(rule_kind_lookup, &tce.label);
        Some(
            TargetCompleteInfo {
                output_files,
                target_kind,
                aspect: tce.aspect,
                label: tce.label,
                success: tce.success,
            },
        )
    } else {
        to_revisit.push(tce);
        None
    }
}

/// The hydrator: consumes protocol items one at a time, keeps the
/// cross-reference state, and yields the hydrated events each item causes.
/// `process` returning an empty vector means the item was absorbed into the
/// state; a `None` element marks a build boundary.
pub struct HydratorState {
    rule_kind_lookup: StringKeyMap<String>,
    named_set_of_files_lookup: StringKeyMap<NamedSetOfFiles>,
    buffered_tce: Vec<TargetCompletedEvt>,
}

impl View for HydratorState {
    type V = HydratorView;

    closed spec fn view(&self) -> HydratorView {
        HydratorView {
            rules: self.rule_kind_lookup@,
            sets: self.named_set_of_files_lookup@,
            pending: self.buffered_tce@,
        }
    }
}

/// Filtering a one-longer prefix keeps the filtered prefix and appends
/// the new element exactly when it satisfies the predicate.
pub proof fn lemma_filter_take_succ<A>(s: Seq<A>, p: spec_fn(A) -> bool, k: int)
    requires
        0 <= k < s.len(),
    ensures
        s.take(k + 1).filter(p) == if p(s[k]) {
            s.take(k).filter(p).push(s[k])
        } else {
            s.take(k).filter(p)
        },
{
    let a = s.take(k);
    let b = s.take(k + 1);
    reveal_with_fuel(Seq::filter, 2);
    assert(b.drop_last() =~= a);
    assert(b.last() == s[k]);
    assert(b.len() > 0);
    assert(b.filter(p) == if p(b.last()) {
        b.drop_last().filter(p).push(b.last())
    } else {
        b.drop_last().filter(p)
    });
}

impl HydratorState {
    /// A hydrator with no accumulated cross-reference state.
    pub fn new() -> (r: Self)
        ensures
            r@.rules == Map::<Seq<char>, String>::empty(),
            r@.sets == Map::<Seq<char>, NamedSetOfFiles>::empty(),
            r@.pending == Seq::<TargetCompletedEvt>::empty(),
    {
        HydratorState {
            rule_kind_lookup: StringKeyMap::new(),
            named_set_of_files_lookup: StringKeyMap::new(),
            buffered_tce: Vec::new(),
        }
    }

    /// The proof that this state's lookup tables are finite.
    pub proof fn lemma_wf(&self)
        ensures
            self@.sets.dom().finite(),
            self@.rules.dom().finite(),
    {
        self.named_set_of_files_lookup.lemma_view_finite();
        self.rule_kind_lookup.lemma_view_finite();
    }

    /// Consumes one protocol item and returns the hydrated events it
    /// causes, in emission order.
    pub fn process(&mut self, action: BuildEventAction) -> (out: Vec<Option<HydratedInfo>>)
        ensures
            hydrate_step_ok(old(self)@, action, final(self)@, out@),
    {
        let mut out: Vec<Option<HydratedInfo>> = Vec::new();
        proof {
            assert(out@ =~= Seq::<Option<HydratedInfo>>::empty());
        }
        match action {
            BuildEventAction::BuildCompleted => {
                self.rule_kind_lookup.clear();
                out.push(None);
                proof {
                    assert(out@ =~= seq![None::<HydratedInfo>]);
                }
            },
            BuildEventAction::LifecycleEvent => {},
            BuildEventAction::BuildEvent(msg) => match msg.event {
                Evt::BazelEvent => {},
                Evt::UnknownEvent => {},
                Evt::TargetConfigured(t) => {
                    self.rule_kind_lookup.insert(t.label, t.rule_kind);
                },
                Evt::NamedSetOfFiles { id, named_set_of_files } => {
                    self.named_set_of_files_lookup.insert(id, named_set_of_files);
                    let mut tmp: Vec<TargetCompletedEvt> = Vec::new();
                    core::mem::swap(&mut tmp, &mut self.buffered_tce);
                    let ghost p0 = tmp@;
                    let ghost sets1 = self.named_set_of_files_lookup@;
                    let ghost rules0 = self.rule_kind_lookup@;
                    let ghost unresolved_p = |t: TargetCompletedEvt| resolve_tce(sets1, t) is None;
                    let ghost resolved_p = |t: TargetCompletedEvt| resolve_tce(sets1, t) is Some;
                    let ghost mut k: int = 0;
                    proof {
                        assert(p0.take(0).filter(unresolved_p) =~= Seq::<
                            TargetCompletedEvt,
                        >::empty());
                        assert(p0.take(0).filter(resolved_p) =~= Seq::<TargetCompletedEvt>::empty());
                    }
                    while tmp.len() > 0
                        invariant
                            0 <= k <= p0.len(),
                            tmp@ == p0.skip(k),
                            self.named_set_of_files_lookup@ == sets1,
                            self.rule_kind_lookup@ == rules0,
                            unresolved_p == (|t: TargetCompletedEvt| resolve_tce(sets1, t) is None),
                            resolved_p == (|t: TargetCompletedEvt| resolve_tce(sets1, t) is Some),
                            self.buffered_tce@ == p0.take(k).filter(unresolved_p),
                            emits_resolved(rules0, sets1, p0.take(k).filter(resolved_p), out@),
                        decreases tmp@.len(),
                    {
                        let ghost tmp_pre = tmp@;
                        let tce = tmp.remove(0);
                        proof {
                            assert(tce == p0[k]);
                            assert(tmp@ =~= p0.skip(k + 1));
                        }
                        let ghost out_pre = out@;
                        let ghost buf_pre = self.buffered_tce@;
                        match tce_event(
                            tce,
                            &self.rule_kind_lookup,
                            &self.named_set_of_files_lookup,
                            &mut self.buffered_tce,
                        ) {
                            Some(info) => {
                                out.push(Some(HydratedInfo::TargetComplete(info)));
                            },
                            None => {},
                        }
                        proof {
                            lemma_filter_take_succ(p0, unresolved_p, k);
                            lemma_filter_take_succ(p0, resolved_p, k);
                            k = k + 1;
                        }
                    }
                    proof {
                        assert(p0.take(k) =~= p0);
                        assert(still_pending(sets1, p0) == p0.filter(unresolved_p));
                        assert(now_resolved(sets1, p0) == p0.filter(resolved_p));
                    }
                },
                Evt::TargetCompleted(tce) => {
                    match tce_event(
                        tce,
                        &self.rule_kind_lookup,
                        &self.named_set_of_files_lookup,
                        &mut self.buffered_tce,
                    ) {
                        Some(info) => {
                            out.push(Some(HydratedInfo::TargetComplete(info)));
                        },
                        None => {},
                    }
                },
                Evt::ActionCompleted(ace) => {
                    let target_kind = lookup_kind(&self.rule_kind_lookup, &ace.label);
                    if !ace.success {
                        let err_info = ActionFailedErrorInfo {
                            stdout: wrap_opt_file("stdout", ace.stdout),
                            stderr: wrap_opt_file("stderr", ace.stderr),
                            target_kind,
                            label: ace.label,
                        };
                        out.push(Some(HydratedInfo::ActionFailed(err_info)));
                    } else {
                        let act_info = ActionSuccessInfo {
                            stdout: wrap_opt_file("stdout", ace.stdout),
                            stderr: wrap_opt_file("stderr", ace.stderr),
                            target_kind,
                            label: ace.label,
                        };
                        out.push(Some(HydratedInfo::ActionSuccess(act_info)));
                    }
                },
                Evt::TestResult(tfe) => {
                    let target_kind = lookup_kind(&self.rule_kind_lookup, &tfe.label);
                    out.push(
                        Some(
                            HydratedInfo::TestResult(
                                TestResultInfo { target_kind, test_summary_event: tfe },
                            ),
                        ),
                    );
                },
                Evt::Progress(progress) => {
                    out.push(Some(HydratedInfo::Progress(progress)));
                },
                Evt::Aborted(tfe) => {
                    let err_info = BazelAbortErrorInfo {
                        reason: tfe.reason,
                        description: tfe.description,
                        label: tfe.label,
                    };
                    out.push(Some(HydratedInfo::BazelAbort(err_info)));
                },
            },
        }
        out
    }
}

fn wrap_std_file(name: &str, fr: FileRef) -> (r: File)
    ensures
        r.deep_view() == (FileView {
            name: name@,
            path_prefix: Seq::empty(),
            file: Some(fr.deep_view()),
        }),
{
    let f = File { name: name.to_owned(), path_prefix: Vec::new(), file: Some(fr) };
    proof {
        assert(f.path_prefix.deep_view() =~= Seq::<Seq<char>>::empty());
    }
    f
}

fn wrap_opt_file(name: &str, fr: Option<FileRef>) -> (r: Option<File>)
    ensures
        wrapped_file(name@, fr.deep_view(), r.deep_view()),
{
    match fr {
        Some(f) => Some(wrap_std_file(name, f)),
        None => None,
    }
}


/// The protocol action that carries one build event.
pub open spec fn build_event(e: Evt) -> BuildEventAction {
    BuildEventAction::BuildEvent(BazelBuildEvent { event: e })
}

/// The rule kind a hydrated event carries, if its payload has one.
pub open spec fn target_kind_of(o: Option<HydratedInfo>) -> Option<String> {
    match o {
        Some(HydratedInfo::ActionFailed(e)) => e.target_kind,
        Some(HydratedInfo::ActionSuccess(e)) => e.target_kind,
        Some(HydratedInfo::TestResult(e)) => e.target_kind,
        Some(HydratedInfo::TargetComplete(e)) => e.target_kind,
        _ => None,
    }
}

proof fn lemma_rules_after_configs(
    states: Seq<HydratorView>,
    cfgs: Seq<TargetConfiguredEvt>,
    outs: Seq<Seq<Option<HydratedInfo>>>,
    l: Seq<char>,
    i: int,
)
    requires
        states.len() == cfgs.len() + 1,
        outs.len() == cfgs.len(),
        forall|j: int|
            0 <= j < cfgs.len() ==> hydrate_step_ok(
                states[j],
                build_event(Evt::TargetConfigured(#[trigger] cfgs[j])),
                states[j + 1],
                outs[j],
            ),
        0 <= i < cfgs.len(),
        cfgs[i].label@ == l,
        forall|j: int| i < j < cfgs.len() ==> (#[trigger] cfgs[j]).label@ != l,
    ensures
        states.last().rules.contains_key(l),
        states.last().rules[l] == cfgs[i].rule_kind,
    decreases cfgs.len(),
{
    let n: int = cfgs.len() as int;
    assert(hydrate_step_ok(
        states[n - 1],
        build_event(Evt::TargetConfigured(cfgs[n - 1])),
        states[n],
        outs[n - 1],
    ));
    if i < n - 1 {
        lemma_rules_after_configs(states.drop_last(), cfgs.drop_last(), outs.drop_last(), l, i);
        assert(states.drop_last().last() == states[n - 1]);
    }
}

/// For every sequence of configuration records followed by an
/// action-completion record for the same label, the emitted event carries
/// exactly the rule kind of the last configuration record for that label.
pub proof fn lemma_configured_kind_attached(
    states: Seq<HydratorView>,
    cfgs: Seq<TargetConfiguredEvt>,
    outs: Seq<Seq<Option<HydratedInfo>>>,
    ace: ActionCompletedEvt,
    post: HydratorView,
    out: Seq<Option<HydratedInfo>>,
    i: int,
)
    requires
        states.len() == cfgs.len() + 1,
        outs.len() == cfgs.len(),
        forall|j: int|
            0 <= j < cfgs.len() ==> hydrate_step_ok(
                states[j],
                build_event(Evt::TargetConfigured(#[trigger] cfgs[j])),
                states[j + 1],
                outs[j],
            ),
        hydrate_step_ok(states.last(), build_event(Evt::ActionCompleted(ace)), post, out),
        0 <= i < cfgs.len(),
        cfgs[i].label@ == ace.label@,
        forall|j: int| i < j < cfgs.len() ==> (#[trigger] cfgs[j]).label@ != ace.label@,
    ensures
        out.len() == 1,
        target_kind_of(out[0]) == Some(cfgs[i].rule_kind),
{
    lemma_rules_after_configs(states, cfgs, outs, ace.label@, i);
}

/// A deferred target completion: while its file-set ids are unknown,
/// nothing is emitted and the record waits; the file-set record that
/// completes its resolution makes it emit exactly one completion event
/// carrying the fully resolved, flattened file list.
pub proof fn lemma_deferred_target_completion(
    pre: HydratorView,
    tce: TargetCompletedEvt,
    mid: HydratorView,
    out1: Seq<Option<HydratedInfo>>,
    id: String,
    nsf: NamedSetOfFiles,
    post: HydratorView,
    out2: Seq<Option<HydratedInfo>>,
)
    requires
        pre.pending == Seq::<TargetCompletedEvt>::empty(),
        resolve_tce(pre.sets, tce) is None,
        hydrate_step_ok(pre, build_event(Evt::TargetCompleted(tce)), mid, out1),
        hydrate_step_ok(
            mid,
            build_event(Evt::NamedSetOfFiles { id, named_set_of_files: nsf }),
            post,
            out2,
        ),
        resolve_tce(pre.sets.insert(id@, nsf), tce) is Some,
    ensures
        out1 == Seq::<Option<HydratedInfo>>::empty(),
        out2.len() == 1,
        is_complete_emission(pre.rules, pre.sets.insert(id@, nsf), tce, out2[0]),
        post.pending == Seq::<TargetCompletedEvt>::empty(),
{
    reveal_with_fuel(Seq::filter, 3);
    assert(mid.pending =~= seq![tce]);
    let sets2 = mid.sets.insert(id@, nsf);
    assert(sets2 == pre.sets.insert(id@, nsf));
    assert(seq![tce].drop_last() =~= Seq::<TargetCompletedEvt>::empty());
    assert(still_pending(sets2, mid.pending) =~= Seq::<TargetCompletedEvt>::empty());
    assert(now_resolved(sets2, mid.pending) =~= seq![tce]);
    assert(post.pending == still_pending(sets2, mid.pending));
}

/// A build-completion marker emits exactly one `None` and clears the
/// rule-kind associations: an action completion right after the boundary
/// carries no target kind, whatever was configured before it.
pub proof fn lemma_build_boundary_clears_kinds(
    pre: HydratorView,
    mid: HydratorView,
    out1: Seq<Option<HydratedInfo>>,
    ace: ActionCompletedEvt,
    post: HydratorView,
    out2: Seq<Option<HydratedInfo>>,
)
    requires
        hydrate_step_ok(pre, BuildEventAction::BuildCompleted, mid, out1),
        hydrate_step_ok(mid, build_event(Evt::ActionCompleted(ace)), post, out2),
    ensures
        out1.len() == 1,
        out1[0] is None,
        mid.rules == Map::<Seq<char>, String>::empty(),
        out2.len() == 1,
        target_kind_of(out2[0]) is None,
{
    assert(!mid.rules.contains_key(ace.label@));
}


/// Invariant of the deferral queue: if every pending completion is
/// unresolvable before a step, every pending completion is unresolvable
/// after it — a record waits exactly until a file-set record completes
/// its resolution, and one that never gets its sets stays pending.
pub proof fn lemma_pending_stay_unresolved(
    pre: HydratorView,
    action: BuildEventAction,
    post: HydratorView,
    out: Seq<Option<HydratedInfo>>,
)
    requires
        hydrate_step_ok(pre, action, post, out),
        forall|k: int|
            0 <= k < pre.pending.len() ==> resolve_tce(pre.sets, #[trigger] pre.pending[k]) is None,
    ensures
        forall|k: int|
            0 <= k < post.pending.len() ==> resolve_tce(post.sets, #[trigger] post.pending[k])
                is None,
{
    match action {
        BuildEventAction::BuildEvent(msg) => match msg.event {
            Evt::NamedSetOfFiles { id, named_set_of_files } => {
                let unres = |t: TargetCompletedEvt| resolve_tce(post.sets, t) is None;
                assert forall|k: int|
                    0 <= k < post.pending.len() implies resolve_tce(
                    post.sets,
                    #[trigger] post.pending[k],
                ) is None by {
                    pre.pending.lemma_filter_pred(unres, k);
                }
            },
            _ => {},
        },
        _ => {},
    }
}

} // verus!
