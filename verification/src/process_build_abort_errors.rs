use vstd::prelude::*;
use crate::bazel_event::{AbortReason, ProgressEvt};
use crate::hydrated_stream::BazelAbortErrorInfo;
use crate::string_kv::StringKeyMap;

verus! {

/// A buildozer invocation that removes one dependency edge, together with
/// the reason the edge is believed to be wrong.
#[derive(Clone, PartialEq, Debug)]
pub struct BuildozerRemoveDepCmd {
    pub target_to_operate_on: String,
    pub dependency_to_remove: String,
    pub why: String,
}

/// A correction the abort/progress analysis proposes.
#[derive(Clone, PartialEq, Debug)]
pub enum BazelCorrectionCommand {
    BuildozerRemoveDep(BuildozerRemoveDepCmd),
}

/// What was done to a target while applying corrections.
#[derive(Clone, PartialEq, Debug)]
pub enum TargetStoryAction {
    RemovedDependency { removed_what: String, why: String },
}

/// One entry of the story of a target: what happened to it and when.
#[derive(Clone, PartialEq, Debug)]
pub struct TargetStory {
    pub target: String,
    pub action: TargetStoryAction,
    pub when: u64,
}

/// What a correction pass reports back to the dispatcher.
#[derive(Clone, PartialEq, Debug)]
pub struct Response {
    pub target_stories: Vec<TargetStory>,
}

impl Response {
    pub fn new(target_stories: Vec<TargetStory>) -> (r: Response)
        ensures
            r.target_stories == target_stories,
    {
        Response { target_stories }
    }
}

/// Per-target bookkeeping the correction engine accumulated earlier:
/// the dependencies it already chose to ignore.
#[derive(Clone, PartialEq, Debug)]
pub struct CurrentState {
    pub ignore_list: Vec<String>,
}


/// A line with a trailing carriage return loses it when the line is cut
/// at a newline.
pub open spec fn strip_cr(l: Seq<char>) -> Seq<char> {
    if l.len() > 0 && l.last() == '\r' {
        l.drop_last()
    } else {
        l
    }
}

pub open spec fn lines_from(s: Seq<char>, cur: Seq<char>) -> Seq<Seq<char>>
    decreases s.len(),
{
    if s.len() == 0 {
        if cur.len() == 0 {
            Seq::empty()
        } else {
            seq![cur]
        }
    } else if s.first() == '\n' {
        seq![strip_cr(cur)] + lines_from(s.drop_first(), Seq::empty())
    } else {
        lines_from(s.drop_first(), cur.push(s.first()))
    }
}

/// The lines of a text: pieces cut at each newline, a carriage return
/// directly before a newline removed, and no empty final piece for a text
/// that ends with a newline.
pub open spec fn lines_of(s: Seq<char>) -> Seq<Seq<char>> {
    lines_from(s, Seq::empty())
}

/// Splits a text into its lines, exactly as `lines_of` describes.
#[verifier::loop_isolation(false)]
#[verifier::rlimit(60)]
pub fn split_lines(s: &str) -> (r: Vec<String>)
    ensures
        r.deep_view() == lines_of(s@),
{
    let n: usize = s.unicode_len();
    let mut acc: Vec<String> = Vec::new();
    let mut start: usize = 0;
    let mut i: usize = 0;
    proof {
        assert(s@.skip(0) =~= s@);
        assert(s@.subrange(0, 0) =~= Seq::<char>::empty());
        assert(acc.deep_view() =~= Seq::<Seq<char>>::empty());
    }
    while i < n
        invariant
            start <= i <= n,
            lines_of(s@) == acc.deep_view() + lines_from(
                s@.skip(i as int),
                s@.subrange(start as int, i as int),
            ),
        decreases n - i,
    {
        let ghost cur = s@.subrange(start as int, i as int);
        let c = s.get_char(i);
        proof {
            assert(s@.skip(i as int).first() == s@[i as int]);
            assert(s@.skip(i as int).drop_first() =~= s@.skip(i as int + 1));
        }
        if c == '\n' {
            let mut endx: usize = i;
            if i > start && s.get_char(i - 1) == '\r' {
                endx = i - 1;
            }
            proof {
                if cur.len() > 0 && cur.last() == '\r' {
                    assert(cur.last() == s@[i as int - 1]);
                    assert(cur.drop_last() =~= s@.subrange(start as int, i as int - 1));
                    assert(endx == i - 1);
                } else {
                    assert(endx == i);
                }
                assert(strip_cr(cur) =~= s@.subrange(start as int, endx as int));
            }
            let piece = s.substring_char(start, endx);
            let ghost acc0 = acc.deep_view();
            acc.push(piece.to_owned());
            proof {
                assert(acc.deep_view() =~= acc0.push(strip_cr(cur)));
                assert(acc0.push(strip_cr(cur)) =~= acc0 + seq![strip_cr(cur)]);
                assert(lines_from(s@.skip(i as int), cur) == seq![strip_cr(cur)] + lines_from(
                    s@.skip(i as int + 1),
                    Seq::empty(),
                ));
                assert(acc0 + (seq![strip_cr(cur)] + lines_from(s@.skip(i as int + 1), Seq::empty()))
                    =~= (acc0 + seq![strip_cr(cur)]) + lines_from(
                    s@.skip(i as int + 1),
                    Seq::empty(),
                ));
                assert(s@.subrange(i as int + 1, i as int + 1) =~= Seq::<char>::empty());
            }
            start = i + 1;
        } else {
            proof {
                assert(lines_from(s@.skip(i as int), cur) == lines_from(
                    s@.skip(i as int + 1),
                    cur.push(s@[i as int]),
                ));
                assert(cur.push(s@[i as int]) =~= s@.subrange(start as int, i as int + 1));
            }
        }
        i = i + 1;
    }
    proof {
        assert(s@.skip(n as int).len() == 0);
    }
    if start < n {
        let piece = s.substring_char(start, n);
        let ghost acc0 = acc.deep_view();
        acc.push(piece.to_owned());
        proof {
            assert(lines_from(s@.skip(n as int), s@.subrange(start as int, n as int)) == seq![
                s@.subrange(start as int, n as int),
            ]);
            assert(acc.deep_view() =~= acc0 + seq![s@.subrange(start as int, n as int)]);
        }
    } else {
        proof {
            assert(s@.subrange(start as int, n as int).len() == 0);
            assert(lines_from(s@.skip(n as int), s@.subrange(start as int, n as int))
                =~= Seq::<Seq<char>>::empty());
            assert(acc.deep_view() =~= acc.deep_view() + Seq::<Seq<char>>::empty());
        }
    }
    acc
}

/// What `regex::Regex::captures` yields for `pattern` on `text`: the
/// whole match and the capture groups, outermost first, or nothing when
/// the pattern finds no match in the text (or does not compile).
pub uninterp spec fn captures_of(pattern: Seq<char>, text: Seq<char>) -> Option<
    Seq<Option<Seq<char>>>,
>;

/// Relies on `regex::Regex::new` and `regex::Regex::captures`: for a
/// fixed pattern and haystack, whether the pattern matches and what each
/// capture group covers depend on the two strings alone.
#[verifier::external_body]
fn regex_captures(pattern: &str, text: &str) -> (r: Option<Vec<Option<String>>>)
    ensures
        r.deep_view() == captures_of(pattern@, text@),
{
    let re = match regex::Regex::new(pattern) {
        Ok(re) => re,
        Err(_) => return None,
    };
    re.captures(text).map(|caps| caps.iter().map(|m| m.map(|g| g.as_str().to_string())).collect())
}

/// The first two capture groups of a match of `pattern` on `line`, when
/// the match has both.
pub open spec fn line_capture_two(pattern: Seq<char>, line: Seq<char>) -> Option<
    (Seq<char>, Seq<char>),
> {
    match captures_of(pattern, line) {
        Some(groups) => if groups.len() >= 3 && groups[1] is Some && groups[2] is Some {
            Some((groups[1].unwrap(), groups[2].unwrap()))
        } else {
            None
        },
        None => None,
    }
}

/// The capture-group pairs of all matching lines, in line order.
pub open spec fn matched_pairs(pattern: Seq<char>, lines: Seq<Seq<char>>) -> Seq<
    (Seq<char>, Seq<char>),
>
    decreases lines.len(),
{
    if lines.len() == 0 {
        Seq::empty()
    } else {
        let rest = matched_pairs(pattern, lines.drop_first());
        match line_capture_two(pattern, lines.first()) {
            Some(p) => seq![p] + rest,
            None => rest,
        }
    }
}

proof fn lemma_matched_pairs_push(pattern: Seq<char>, lines: Seq<Seq<char>>, x: Seq<char>)
    ensures
        matched_pairs(pattern, lines.push(x)) == matched_pairs(pattern, lines) + match
            line_capture_two(pattern, x) {
            Some(p) => seq![p],
            None => Seq::<(Seq<char>, Seq<char>)>::empty(),
        },
    decreases lines.len(),
{
    let t = lines.push(x);
    if lines.len() == 0 {
        assert(t.first() == x);
        assert(t.drop_first() =~= Seq::<Seq<char>>::empty());
        assert(matched_pairs(pattern, lines) =~= Seq::<(Seq<char>, Seq<char>)>::empty());
        assert(matched_pairs(pattern, t.drop_first()) =~= Seq::<(Seq<char>, Seq<char>)>::empty());
        match line_capture_two(pattern, x) {
            Some(p) => {
                assert(matched_pairs(pattern, t) =~= matched_pairs(pattern, lines) + seq![p]);
            },
            None => {
                assert(matched_pairs(pattern, t) =~= matched_pairs(pattern, lines));
            },
        }
    } else {
        assert(t.first() == lines.first());
        assert(t.drop_first() =~= lines.drop_first().push(x));
        lemma_matched_pairs_push(pattern, lines.drop_first(), x);
        match line_capture_two(pattern, lines.first()) {
            Some(p) => {
                assert(matched_pairs(pattern, t) =~= matched_pairs(pattern, lines) + match
                    line_capture_two(pattern, x) {
                    Some(q) => seq![q],
                    None => Seq::<(Seq<char>, Seq<char>)>::empty(),
                });
            },
            None => {},
        }
    }
}

/// Whether `cmd` removes dependency `dep` from `target` for reason `why`.
pub open spec fn remove_dep_cmd(
    target: Seq<char>,
    dep: Seq<char>,
    why: Seq<char>,
    cmd: BazelCorrectionCommand,
) -> bool {
    cmd matches BazelCorrectionCommand::BuildozerRemoveDep(c) && c.target_to_operate_on@ == target
        && c.dependency_to_remove@ == dep && c.why@ == why
}

/// Whether `cmd` is the correction for the captured pair `pair`: group
/// one names the target and group two the dependency, or the other way
/// round when `swapped` is set.
pub open spec fn cmd_for_pair(
    pair: (Seq<char>, Seq<char>),
    swapped: bool,
    why: Seq<char>,
    cmd: BazelCorrectionCommand,
) -> bool {
    if swapped {
        remove_dep_cmd(pair.1, pair.0, why, cmd)
    } else {
        remove_dep_cmd(pair.0, pair.1, why, cmd)
    }
}

/// Whether `post` extends `pre` with exactly one correction per captured
/// pair, in order.
pub open spec fn appended_cmds_ok(
    pre: Seq<BazelCorrectionCommand>,
    post: Seq<BazelCorrectionCommand>,
    pairs: Seq<(Seq<char>, Seq<char>)>,
    swapped: bool,
    why: Seq<char>,
) -> bool {
    &&& post.len() == pre.len() + pairs.len()
    &&& post.take(pre.len() as int) == pre
    &&& forall|k: int|
        0 <= k < pairs.len() ==> cmd_for_pair(pairs[k], swapped, why, #[trigger] post[pre.len() + k])
}

#[verifier::loop_isolation(false)]
fn extract_remove_dep_commands(
    text: &str,
    pattern: &str,
    swapped: bool,
    why: &str,
    command_stream: &mut Vec<BazelCorrectionCommand>,
)
    ensures
        appended_cmds_ok(
            old(command_stream)@,
            final(command_stream)@,
            matched_pairs(pattern@, lines_of(text@)),
            swapped,
            why@,
        ),
{
    let lines = split_lines(text);
    let ghost lviews = lines.deep_view();
    let ghost pre = old(command_stream)@;
    let mut i: usize = 0;
    proof {
        assert(lviews.take(0) =~= Seq::<Seq<char>>::empty());
        assert(command_stream@.take(pre.len() as int) =~= pre);
    }
    while i < lines.len()
        invariant
            i <= lines@.len(),
            appended_cmds_ok(
                pre,
                command_stream@,
                matched_pairs(pattern@, lviews.take(i as int)),
                swapped,
                why@,
            ),
        decreases lines@.len() - i,
    {
        proof {
            lemma_matched_pairs_push(pattern@, lviews.take(i as int), lviews[i as int]);
            assert(lviews.take(i as int).push(lviews[i as int]) =~= lviews.take(i as int + 1));
        }
        let found = regex_captures(pattern, lines[i].as_str());
        match found {
            Some(groups) => {
                if groups.len() >= 3 {
                    let has_both = groups[1].is_some() && groups[2].is_some();
                    if has_both {
                        let g1 = match &groups[1] {
                            Some(g) => g.clone(),
                            None => String::new(),
                        };
                        let g2 = match &groups[2] {
                            Some(g) => g.clone(),
                            None => String::new(),
                        };
                        let (target, dep) = if swapped {
                            (g2, g1)
                        } else {
                            (g1, g2)
                        };
                        let ghost cs0 = command_stream@;
                        command_stream.push(
                            BazelCorrectionCommand::BuildozerRemoveDep(
                                BuildozerRemoveDepCmd {
                                    target_to_operate_on: target,
                                    dependency_to_remove: dep,
                                    why: why.to_owned(),
                                },
                            ),
                        );
                        proof {
                            assert(command_stream@.take(pre.len() as int) =~= cs0.take(
                                pre.len() as int,
                            ));
                        }
                    }
                }
            },
            None => {},
        }
        i = i + 1;
    }
    proof {
        assert(lviews.take(lines@.len() as int) =~= lviews);
    }
}


/// The pattern of an analysis failure naming a dependency that does not
/// exist.
pub open spec fn target_does_not_exist_pattern() -> Seq<char> {
    r"^\s*in deps attribute of [A-Za-z0-9_-]* rule (.*): target '(.*)' does not exist\s*$"@
}

/// Corrections for "target does not exist" analysis failures: one
/// dependency removal per line of the abort description that names the
/// rule and the missing target.
pub fn extract_target_does_not_exist(
    bazel_abort_error_info: &BazelAbortErrorInfo,
    command_stream: &mut Vec<BazelCorrectionCommand>,
)
    ensures
        appended_cmds_ok(
            old(command_stream)@,
            final(command_stream)@,
            if bazel_abort_error_info.reason == Some(AbortReason::AnalysisFailure) {
                matched_pairs(
                    target_does_not_exist_pattern(),
                    lines_of(bazel_abort_error_info.description@),
                )
            } else {
                Seq::empty()
            },
            false,
            "Dependency on does not exist"@,
        ),
{
    match bazel_abort_error_info.reason {
        Some(AbortReason::AnalysisFailure) => {
            extract_remove_dep_commands(
                bazel_abort_error_info.description.as_str(),
                r"^\s*in deps attribute of [A-Za-z0-9_-]* rule (.*): target '(.*)' does not exist\s*$",
                false,
                "Dependency on does not exist",
                command_stream,
            );
        },
        _ => {
            proof {
                assert(command_stream@.take(old(command_stream)@.len() as int) =~= old(
                    command_stream,
                )@);
            }
        },
    }
}

/// The pattern of a progress line referencing a target that its package
/// does not declare.
pub open spec fn target_not_declared_pattern() -> Seq<char> {
    r".*no such target '([^']*)': target '.*' not declared in package '.*' defined by .* and referenced by '([^']*)'"@
}

/// Corrections for "target not declared in package" progress lines: the
/// referencing target drops its dependency on the undeclared one.
pub fn extract_target_not_declared_in_package(
    bazel_progress_error_info: &ProgressEvt,
    command_stream: &mut Vec<BazelCorrectionCommand>,
)
    ensures
        appended_cmds_ok(
            old(command_stream)@,
            final(command_stream)@,
            matched_pairs(
                target_not_declared_pattern(),
                lines_of(bazel_progress_error_info.stderr@),
            ),
            true,
            "Dependency on does not exist"@,
        ),
{
    extract_remove_dep_commands(
        bazel_progress_error_info.stderr.as_str(),
        r".*no such target '([^']*)': target '.*' not declared in package '.*' defined by .* and referenced by '([^']*)'",
        true,
        "Dependency on does not exist",
        command_stream,
    );
}

/// The pattern of an analysis failure naming a dependency that is not
/// visible from the depending target.
pub open spec fn target_not_visible_pattern() -> Seq<char> {
    r"^\s*in [A-Za-z0-9_-]* rule (.*): target '(.*)' is not visible from target '.*'. Check the visibility declaration of the former target if you think the dependency is legitimate\s*$"@
}

/// Corrections for visibility failures: one dependency removal per line
/// of the abort description that names the rule and the invisible target.
pub fn extract_target_not_visible(
    bazel_abort_error_info: &BazelAbortErrorInfo,
    command_stream: &mut Vec<BazelCorrectionCommand>,
)
    ensures
        appended_cmds_ok(
            old(command_stream)@,
            final(command_stream)@,
            if bazel_abort_error_info.reason == Some(AbortReason::AnalysisFailure) {
                matched_pairs(
                    target_not_visible_pattern(),
                    lines_of(bazel_abort_error_info.description@),
                )
            } else {
                Seq::empty()
            },
            false,
            "Target dependended on is not visible from the current target"@,
        ),
{
    match bazel_abort_error_info.reason {
        Some(AbortReason::AnalysisFailure) => {
            extract_remove_dep_commands(
                bazel_abort_error_info.description.as_str(),
                r"^\s*in [A-Za-z0-9_-]* rule (.*): target '(.*)' is not visible from target '.*'. Check the visibility declaration of the former target if you think the dependency is legitimate\s*$",
                false,
                "Target dependended on is not visible from the current target",
                command_stream,
            );
        },
        _ => {
            proof {
                assert(command_stream@.take(old(command_stream)@.len() as int) =~= old(
                    command_stream,
                )@);
            }
        },
    }
}

/// The story entry recorded for one successfully applied correction.
pub open spec fn story_of(cmd: BazelCorrectionCommand, when: u64) -> TargetStory {
    match cmd {
        BazelCorrectionCommand::BuildozerRemoveDep(c) => TargetStory {
            target: c.target_to_operate_on,
            action: TargetStoryAction::RemovedDependency {
                removed_what: c.dependency_to_remove,
                why: c.why,
            },
            when,
        },
    }
}

/// The story of a correction pass: one entry per command whose buildozer
/// invocation succeeded, in command order.
pub open spec fn stories_for(
    commands: Seq<BazelCorrectionCommand>,
    results: Seq<bool>,
    when: u64,
) -> Seq<TargetStory>
    decreases commands.len(),
{
    if commands.len() == 0 {
        Seq::empty()
    } else {
        stories_for(commands.drop_last(), results.drop_last(), when) + if results.len() > 0
            && results.last() {
            seq![story_of(commands.last(), when)]
        } else {
            Seq::empty()
        }
    }
}

/// Turns the per-command buildozer outcomes into the response the
/// dispatcher reports: one story entry per applied correction. The
/// embedding application runs buildozer for each command in order and
/// hands back one success flag per command.
#[verifier::loop_isolation(false)]
pub fn apply_candidates(
    candidate_correction_commands: &Vec<BazelCorrectionCommand>,
    results: &Vec<bool>,
    when: u64,
) -> (r: Response)
    requires
        candidate_correction_commands@.len() == results@.len(),
    ensures
        r.target_stories@ == stories_for(candidate_correction_commands@, results@, when),
{
    let mut target_stories: Vec<TargetStory> = Vec::new();
    let mut i: usize = 0;
    proof {
        assert(candidate_correction_commands@.take(0).len() == 0);
        assert(target_stories@ =~= stories_for(
            candidate_correction_commands@.take(0),
            results@.take(0),
            when,
        ));
    }
    while i < candidate_correction_commands.len()
        invariant
            i <= candidate_correction_commands@.len(),
            target_stories@ == stories_for(
                candidate_correction_commands@.take(i as int),
                results@.take(i as int),
                when,
            ),
        decreases candidate_correction_commands@.len() - i,
    {
        proof {
            assert(candidate_correction_commands@.take(i as int + 1).drop_last()
                =~= candidate_correction_commands@.take(i as int));
            assert(results@.take(i as int + 1).drop_last() =~= results@.take(i as int));
        }
        if results[i] {
            match &candidate_correction_commands[i] {
                BazelCorrectionCommand::BuildozerRemoveDep(c) => {
                    target_stories.push(
                        TargetStory {
                            target: c.target_to_operate_on.clone(),
                            action: TargetStoryAction::RemovedDependency {
                                removed_what: c.dependency_to_remove.clone(),
                                why: c.why.clone(),
                            },
                            when,
                        },
                    );
                },
            }
            proof {
                assert(target_stories@ =~= stories_for(
                    candidate_correction_commands@.take(i as int + 1),
                    results@.take(i as int + 1),
                    when,
                ));
            }
        } else {
            proof {
                assert(target_stories@ =~= stories_for(
                    candidate_correction_commands@.take(i as int + 1),
                    results@.take(i as int + 1),
                    when,
                ));
            }
        }
        i = i + 1;
    }
    proof {
        assert(candidate_correction_commands@.take(candidate_correction_commands@.len() as int)
            =~= candidate_correction_commands@);
        assert(results@.take(results@.len() as int) =~= results@);
    }
    Response { target_stories }
}

/// All corrections one abort record yields: the missing-target ones, then
/// the visibility ones.
pub fn process_build_abort_errors(bazel_abort_error_info: &BazelAbortErrorInfo) -> (cmds: Vec<
    BazelCorrectionCommand,
>)
    ensures
        ({
            let p1 = if bazel_abort_error_info.reason == Some(AbortReason::AnalysisFailure) {
                matched_pairs(
                    target_does_not_exist_pattern(),
                    lines_of(bazel_abort_error_info.description@),
                )
            } else {
                Seq::empty()
            };
            let p2 = if bazel_abort_error_info.reason == Some(AbortReason::AnalysisFailure) {
                matched_pairs(
                    target_not_visible_pattern(),
                    lines_of(bazel_abort_error_info.description@),
                )
            } else {
                Seq::empty()
            };
            &&& appended_cmds_ok(
                Seq::empty(),
                cmds@.take(p1.len() as int),
                p1,
                false,
                "Dependency on does not exist"@,
            )
            &&& appended_cmds_ok(
                cmds@.take(p1.len() as int),
                cmds@,
                p2,
                false,
                "Target dependended on is not visible from the current target"@,
            )
        }),
{
    let mut cmds: Vec<BazelCorrectionCommand> = Vec::new();
    extract_target_does_not_exist(bazel_abort_error_info, &mut cmds);
    let ghost mid = cmds@;
    extract_target_not_visible(bazel_abort_error_info, &mut cmds);
    proof {
        assert(cmds@.take(mid.len() as int) == mid);
        assert(mid.take(0) =~= Seq::<BazelCorrectionCommand>::empty());
    }
    cmds
}


/// The single capture group of a match of `pattern` on `line`, when the
/// match has it.
pub open spec fn line_capture_one(pattern: Seq<char>, line: Seq<char>) -> Option<Seq<char>> {
    match captures_of(pattern, line) {
        Some(groups) => if groups.len() >= 2 && groups[1] is Some {
            Some(groups[1].unwrap())
        } else {
            None
        },
        None => None,
    }
}

fn capture_one(pattern: &str, line: &str) -> (r: Option<String>)
    ensures
        r.deep_view() == line_capture_one(pattern@, line@),
{
    match regex_captures(pattern, line) {
        Some(groups) => {
            if groups.len() >= 2 {
                match &groups[1] {
                    Some(g) => Some(g.clone()),
                    None => None,
                }
            } else {
                None
            }
        },
        None => None,
    }
}

/// The pattern of the line announcing a dependency cycle.
pub open spec fn cycle_header_pattern() -> Seq<char> {
    r".*ERROR: .*/BUILD:\d*:\d*: in [A-Za-z0-9_-]* rule (.*): cycle in dependency graph:\s*$"@
}

/// The pattern of the first label line of a cycle listing.
pub open spec fn cycle_start_pattern() -> Seq<char> {
    r"^\s*.->\s*(.*)$"@
}

/// The pattern of an intermediate label line of a cycle listing.
pub open spec fn cycle_middle_pattern() -> Seq<char> {
    r"^\s*\|\s*(.*)$"@
}

/// The pattern of the closing label line of a cycle listing.
pub open spec fn cycle_end_pattern() -> Seq<char> {
    r"^\s*`--\s*(.*)$"@
}

/// Whether `cs` already lists `dep` as a dependency to ignore.
pub open spec fn ignore_listed(cs: CurrentState, dep: Seq<char>) -> bool {
    exists|i: int| 0 <= i < cs.ignore_list@.len() && cs.ignore_list@[i]@ == dep
}

/// The removal pairs one completed cycle listing yields: each adjacent
/// pair of labels whose edge the accumulated per-target state already
/// chose to ignore.
pub open spec fn cycle_pairs(
    labels: Seq<Seq<char>>,
    seen: Map<Seq<char>, CurrentState>,
) -> Seq<(Seq<char>, Seq<char>)>
    decreases labels.len(),
{
    if labels.len() < 2 {
        Seq::empty()
    } else {
        let head = if seen.contains_key(labels[0]) && ignore_listed(seen[labels[0]], labels[1]) {
            seq![(labels[0], labels[1])]
        } else {
            Seq::<(Seq<char>, Seq<char>)>::empty()
        };
        head + cycle_pairs(labels.drop_first(), seen)
    }
}

/// One line of the cycle scan: how the open segment of labels changes and
/// which pairs the line causes to be emitted. A header line always opens
/// a fresh segment; inside a segment the start/middle lines accumulate
/// labels and the closing line emits the segment's pairs.
pub open spec fn cycle_line_step(
    seg: Option<Seq<Seq<char>>>,
    line: Seq<char>,
    seen: Map<Seq<char>, CurrentState>,
) -> (Option<Seq<Seq<char>>>, Seq<(Seq<char>, Seq<char>)>) {
    let stepped = cycle_segment_step(seg, line, seen);
    if captures_of(cycle_header_pattern(), line) is Some {
        (Some(Seq::empty()), stepped.1)
    } else {
        stepped
    }
}

/// The segment part of one scan step, before the header check.
pub open spec fn cycle_segment_step(
    seg: Option<Seq<Seq<char>>>,
    line: Seq<char>,
    seen: Map<Seq<char>, CurrentState>,
) -> (Option<Seq<Seq<char>>>, Seq<(Seq<char>, Seq<char>)>) {
    match seg {
        Some(v) => {
            if line_capture_one(cycle_start_pattern(), line) is Some {
                (Some(v.push(line_capture_one(cycle_start_pattern(), line).unwrap())), Seq::empty())
            } else if line_capture_one(cycle_middle_pattern(), line) is Some {
                (
                    Some(v.push(line_capture_one(cycle_middle_pattern(), line).unwrap())),
                    Seq::empty(),
                )
            } else if line_capture_one(cycle_end_pattern(), line) is Some {
                let full = v.push(line_capture_one(cycle_end_pattern(), line).unwrap());
                (None, cycle_pairs(full, seen))
            } else {
                (Some(v), Seq::empty())
            }
        },
        None => (None, Seq::empty()),
    }
}

/// The pairs the whole text emits, scanning its lines in order.
pub open spec fn cycle_scan(
    lines: Seq<Seq<char>>,
    seg: Option<Seq<Seq<char>>>,
    seen: Map<Seq<char>, CurrentState>,
) -> Seq<(Seq<char>, Seq<char>)>
    decreases lines.len(),
{
    if lines.len() == 0 {
        Seq::empty()
    } else {
        let stepped = cycle_line_step(seg, lines.first(), seen);
        stepped.1 + cycle_scan(lines.drop_first(), stepped.0, seen)
    }
}

fn ignore_contains(cs: &CurrentState, dep: &String) -> (r: bool)
    ensures
        r == ignore_listed(*cs, dep@),
{
    let mut i: usize = 0;
    while i < cs.ignore_list.len()
        invariant
            i <= cs.ignore_list@.len(),
            forall|j: int| 0 <= j < i ==> cs.ignore_list@[j]@ != dep@,
        decreases cs.ignore_list@.len() - i,
    {
        if cs.ignore_list[i] == *dep {
            assert(cs.ignore_list@[i as int]@ == dep@);
            return true;
        }
        i = i + 1;
    }
    false
}

/// Composing two appended runs appends the concatenation of their pairs.
proof fn lemma_appended_compose(
    pre: Seq<BazelCorrectionCommand>,
    mid: Seq<BazelCorrectionCommand>,
    post: Seq<BazelCorrectionCommand>,
    p1: Seq<(Seq<char>, Seq<char>)>,
    p2: Seq<(Seq<char>, Seq<char>)>,
    swapped: bool,
    why: Seq<char>,
)
    requires
        appended_cmds_ok(pre, mid, p1, swapped, why),
        appended_cmds_ok(mid, post, p2, swapped, why),
    ensures
        appended_cmds_ok(pre, post, p1 + p2, swapped, why),
{
    assert(post.take(pre.len() as int) =~= mid.take(pre.len() as int));
    assert forall|k: int|
        0 <= k < (p1 + p2).len() implies cmd_for_pair(
        (p1 + p2)[k],
        swapped,
        why,
        #[trigger] post[pre.len() + k],
    ) by {
        if k < p1.len() {
            assert((p1 + p2)[k] == p1[k]);
            assert(post[pre.len() + k] == post.take(mid.len() as int)[pre.len() + k]);
            assert(post.take(mid.len() as int) =~= mid);
            assert(cmd_for_pair(p1[k], swapped, why, mid[pre.len() + k]));
        } else {
            assert((p1 + p2)[k] == p2[k - p1.len()]);
            assert(cmd_for_pair(p2[k - p1.len()], swapped, why, post[mid.len() + (k - p1.len())]));
        }
    }
}

/// Emits the corrections for one completed cycle listing.
#[verifier::loop_isolation(false)]
fn emit_cycle_pairs(
    labels: &Vec<String>,
    previous_global_seen: &StringKeyMap<CurrentState>,
    command_stream: &mut Vec<BazelCorrectionCommand>,
)
    ensures
        appended_cmds_ok(
            old(command_stream)@,
            final(command_stream)@,
            cycle_pairs(labels.deep_view(), previous_global_seen@),
            false,
            "There is a cyclic dependency, so attempting to unwind/remove dependencies"@,
        ),
{
    let ghost pre = old(command_stream)@;
    let ghost lv = labels.deep_view();
    let ghost seen = previous_global_seen@;
    let ghost why = "There is a cyclic dependency, so attempting to unwind/remove dependencies"@;
    let ghost mut done: Seq<(Seq<char>, Seq<char>)> = Seq::empty();
    proof {
        assert(command_stream@.take(pre.len() as int) =~= pre);
    }
    if labels.len() < 2 {
        return ;
    }
    let mut w: usize = 0;
    proof {
        assert(lv.skip(0) =~= lv);
        assert(cycle_pairs(lv, seen) =~= done + cycle_pairs(lv.skip(0), seen));
    }
    while w < labels.len() - 1
        invariant
            labels@.len() >= 2,
            w <= labels@.len() - 1,
            appended_cmds_ok(pre, command_stream@, done, false, why),
            cycle_pairs(lv, seen) == done + cycle_pairs(lv.skip(w as int), seen),
        decreases labels@.len() - w,
    {
        let ghost suffix = lv.skip(w as int);
        proof {
            assert(suffix.len() >= 2);
            assert(suffix[0] == lv[w as int]);
            assert(suffix[1] == lv[w as int + 1]);
            assert(suffix.drop_first() =~= lv.skip(w as int + 1));
        }
        match previous_global_seen.get(&labels[w]) {
            Some(cs) => {
                if ignore_contains(cs, &labels[w + 1]) {
                    let ghost cs0 = command_stream@;
                    command_stream.push(
                        BazelCorrectionCommand::BuildozerRemoveDep(
                            BuildozerRemoveDepCmd {
                                target_to_operate_on: labels[w].clone(),
                                dependency_to_remove: labels[w + 1].clone(),
                                why: "There is a cyclic dependency, so attempting to unwind/remove dependencies".to_owned(),
                            },
                        ),
                    );
                    proof {
                        assert(command_stream@.take(pre.len() as int) =~= cs0.take(
                            pre.len() as int,
                        ));
                        done = done + seq![(lv[w as int], lv[w as int + 1])];
                        assert(cycle_pairs(suffix, seen) == seq![(lv[w as int], lv[w as int + 1])]
                            + cycle_pairs(suffix.drop_first(), seen));
                        assert(cycle_pairs(lv, seen) =~= done + cycle_pairs(
                            lv.skip(w as int + 1),
                            seen,
                        ));
                    }
                } else {
                    proof {
                        assert(cycle_pairs(suffix, seen) == cycle_pairs(
                            suffix.drop_first(),
                            seen,
                        ));
                        assert(Seq::<(Seq<char>, Seq<char>)>::empty() + cycle_pairs(
                            suffix.drop_first(),
                            seen,
                        ) =~= cycle_pairs(suffix.drop_first(), seen));
                    }
                }
            },
            None => {
                proof {
                    assert(cycle_pairs(suffix, seen) == cycle_pairs(suffix.drop_first(), seen));
                    assert(Seq::<(Seq<char>, Seq<char>)>::empty() + cycle_pairs(
                        suffix.drop_first(),
                        seen,
                    ) =~= cycle_pairs(suffix.drop_first(), seen));
                }
            },
        }
        w = w + 1;
    }
    proof {
        assert(lv.skip(labels@.len() - 1).len() < 2);
        assert(cycle_pairs(lv.skip(labels@.len() - 1), seen) =~= Seq::<
            (Seq<char>, Seq<char>),
        >::empty());
        assert(cycle_pairs(lv, seen) =~= done);
    }
}

/// The correction scan for dependency cycles: finds each cycle listing in
/// the progress stderr and, for each adjacent pair of its labels whose
/// edge the accumulated state already chose to ignore, removes that edge.
#[verifier::loop_isolation(false)]
#[verifier::rlimit(90)]
pub fn extract_added_cycle_in_dependency_graph(
    bazel_abort_error_info: &ProgressEvt,
    command_stream: &mut Vec<BazelCorrectionCommand>,
    previous_global_seen: &StringKeyMap<CurrentState>,
)
    ensures
        appended_cmds_ok(
            old(command_stream)@,
            final(command_stream)@,
            cycle_scan(lines_of(bazel_abort_error_info.stderr@), None, previous_global_seen@),
            false,
            "There is a cyclic dependency, so attempting to unwind/remove dependencies"@,
        ),
{
    let ghost pre = old(command_stream)@;
    let ghost seen = previous_global_seen@;
    let ghost why = "There is a cyclic dependency, so attempting to unwind/remove dependencies"@;
    let lines = split_lines(bazel_abort_error_info.stderr.as_str());
    let ghost lviews = lines.deep_view();
    let ghost full = cycle_scan(lviews, None, seen);
    let mut seg: Option<Vec<String>> = None;
    let ghost mut done: Seq<(Seq<char>, Seq<char>)> = Seq::empty();
    let mut i: usize = 0;
    proof {
        assert(lviews.skip(0) =~= lviews);
        assert(command_stream@.take(pre.len() as int) =~= pre);
        assert(full =~= done + cycle_scan(lviews.skip(0), seg.deep_view(), seen));
    }
    while i < lines.len()
        invariant
            i <= lines@.len(),
            appended_cmds_ok(pre, command_stream@, done, false, why),
            full == done + cycle_scan(lviews.skip(i as int), seg.deep_view(), seen),
        decreases lines@.len() - i,
    {
        let ghost old_segv = seg.deep_view();
        let ghost old_done = done;
        let ghost lview = lviews[i as int];
        proof {
            assert(lviews.skip(i as int).first() == lview);
            assert(lviews.skip(i as int).drop_first() =~= lviews.skip(i as int + 1));
        }
        let mut tmp_seg: Option<Vec<String>> = None;
        core::mem::swap(&mut tmp_seg, &mut seg);
        match tmp_seg {
            Some(mut v) => {
                let ghost vv = v.deep_view();
                if let Some(g) = capture_one(r"^\s*.->\s*(.*)$", lines[i].as_str()) {
                    v.push(g);
                    proof {
                        assert(v.deep_view() =~= vv.push(
                            line_capture_one(cycle_start_pattern(), lview).unwrap(),
                        ));
                    }
                    seg = Some(v);
                } else if let Some(g) = capture_one(r"^\s*\|\s*(.*)$", lines[i].as_str()) {
                    v.push(g);
                    proof {
                        assert(v.deep_view() =~= vv.push(
                            line_capture_one(cycle_middle_pattern(), lview).unwrap(),
                        ));
                    }
                    seg = Some(v);
                } else if let Some(g) = capture_one(r"^\s*`--\s*(.*)$", lines[i].as_str()) {
                    v.push(g);
                    proof {
                        assert(v.deep_view() =~= vv.push(
                            line_capture_one(cycle_end_pattern(), lview).unwrap(),
                        ));
                    }
                    let ghost cs_mid = command_stream@;
                    emit_cycle_pairs(&v, previous_global_seen, command_stream);
                    proof {
                        lemma_appended_compose(
                            pre,
                            cs_mid,
                            command_stream@,
                            done,
                            cycle_pairs(v.deep_view(), seen),
                            false,
                            why,
                        );
                        done = done + cycle_pairs(v.deep_view(), seen);
                    }
                } else {
                    proof {
                        assert(v.deep_view() == vv);
                    }
                    seg = Some(v);
                }
            },
            None => {},
        }
        proof {
            assert(seg.deep_view() == cycle_segment_step(old_segv, lview, seen).0);
            assert(done == old_done + cycle_segment_step(old_segv, lview, seen).1);
        }
        let header = regex_captures(
            r".*ERROR: .*/BUILD:\d*:\d*: in [A-Za-z0-9_-]* rule (.*): cycle in dependency graph:\s*$",
            lines[i].as_str(),
        );
        if header.is_some() {
            seg = Some(Vec::new());
            proof {
                assert(seg.deep_view() == Some(Seq::<Seq<char>>::empty()));
            }
        }
        proof {
            assert(seg.deep_view() == cycle_line_step(old_segv, lview, seen).0);
            assert(done == old_done + cycle_line_step(old_segv, lview, seen).1);
            assert(cycle_scan(lviews.skip(i as int), old_segv, seen) == cycle_line_step(
                old_segv,
                lview,
                seen,
            ).1 + cycle_scan(lviews.skip(i as int + 1), seg.deep_view(), seen));
            assert(full =~= done + cycle_scan(lviews.skip(i as int + 1), seg.deep_view(), seen));
        }
        i = i + 1;
    }
    proof {
        assert(lviews.skip(lines@.len() as int).len() == 0);
        assert(cycle_scan(lviews.skip(lines@.len() as int), seg.deep_view(), seen) =~= Seq::<
            (Seq<char>, Seq<char>),
        >::empty());
        assert(done =~= full);
    }
}

/// All corrections one progress record yields: the cycle-unwinding ones,
/// then the not-declared-in-package ones.
pub fn process_progress(
    bazel_progress_error_info: &ProgressEvt,
    previous_global_seen: &StringKeyMap<CurrentState>,
) -> (cmds: Vec<BazelCorrectionCommand>)
    ensures
        ({
            let p1 = cycle_scan(
                lines_of(bazel_progress_error_info.stderr@),
                None,
                previous_global_seen@,
            );
            let p2 = matched_pairs(
                target_not_declared_pattern(),
                lines_of(bazel_progress_error_info.stderr@),
            );
            &&& appended_cmds_ok(
                Seq::empty(),
                cmds@.take(p1.len() as int),
                p1,
                false,
                "There is a cyclic dependency, so attempting to unwind/remove dependencies"@,
            )
            &&& appended_cmds_ok(
                cmds@.take(p1.len() as int),
                cmds@,
                p2,
                true,
                "Dependency on does not exist"@,
            )
        }),
{
    let mut cmds: Vec<BazelCorrectionCommand> = Vec::new();
    proof {
        assert(cmds@.take(0) =~= Seq::<BazelCorrectionCommand>::empty());
    }
    extract_added_cycle_in_dependency_graph(
        bazel_progress_error_info,
        &mut cmds,
        previous_global_seen,
    );
    let ghost mid = cmds@;
    extract_target_not_declared_in_package(bazel_progress_error_info, &mut cmds);
    proof {
        assert(cmds@.take(mid.len() as int) == mid);
        assert(mid.take(0) =~= Seq::<BazelCorrectionCommand>::empty());
    }
    cmds
}

} // verus!
