//! The run engine: the decision for one classified directory, and the model
//! and driver of a whole scan.
//!
//! A scan visits directory entries in encounter order. Regular directories
//! are ignored outright. A marked project is cleaned without prompting when
//! its auto-clean flag is set; otherwise a confirmation is resolved from the
//! input lines: acceptance cleans, decline records the path in the skipped
//! list, and end of input leaves the project untouched. Clean outcomes do not
//! feed back into the walk: a failed clean is reported but changes nothing.

use vstd::prelude::*;
use crate::confirm::{spec_confirm, spec_confirm_used, confirm_from, lemma_confirm_used_le};
use crate::project::{ProjectType, spec_classify, spec_should_autoclean};

verus! {

/// The auto-clean flags of one run.
#[derive(Clone, Copy, Debug, PartialEq, Eq, Structural)]
pub struct CleanFlags {
    /// Clean plain Rust projects without prompting.
    pub yes_cargo: bool,
    /// Clean Dioxus projects without prompting.
    pub yes_dioxus: bool,
    /// Clean every recognized project without prompting.
    pub yes_all: bool,
}

/// What the run does with one classified directory.
#[derive(Clone, Copy, Debug, PartialEq, Eq, Structural)]
pub enum Action {
    /// Invoke the clean command for this project.
    Clean,
    /// Record the path in the skipped list.
    Skip,
    /// Do nothing: a regular directory, or a confirmation that ended
    /// with no valid answer.
    Ignore,
}

/// The decision rule for one classified directory: regular directories are
/// ignored; an auto-cleaned project is cleaned; otherwise the confirmation
/// answer decides, and a missing answer means no action.
pub open spec fn spec_decide(
    t: ProjectType,
    yes_dioxus: bool,
    yes_cargo: bool,
    yes_all: bool,
    answer: Option<bool>,
) -> Action {
    if t is Regular {
        Action::Ignore
    } else if spec_should_autoclean(t, yes_dioxus, yes_cargo, yes_all) {
        Action::Clean
    } else {
        match answer {
            Some(d) => if d {
                Action::Clean
            } else {
                Action::Skip
            },
            None => Action::Ignore,
        }
    }
}

/// Decides what to do with one classified directory. `answer` is the outcome
/// of the interactive confirmation (`None` when input ended with no valid
/// answer); it is consulted only when the project is neither regular nor
/// auto-cleaned, so auto-clean callers may pass `None`.
pub fn decide(
    t: ProjectType,
    yes_dioxus: bool,
    yes_cargo: bool,
    yes_all: bool,
    answer: Option<bool>,
) -> (a: Action)
    ensures
        a == spec_decide(t, yes_dioxus, yes_cargo, yes_all, answer),
{
    if matches!(t, ProjectType::Regular) {
        Action::Ignore
    } else if t.should_autoclean(yes_dioxus, yes_cargo, yes_all) {
        Action::Clean
    } else {
        match answer {
            Some(true) => Action::Clean,
            Some(false) => Action::Skip,
            None => Action::Ignore,
        }
    }
}

/// One visited directory: its path and the existence of its two marker files.
pub struct ScanEntry {
    /// The directory's path, as handed to the clean subprocess and the report.
    pub path: String,
    /// Whether `path/Dioxus.toml` exists.
    pub has_dioxus_toml: bool,
    /// Whether `path/Cargo.toml` exists.
    pub has_cargo_toml: bool,
}

/// The mathematical shadow of a `ScanEntry`.
pub ghost struct EntryModel {
    pub path: Seq<char>,
    pub has_dioxus_toml: bool,
    pub has_cargo_toml: bool,
}

impl View for ScanEntry {
    type V = EntryModel;

    open spec fn view(&self) -> EntryModel {
        EntryModel {
            path: self.path@,
            has_dioxus_toml: self.has_dioxus_toml,
            has_cargo_toml: self.has_cargo_toml,
        }
    }
}

impl DeepView for ScanEntry {
    type V = EntryModel;

    open spec fn deep_view(&self) -> EntryModel {
        self.view()
    }
}

/// One clean the run asks for: which project, and as what type (the type
/// determines the clean command line).
pub struct CleanRequest {
    /// The project root; the clean subprocess runs with this working directory.
    pub path: String,
    /// The project's classification; never `Regular`.
    pub project_type: ProjectType,
}

impl View for CleanRequest {
    type V = (Seq<char>, ProjectType);

    open spec fn view(&self) -> (Seq<char>, ProjectType) {
        (self.path@, self.project_type)
    }
}

impl DeepView for CleanRequest {
    type V = (Seq<char>, ProjectType);

    open spec fn deep_view(&self) -> (Seq<char>, ProjectType) {
        self.view()
    }
}

/// Everything a whole run decides, in encounter order: the projects to clean,
/// the declined (skipped) paths, and the prompts shown.
pub struct RunResult {
    /// The projects passed to the Cleaner, in encounter order.
    pub cleaned: Vec<CleanRequest>,
    /// The paths whose prompt was declined, in encounter order.
    pub skipped: Vec<String>,
    /// The paths for which a confirmation prompt was shown, in encounter order.
    pub prompted: Vec<String>,
}

/// The mathematical shadow of a whole run, plus how many input lines it read.
pub ghost struct RunModel {
    pub cleaned: Seq<(Seq<char>, ProjectType)>,
    pub skipped: Seq<Seq<char>>,
    pub prompted: Seq<Seq<char>>,
    pub used: nat,
}

/// The model of a whole run: entries are handled in order; a prompt consumes
/// input lines from the front of `input` as `spec_confirm` does.
pub open spec fn run_model(es: Seq<EntryModel>, flags: CleanFlags, input: Seq<Seq<char>>) -> RunModel
    decreases es.len(),
{
    if es.len() == 0 {
        RunModel {
            cleaned: Seq::empty(),
            skipped: Seq::empty(),
            prompted: Seq::empty(),
            used: 0,
        }
    } else {
        let e = es[0];
        let t = spec_classify(e.has_dioxus_toml, e.has_cargo_toml);
        if t is Regular {
            run_model(es.drop_first(), flags, input)
        } else if spec_should_autoclean(t, flags.yes_dioxus, flags.yes_cargo, flags.yes_all) {
            let rest = run_model(es.drop_first(), flags, input);
            RunModel {
                cleaned: seq![(e.path, t)] + rest.cleaned,
                skipped: rest.skipped,
                prompted: rest.prompted,
                used: rest.used,
            }
        } else {
            let u = spec_confirm_used(input);
            let rest = run_model(es.drop_first(), flags, input.skip(u as int));
            match spec_confirm(input) {
                Some(d) => if d {
                    RunModel {
                        cleaned: seq![(e.path, t)] + rest.cleaned,
                        skipped: rest.skipped,
                        prompted: seq![e.path] + rest.prompted,
                        used: u + rest.used,
                    }
                } else {
                    RunModel {
                        cleaned: rest.cleaned,
                        skipped: seq![e.path] + rest.skipped,
                        prompted: seq![e.path] + rest.prompted,
                        used: u + rest.used,
                    }
                },
                None => RunModel {
                    cleaned: rest.cleaned,
                    skipped: rest.skipped,
                    prompted: seq![e.path] + rest.prompted,
                    used: u + rest.used,
                },
            }
        }
    }
}

/// Runs the whole decision flow over the visited entries, resolving every
/// prompt from the scripted input lines, and returns what was cleaned,
/// skipped and prompted, in encounter order.
pub fn run_walk(entries: &Vec<ScanEntry>, flags: CleanFlags, input: &Vec<String>) -> (r: RunResult)
    ensures
        ({
            let m = run_model(entries.deep_view(), flags, input.deep_view());
            &&& r.cleaned.deep_view() == m.cleaned
            &&& r.skipped.deep_view() == m.skipped
            &&& r.prompted.deep_view() == m.prompted
        }),
{
    let ghost es = entries.deep_view();
    let ghost lines = input.deep_view();
    let ghost m = run_model(es, flags, lines);
    let mut cleaned: Vec<CleanRequest> = Vec::new();
    let mut skipped: Vec<String> = Vec::new();
    let mut prompted: Vec<String> = Vec::new();
    let mut cursor: usize = 0;
    let mut idx: usize = 0;
    proof {
        assert(es.skip(0) =~= es);
        assert(lines.skip(0) =~= lines);
    }
    while idx < entries.len()
        invariant
            es == entries.deep_view(),
            lines == input.deep_view(),
            m == run_model(es, flags, lines),
            es.len() == entries.len(),
            lines.len() == input.len(),
            idx <= entries.len(),
            cursor <= input.len(),
            ({
                let rest = run_model(es.skip(idx as int), flags, lines.skip(cursor as int));
                &&& m.cleaned == cleaned.deep_view() + rest.cleaned
                &&& m.skipped == skipped.deep_view() + rest.skipped
                &&& m.prompted == prompted.deep_view() + rest.prompted
            }),
        decreases entries.len() - idx,
    {
        let ghost suffix = es.skip(idx as int);
        let ghost rest_input = lines.skip(cursor as int);
        proof {
            assert(suffix[0] == es[idx as int]);
            assert(suffix.drop_first() =~= es.skip(idx as int + 1));
        }
        let entry = &entries[idx];
        let t = ProjectType::new_from_path(entry.has_dioxus_toml, entry.has_cargo_toml);
        if matches!(t, ProjectType::Regular) {
            // nothing to do; the model's step leaves everything unchanged
        } else if t.should_autoclean(flags.yes_dioxus, flags.yes_cargo, flags.yes_all) {
            let ghost prev = cleaned.deep_view();
            cleaned.push(CleanRequest { path: entry.path.clone(), project_type: t });
            proof {
                assert(cleaned.deep_view() =~= prev.push((es[idx as int].path, t)));
                let rest = run_model(es.skip(idx as int + 1), flags, rest_input);
                assert(prev.push((es[idx as int].path, t)) + rest.cleaned =~= prev + (seq![
                    (es[idx as int].path, t),
                ] + rest.cleaned));
            }
        } else {
            let ghost prev_prompted = prompted.deep_view();
            prompted.push(entry.path.clone());
            let (ans, next) = confirm_from(input, cursor);
            let action = decide(t, flags.yes_dioxus, flags.yes_cargo, flags.yes_all, ans);
            proof {
                let u = spec_confirm_used(rest_input);
                assert(next == cursor + u);
                assert(lines.skip(cursor as int).skip(u as int) =~= lines.skip(next as int));
                let rest = run_model(es.skip(idx as int + 1), flags, lines.skip(next as int));
                assert(prompted.deep_view() =~= prev_prompted.push(es[idx as int].path));
                assert(prev_prompted.push(es[idx as int].path) + rest.prompted =~= prev_prompted
                    + (seq![es[idx as int].path] + rest.prompted));
            }
            match action {
                Action::Clean => {
                    let ghost prev = cleaned.deep_view();
                    cleaned.push(CleanRequest { path: entry.path.clone(), project_type: t });
                    proof {
                        let rest = run_model(
                            es.skip(idx as int + 1),
                            flags,
                            lines.skip(next as int),
                        );
                        assert(cleaned.deep_view() =~= prev.push((es[idx as int].path, t)));
                        assert(prev.push((es[idx as int].path, t)) + rest.cleaned =~= prev + (seq![
                            (es[idx as int].path, t),
                        ] + rest.cleaned));
                    }
                },
                Action::Skip => {
                    let ghost prev = skipped.deep_view();
                    skipped.push(entry.path.clone());
                    proof {
                        let rest = run_model(
                            es.skip(idx as int + 1),
                            flags,
                            lines.skip(next as int),
                        );
                        assert(skipped.deep_view() =~= prev.push(es[idx as int].path));
                        assert(prev.push(es[idx as int].path) + rest.skipped =~= prev + (seq![
                            es[idx as int].path,
                        ] + rest.skipped));
                    }
                },
                Action::Ignore => {},
            }
            cursor = next;
        }
        idx = idx + 1;
    }
    proof {
        let rest = run_model(es.skip(idx as int), flags, lines.skip(cursor as int));
        assert(es.skip(idx as int) =~= Seq::<EntryModel>::empty());
        assert(m.cleaned =~= cleaned.deep_view());
        assert(m.skipped =~= skipped.deep_view());
        assert(m.prompted =~= prompted.deep_view());
    }
    RunResult { cleaned, skipped, prompted }
}

/// The marked (non-regular) projects among the entries, in encounter order,
/// each with its classification.
pub open spec fn spec_marked_projects(es: Seq<EntryModel>) -> Seq<(Seq<char>, ProjectType)>
    decreases es.len(),
{
    if es.len() == 0 {
        Seq::empty()
    } else {
        let t = spec_classify(es[0].has_dioxus_toml, es[0].has_cargo_toml);
        let rest = spec_marked_projects(es.drop_first());
        if t is Regular {
            rest
        } else {
            seq![(es[0].path, t)] + rest
        }
    }
}

/// The paths of the marked (non-regular) projects, in encounter order.
pub open spec fn spec_marked_paths(es: Seq<EntryModel>) -> Seq<Seq<char>>
    decreases es.len(),
{
    if es.len() == 0 {
        Seq::empty()
    } else {
        let t = spec_classify(es[0].has_dioxus_toml, es[0].has_cargo_toml);
        let rest = spec_marked_paths(es.drop_first());
        if t is Regular {
            rest
        } else {
            seq![es[0].path] + rest
        }
    }
}

/// With `--yes-all` set, no prompt is ever shown, no input line is read,
/// nothing is skipped, and every non-regular project is passed to the Cleaner
/// exactly once, in encounter order.
pub proof fn lemma_yes_all_cleans_everything(
    es: Seq<EntryModel>,
    flags: CleanFlags,
    input: Seq<Seq<char>>,
)
    requires
        flags.yes_all,
    ensures
        run_model(es, flags, input).prompted.len() == 0,
        run_model(es, flags, input).skipped.len() == 0,
        run_model(es, flags, input).used == 0,
        run_model(es, flags, input).cleaned == spec_marked_projects(es),
    decreases es.len(),
{
    if es.len() > 0 {
        lemma_yes_all_cleans_everything(es.drop_first(), flags, input);
    }
}

/// With no auto-clean flag set and every scripted input line reading as a
/// decline, nothing is cleaned, and the skipped list (like the prompts) is
/// exactly the ordered list of the non-regular project paths, one input line
/// being consumed per prompt.
pub proof fn lemma_all_declined_skips_everything(
    es: Seq<EntryModel>,
    flags: CleanFlags,
    input: Seq<Seq<char>>,
)
    requires
        !flags.yes_all && !flags.yes_cargo && !flags.yes_dioxus,
        forall|k: int|
            0 <= k < input.len() ==> crate::confirm::spec_parse_answer(#[trigger] input[k])
                == crate::confirm::Answer::No,
        input.len() >= spec_marked_paths(es).len(),
    ensures
        run_model(es, flags, input).cleaned.len() == 0,
        run_model(es, flags, input).skipped == spec_marked_paths(es),
        run_model(es, flags, input).prompted == spec_marked_paths(es),
        run_model(es, flags, input).used == spec_marked_paths(es).len(),
    decreases es.len(),
{
    if es.len() > 0 {
        let e = es[0];
        let t = spec_classify(e.has_dioxus_toml, e.has_cargo_toml);
        if t is Regular {
            lemma_all_declined_skips_everything(es.drop_first(), flags, input);
        } else {
            assert(spec_marked_paths(es).len() == 1 + spec_marked_paths(es.drop_first()).len());
            assert(spec_confirm(input) == Some(false));
            assert(spec_confirm_used(input) == 1);
            let tail_input = input.skip(1);
            assert forall|k: int|
                0 <= k < tail_input.len() implies crate::confirm::spec_parse_answer(
                #[trigger] tail_input[k],
            ) == crate::confirm::Answer::No by {
                assert(tail_input[k] == input[k + 1]);
            }
            lemma_all_declined_skips_everything(es.drop_first(), flags, tail_input);
        }
    }
}

/// Holds when entry `i` is a marked (non-regular) project at path `p`.
pub open spec fn entry_is_marked_at(es: Seq<EntryModel>, i: int, p: Seq<char>) -> bool {
    &&& 0 <= i < es.len()
    &&& es[i].path == p
    &&& !(spec_classify(es[i].has_dioxus_toml, es[i].has_cargo_toml) is Regular)
}

/// Holds when some marked (non-regular) entry has path `p`.
pub open spec fn some_marked_entry_at(es: Seq<EntryModel>, p: Seq<char>) -> bool {
    exists|i: int| #[trigger] entry_is_marked_at(es, i, p)
}

/// Holds when entry `i` is a marked project at path `p` classified as `t`.
pub open spec fn entry_is_marked_as(
    es: Seq<EntryModel>,
    i: int,
    p: Seq<char>,
    t: ProjectType,
) -> bool {
    &&& 0 <= i < es.len()
    &&& es[i].path == p
    &&& spec_classify(es[i].has_dioxus_toml, es[i].has_cargo_toml) == t
    &&& !(t is Regular)
}

/// Holds when some entry is a marked project at path `p` classified as `t`.
pub open spec fn some_marked_entry_as(es: Seq<EntryModel>, p: Seq<char>, t: ProjectType) -> bool {
    exists|i: int| #[trigger] entry_is_marked_as(es, i, p, t)
}

/// Regular directories are inert: every prompted path, every skipped path and
/// every clean request of a run stems from an entry that is classified as a
/// non-regular project. A directory classified `Regular` is never prompted,
/// never cleaned and never appears in the skipped list.
pub proof fn lemma_regular_is_inert(es: Seq<EntryModel>, flags: CleanFlags, input: Seq<Seq<char>>)
    ensures
        forall|k: int|
            0 <= k < run_model(es, flags, input).prompted.len() ==> some_marked_entry_at(
                es,
                #[trigger] run_model(es, flags, input).prompted[k],
            ),
        forall|k: int|
            0 <= k < run_model(es, flags, input).skipped.len() ==> some_marked_entry_at(
                es,
                #[trigger] run_model(es, flags, input).skipped[k],
            ),
        forall|k: int|
            0 <= k < run_model(es, flags, input).cleaned.len() ==> some_marked_entry_as(
                es,
                (#[trigger] run_model(es, flags, input).cleaned[k]).0,
                run_model(es, flags, input).cleaned[k].1,
            ),
    decreases es.len(),
{
    let m = run_model(es, flags, input);
    if es.len() == 0 {
    } else {
        let e = es[0];
        let tail = es.drop_first();
        let t = spec_classify(e.has_dioxus_toml, e.has_cargo_toml);
        let tail_input = if t is Regular || spec_should_autoclean(
            t,
            flags.yes_dioxus,
            flags.yes_cargo,
            flags.yes_all,
        ) {
            input
        } else {
            input.skip(spec_confirm_used(input) as int)
        };
        lemma_regular_is_inert(tail, flags, tail_input);
        let rest = run_model(tail, flags, tail_input);
        assert forall|k: int| 0 <= k < m.prompted.len() implies some_marked_entry_at(
            es,
            #[trigger] m.prompted[k],
        ) by {
            if !(t is Regular) && !spec_should_autoclean(
                t,
                flags.yes_dioxus,
                flags.yes_cargo,
                flags.yes_all,
            ) && k == 0 {
                assert(entry_is_marked_at(es, 0, m.prompted[k]));
            } else {
                let off: int = if m.prompted.len() == rest.prompted.len() {
                    0
                } else {
                    1
                };
                assert(m.prompted[k] == rest.prompted[k - off]);
                let w = choose|i: int| #[trigger] entry_is_marked_at(tail, i, rest.prompted[k - off]);
                assert(tail[w] == es[w + 1]);
                assert(entry_is_marked_at(es, w + 1, m.prompted[k]));
            }
        }
        assert forall|k: int| 0 <= k < m.skipped.len() implies some_marked_entry_at(
            es,
            #[trigger] m.skipped[k],
        ) by {
            if m.skipped.len() != rest.skipped.len() && k == 0 {
                assert(entry_is_marked_at(es, 0, m.skipped[k]));
            } else {
                let off: int = if m.skipped.len() == rest.skipped.len() {
                    0
                } else {
                    1
                };
                assert(m.skipped[k] == rest.skipped[k - off]);
                let w = choose|i: int| #[trigger] entry_is_marked_at(tail, i, rest.skipped[k - off]);
                assert(tail[w] == es[w + 1]);
                assert(entry_is_marked_at(es, w + 1, m.skipped[k]));
            }
        }
        assert forall|k: int| 0 <= k < m.cleaned.len() implies some_marked_entry_as(
            es,
            (#[trigger] m.cleaned[k]).0,
            m.cleaned[k].1,
        ) by {
            if m.cleaned.len() != rest.cleaned.len() && k == 0 {
                assert(entry_is_marked_as(es, 0, m.cleaned[k].0, m.cleaned[k].1));
            } else {
                let off: int = if m.cleaned.len() == rest.cleaned.len() {
                    0
                } else {
                    1
                };
                assert(m.cleaned[k] == rest.cleaned[k - off]);
                let w = choose|i: int|
                    #[trigger] entry_is_marked_as(tail, i, rest.cleaned[k - off].0, rest.cleaned[k - off].1);
                assert(tail[w] == es[w + 1]);
                assert(entry_is_marked_as(es, w + 1, m.cleaned[k].0, m.cleaned[k].1));
            }
        }
    }
}

/// The skipped list holds only paths whose prompt was shown and declined:
/// every skipped path of a run appears among its prompted paths. Clean
/// outcomes are no input to the run at all, so a failed clean can never put
/// a path on the skipped list.
pub proof fn lemma_skipped_were_prompted(
    es: Seq<EntryModel>,
    flags: CleanFlags,
    input: Seq<Seq<char>>,
)
    ensures
        forall|k: int|
            0 <= k < run_model(es, flags, input).skipped.len() ==> run_model(
                es,
                flags,
                input,
            ).prompted.contains(#[trigger] run_model(es, flags, input).skipped[k]),
    decreases es.len(),
{
    let m = run_model(es, flags, input);
    if es.len() == 0 {
    } else {
        let e = es[0];
        let tail = es.drop_first();
        let t = spec_classify(e.has_dioxus_toml, e.has_cargo_toml);
        let tail_input = if t is Regular || spec_should_autoclean(
            t,
            flags.yes_dioxus,
            flags.yes_cargo,
            flags.yes_all,
        ) {
            input
        } else {
            input.skip(spec_confirm_used(input) as int)
        };
        lemma_skipped_were_prompted(tail, flags, tail_input);
        let rest = run_model(tail, flags, tail_input);
        assert forall|k: int| 0 <= k < m.skipped.len() implies m.prompted.contains(
            #[trigger] m.skipped[k],
        ) by {
            if m.skipped.len() != rest.skipped.len() && k == 0 {
                assert(m.prompted[0] == m.skipped[0]);
            } else {
                let off: int = if m.skipped.len() == rest.skipped.len() {
                    0
                } else {
                    1
                };
                assert(m.skipped[k] == rest.skipped[k - off]);
                assert(rest.prompted.contains(rest.skipped[k - off]));
                let w = choose|i: int|
                    0 <= i < rest.prompted.len() && rest.prompted[i] == rest.skipped[k - off];
                let poff: int = if m.prompted.len() == rest.prompted.len() {
                    0
                } else {
                    1
                };
                assert(m.prompted[w + poff] == rest.prompted[w]);
            }
        }
    }
}

/// An invalid answer line only repeats the prompt: when the current project
/// needs a confirmation and the first input line is invalid, the run is the
/// run on the remaining input, with one more line consumed.
pub proof fn lemma_invalid_line_reprompts(
    es: Seq<EntryModel>,
    flags: CleanFlags,
    input: Seq<Seq<char>>,
)
    requires
        es.len() > 0,
        !(spec_classify(es[0].has_dioxus_toml, es[0].has_cargo_toml) is Regular),
        !spec_should_autoclean(
            spec_classify(es[0].has_dioxus_toml, es[0].has_cargo_toml),
            flags.yes_dioxus,
            flags.yes_cargo,
            flags.yes_all,
        ),
        input.len() > 0,
        crate::confirm::spec_parse_answer(input[0]) == crate::confirm::Answer::Invalid,
    ensures
        run_model(es, flags, input).cleaned == run_model(es, flags, input.drop_first()).cleaned,
        run_model(es, flags, input).skipped == run_model(es, flags, input.drop_first()).skipped,
        run_model(es, flags, input).prompted == run_model(es, flags, input.drop_first()).prompted,
        run_model(es, flags, input).used == 1 + run_model(es, flags, input.drop_first()).used,
{
    let shorter = input.drop_first();
    assert(spec_confirm(input) == spec_confirm(shorter));
    assert(spec_confirm_used(input) == 1 + spec_confirm_used(shorter));
    let u = spec_confirm_used(shorter);
    lemma_confirm_used_le(shorter);
    assert(input.skip(1 + u as int) =~= shorter.skip(u as int));
}

} // verus!
