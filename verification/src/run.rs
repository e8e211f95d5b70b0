//! The feature loop's state and decisions.
//!
//! Features are processed one by one in their fixed order; each one ends in a
//! single outcome, which appends its exact diagnostic lines and, only on a
//! successful probe, the feature itself to the accumulated set. The caller
//! performs the outside work (environment lookups, the probe compile and run)
//! and hands back nothing but the outcome.

use vstd::prelude::*;

use crate::gate::InhibitAction;
use crate::probe::{probe_source_spec, push_str_vec};
use crate::text::{bool_str, concat3, concat5, views};

verus! {

/// The diagnostic before a feature is considered.
pub open spec fn checking_line(f: Seq<char>) -> Seq<char> {
    "# checking for "@ + f + "\n"@
}

/// The diagnostic for a manually overridden feature.
pub open spec fn manual_line(f: Seq<char>) -> Seq<char> {
    "# test for '"@ + f + "' manually overridden\n"@
}

/// The diagnostic for a feature without a probe source.
pub open spec fn absent_line(f: Seq<char>) -> Seq<char> {
    "# test for '"@ + f + "' does not exist\n"@
}

/// The diagnostic naming an existing probe source.
pub open spec fn exists_line(src: Seq<char>) -> Seq<char> {
    "# "@ + src + " exists\n"@
}

/// The rebuild-watch directive for an attempted probe source.
pub open spec fn rerun_line(src: Seq<char>) -> Seq<char> {
    "cargo:rerun-if-changed="@ + src + "\n"@
}

/// The diagnostic for a probe that compiled.
pub open spec fn compile_ok_line(f: Seq<char>) -> Seq<char> {
    "# compiling ConfTest for "@ + f + " success\n"@
}

/// The diagnostic for a probe that did not compile.
pub open spec fn compile_fail_line(f: Seq<char>) -> Seq<char> {
    "# compiling ConfTest for "@ + f + " failed\n"@
}

/// The diagnostic for a probe that ran and exited successfully.
pub open spec fn run_ok_line(f: Seq<char>) -> Seq<char> {
    "# executing ConfTest for "@ + f + " success\n"@
}

/// The diagnostic for a probe that ran and failed.
pub open spec fn run_fail_line(f: Seq<char>) -> Seq<char> {
    "# executing ConfTest for "@ + f + " failed\n"@
}

/// The enable-feature directive.
pub open spec fn enable_line(f: Seq<char>) -> Seq<char> {
    "cargo:rustc-cfg=feature=\""@ + f + "\"\n"@
}

/// The separator after each feature's block.
pub open spec fn blank_line() -> Seq<char> {
    "\n"@
}

/// The one diagnostic of a skipped run.
pub open spec fn skip_line() -> Seq<char> {
    "cargo:warning=Skipping ConfTest via CONF_TEST_INHIBIT\n"@
}

/// The one diagnostic of a run failed on request.
pub open spec fn fail_line() -> Seq<char> {
    "cargo:warning=Requested ConfTest failure via CONF_TEST_INHIBIT\n"@
}

/// The diagnostic of documentation mode.
pub open spec fn docs_line() -> Seq<char> {
    "# running on DOCS.RS\n"@
}

/// The run's opening diagnostic, naming the output directory.
pub open spec fn header_line(out_dir: Seq<char>) -> Seq<char> {
    "# OUT_DIR is '"@ + out_dir + "'\n"@
}

/// The diagnostic naming the lockfile and whether it was present.
pub open spec fn lockfile_line(lock: Seq<char>, present: bool) -> Seq<char> {
    "# Lockfile '"@ + lock + "' present: "@ + (if present {
        "true"@
    } else {
        "false"@
    }) + "\n"@
}

/// The diagnostic noting the cleanup of a lockfile that was not there.
pub open spec fn lockfile_delete_line(lock: Seq<char>, removed: bool) -> Seq<char> {
    "# Delete Lockfile: '"@ + lock + "', "@ + (if removed {
        "true"@
    } else {
        "false"@
    }) + "\n"@
}

/// How one feature's consideration ended.
pub enum ProbeOutcome {
    /// The invoking build command set the feature itself; nothing is probed.
    ManuallySet,
    /// No probe source exists for the feature; not an error.
    NoSource,
    /// The probe source did not compile.
    CompileFailed,
    /// The probe binary failed to run or exited nonzero.
    RunFailed,
    /// The probe exited successfully, with its captured standard output.
    Enabled(String),
}

/// The mathematical shape of an outcome.
pub enum OutcomeV {
    ManuallySet,
    NoSource,
    CompileFailed,
    RunFailed,
    Enabled(Seq<char>),
}

impl View for ProbeOutcome {
    type V = OutcomeV;

    open spec fn view(&self) -> OutcomeV {
        match self {
            ProbeOutcome::ManuallySet => OutcomeV::ManuallySet,
            ProbeOutcome::NoSource => OutcomeV::NoSource,
            ProbeOutcome::CompileFailed => OutcomeV::CompileFailed,
            ProbeOutcome::RunFailed => OutcomeV::RunFailed,
            ProbeOutcome::Enabled(out) => OutcomeV::Enabled(out@),
        }
    }
}

/// The diagnostic block one outcome appends.
pub open spec fn outcome_lines(f: Seq<char>, o: OutcomeV) -> Seq<Seq<char>> {
    let src = probe_source_spec(f);
    match o {
        OutcomeV::ManuallySet => seq![manual_line(f), blank_line()],
        OutcomeV::NoSource => seq![checking_line(f), absent_line(f), blank_line()],
        OutcomeV::CompileFailed => seq![
            checking_line(f),
            exists_line(src),
            rerun_line(src),
            compile_fail_line(f),
            blank_line(),
        ],
        OutcomeV::RunFailed => seq![
            checking_line(f),
            exists_line(src),
            rerun_line(src),
            compile_ok_line(f),
            run_fail_line(f),
            blank_line(),
        ],
        OutcomeV::Enabled(out) => seq![
            checking_line(f),
            exists_line(src),
            rerun_line(src),
            compile_ok_line(f),
            run_ok_line(f),
            enable_line(f),
            out,
            blank_line(),
        ],
    }
}

/// The run's growing state: the accumulated feature set and the ordered log.
pub struct RunState {
    /// Features probed present so far, in probing order.
    pub enabled: Vec<String>,
    /// Every diagnostic and directive line so far, in order.
    pub outputs: Vec<String>,
}

/// The mathematical shape of the run state.
#[verifier::ext_equal]
pub struct RunStateV {
    pub enabled: Seq<Seq<char>>,
    pub outputs: Seq<Seq<char>>,
}

impl View for RunState {
    type V = RunStateV;

    open spec fn view(&self) -> RunStateV {
        RunStateV { enabled: views(self.enabled@), outputs: views(self.outputs@) }
    }
}

/// Processing one feature: its block joins the log; only a successful probe
/// joins the accumulated set.
pub open spec fn spec_record_feature(s: RunStateV, f: Seq<char>, o: OutcomeV) -> RunStateV {
    RunStateV {
        enabled: match o {
            OutcomeV::Enabled(_) => s.enabled.push(f),
            _ => s.enabled,
        },
        outputs: s.outputs + outcome_lines(f, o),
    }
}

/// A whole pass over the features, in the order given, one outcome each.
pub open spec fn spec_run_features(
    s: RunStateV,
    fs: Seq<Seq<char>>,
    os: Seq<OutcomeV>,
) -> RunStateV
    decreases fs.len(),
{
    if fs.len() == 0 || os.len() == 0 {
        s
    } else {
        spec_run_features(spec_record_feature(s, fs[0], os[0]), fs.skip(1), os.skip(1))
    }
}

/// One more feature extends the pass at its end.
pub proof fn lemma_run_push(s: RunStateV, fs: Seq<Seq<char>>, os: Seq<OutcomeV>, f: Seq<char>, o: OutcomeV)
    requires
        fs.len() == os.len(),
    ensures
        spec_run_features(s, fs.push(f), os.push(o)) == spec_record_feature(
            spec_run_features(s, fs, os),
            f,
            o,
        ),
    decreases fs.len(),
{
    let pf = fs.push(f);
    let po = os.push(o);
    if fs.len() == 0 {
        assert(pf[0] == f);
        assert(po[0] == o);
        assert(pf.skip(1) =~= Seq::<Seq<char>>::empty());
        assert(po.skip(1) =~= Seq::<OutcomeV>::empty());
        assert(spec_run_features(spec_record_feature(s, f, o), pf.skip(1), po.skip(1))
            == spec_record_feature(s, f, o));
    } else {
        assert(pf[0] == fs[0]);
        assert(po[0] == os[0]);
        assert(pf.skip(1) =~= fs.skip(1).push(f));
        assert(po.skip(1) =~= os.skip(1).push(o));
        lemma_run_push(spec_record_feature(s, fs[0], os[0]), fs.skip(1), os.skip(1), f, o);
    }
}

/// An empty run state.
pub fn new_run_state() -> (r: RunState)
    ensures
        r@.enabled =~= Seq::<Seq<char>>::empty(),
        r@.outputs =~= Seq::<Seq<char>>::empty(),
{
    let r = RunState { enabled: Vec::new(), outputs: Vec::new() };
    proof {
        assert(views(r.enabled@) =~= Seq::<Seq<char>>::empty());
        assert(views(r.outputs@) =~= Seq::<Seq<char>>::empty());
    }
    r
}

/// Opens the log with the header naming the output directory.
pub fn begin_run(out_dir: &String) -> (r: RunState)
    ensures
        r@.enabled =~= Seq::<Seq<char>>::empty(),
        r@.outputs =~= seq![header_line(out_dir@)],
{
    let mut r = new_run_state();
    let l = concat3("# OUT_DIR is '", out_dir.as_str(), "'\n");
    push_str_vec(&mut r.outputs, l);
    proof {
        assert(r@.outputs =~= seq![header_line(out_dir@)]);
    }
    r
}

/// Notes whether the project's lockfile was present.
pub fn note_lockfile(state: &mut RunState, lock: &String, present: bool)
    ensures
        final(state)@.outputs == old(state)@.outputs.push(lockfile_line(lock@, present)),
        final(state)@.enabled == old(state)@.enabled,
{
    let l = concat5("# Lockfile '", lock.as_str(), "' present: ", bool_str(present), "\n");
    push_str_vec(&mut state.outputs, l);
}

/// Notes the attempt to take a freshly created lockfile away again.
pub fn note_lockfile_delete(state: &mut RunState, lock: &String, removed: bool)
    ensures
        final(state)@.outputs == old(state)@.outputs.push(lockfile_delete_line(lock@, removed)),
        final(state)@.enabled == old(state)@.enabled,
{
    let l = concat5("# Delete Lockfile: '", lock.as_str(), "', ", bool_str(removed), "\n");
    push_str_vec(&mut state.outputs, l);
}

/// Records one feature's outcome: exactly its diagnostic block, and the
/// feature itself only when its probe succeeded.
pub fn record_feature(state: &mut RunState, feature: &String, outcome: &ProbeOutcome)
    ensures
        final(state)@ == spec_record_feature(old(state)@, feature@, outcome@),
{
    let src = crate::probe::probe_source_path(feature);
    match outcome {
        ProbeOutcome::ManuallySet => {
            let l = concat3("# test for '", feature.as_str(), "' manually overridden\n");
            push_str_vec(&mut state.outputs, l);
            push_str_vec(&mut state.outputs, String::from_str("\n"));
        },
        ProbeOutcome::NoSource => {
            let l = concat3("# checking for ", feature.as_str(), "\n");
            push_str_vec(&mut state.outputs, l);
            let l = concat3("# test for '", feature.as_str(), "' does not exist\n");
            push_str_vec(&mut state.outputs, l);
            push_str_vec(&mut state.outputs, String::from_str("\n"));
        },
        ProbeOutcome::CompileFailed => {
            let l = concat3("# checking for ", feature.as_str(), "\n");
            push_str_vec(&mut state.outputs, l);
            let l = concat3("# ", src.as_str(), " exists\n");
            push_str_vec(&mut state.outputs, l);
            let l = concat3("cargo:rerun-if-changed=", src.as_str(), "\n");
            push_str_vec(&mut state.outputs, l);
            let l = concat3("# compiling ConfTest for ", feature.as_str(), " failed\n");
            push_str_vec(&mut state.outputs, l);
            push_str_vec(&mut state.outputs, String::from_str("\n"));
        },
        ProbeOutcome::RunFailed => {
            let l = concat3("# checking for ", feature.as_str(), "\n");
            push_str_vec(&mut state.outputs, l);
            let l = concat3("# ", src.as_str(), " exists\n");
            push_str_vec(&mut state.outputs, l);
            let l = concat3("cargo:rerun-if-changed=", src.as_str(), "\n");
            push_str_vec(&mut state.outputs, l);
            let l = concat3("# compiling ConfTest for ", feature.as_str(), " success\n");
            push_str_vec(&mut state.outputs, l);
            let l = concat3("# executing ConfTest for ", feature.as_str(), " failed\n");
            push_str_vec(&mut state.outputs, l);
            push_str_vec(&mut state.outputs, String::from_str("\n"));
        },
        ProbeOutcome::Enabled(out) => {
            let l = concat3("# checking for ", feature.as_str(), "\n");
            push_str_vec(&mut state.outputs, l);
            let l = concat3("# ", src.as_str(), " exists\n");
            push_str_vec(&mut state.outputs, l);
            let l = concat3("cargo:rerun-if-changed=", src.as_str(), "\n");
            push_str_vec(&mut state.outputs, l);
            let l = concat3("# compiling ConfTest for ", feature.as_str(), " success\n");
            push_str_vec(&mut state.outputs, l);
            let l = concat3("# executing ConfTest for ", feature.as_str(), " success\n");
            push_str_vec(&mut state.outputs, l);
            let l = concat3("cargo:rustc-cfg=feature=\"", feature.as_str(), "\"\n");
            push_str_vec(&mut state.outputs, l);
            push_str_vec(&mut state.outputs, out.clone());
            push_str_vec(&mut state.outputs, String::from_str("\n"));
            push_str_vec(&mut state.enabled, feature.clone());
        },
    }
    proof {
        assert(final(state)@.outputs =~= old(state)@.outputs + outcome_lines(
            feature@,
            outcome@,
        ));
        assert(final(state)@ =~= spec_record_feature(old(state)@, feature@, outcome@));
    }
}

/// A whole pass over features and their outcomes, pairwise in order.
pub fn run_features(state: &mut RunState, features: &Vec<String>, outcomes: &Vec<ProbeOutcome>)
    requires
        features@.len() == outcomes@.len(),
    ensures
        final(state)@ == spec_run_features(
            old(state)@,
            views(features@),
            outcomes@.map_values(|o: ProbeOutcome| o@),
        ),
{
    let ghost fs = views(features@);
    let ghost os = outcomes@.map_values(|o: ProbeOutcome| o@);
    let mut i: usize = 0;
    proof {
        assert(fs.take(0) =~= Seq::<Seq<char>>::empty());
        assert(os.take(0) =~= Seq::<OutcomeV>::empty());
    }
    while i < features.len()
        invariant
            i <= features@.len(),
            features@.len() == outcomes@.len(),
            fs == views(features@),
            os == outcomes@.map_values(|o: ProbeOutcome| o@),
            state@ == spec_run_features(old(state)@, fs.take(i as int), os.take(i as int)),
        decreases features@.len() - i,
    {
        proof {
            assert(fs[i as int] == features@[i as int]@);
            assert(os[i as int] == outcomes@[i as int]@);
            assert(fs.take(i as int + 1) =~= fs.take(i as int).push(fs[i as int]));
            assert(os.take(i as int + 1) =~= os.take(i as int).push(os[i as int]));
            lemma_run_push(old(state)@, fs.take(i as int), os.take(i as int), fs[i as int], os[i as int]);
        }
        record_feature(state, &features[i], &outcomes[i]);
        i = i + 1;
    }
    proof {
        assert(fs.take(features@.len() as int) =~= fs);
        assert(os.take(outcomes@.len() as int) =~= os);
    }
}

/// What the documentation-mode short circuit enables: the reserved feature
/// alone, and only if it is declared.
pub open spec fn spec_docs_enabled(features: Seq<Seq<char>>) -> Seq<Seq<char>> {
    if features.contains("docs_rs"@) {
        seq!["docs_rs"@]
    } else {
        Seq::empty()
    }
}

/// The log of the documentation-mode short circuit.
pub open spec fn spec_docs_outputs(features: Seq<Seq<char>>) -> Seq<Seq<char>> {
    if features.contains("docs_rs"@) {
        seq![docs_line(), enable_line("docs_rs"@)]
    } else {
        seq![docs_line()]
    }
}

/// Documentation mode: nothing is compiled or run; the reserved feature is
/// enabled unconditionally if declared, and nothing else ever is.
pub fn docs_rs_run(features: &Vec<String>) -> (r: RunState)
    ensures
        r@.outputs == spec_docs_outputs(views(features@)),
        r@.enabled == spec_docs_enabled(views(features@)),
{
    let mut r = new_run_state();
    push_str_vec(&mut r.outputs, String::from_str("# running on DOCS.RS\n"));
    let docs = String::from_str("docs_rs");
    if crate::text::contains_str(features, &docs) {
        let l = concat3("cargo:rustc-cfg=feature=\"", "docs_rs", "\"\n");
        push_str_vec(&mut r.outputs, l);
        push_str_vec(&mut r.enabled, docs);
        proof {
            assert(r@.outputs =~= spec_docs_outputs(views(features@)));
            assert(r@.enabled =~= spec_docs_enabled(views(features@)));
        }
    } else {
        proof {
            assert(r@.outputs =~= spec_docs_outputs(views(features@)));
            assert(r@.enabled =~= spec_docs_enabled(views(features@)));
        }
    }
    r
}

/// What the inhibition value alone contributes to the log: one warning on
/// skip, one on a requested failure, nothing otherwise.
pub open spec fn spec_gate_outputs(a: InhibitAction) -> Seq<Seq<char>> {
    match a {
        InhibitAction::Skip => seq![skip_line()],
        InhibitAction::Fail => seq![fail_line()],
        _ => Seq::empty(),
    }
}

/// Builds the inhibition warning lines for the action.
pub fn gate_outputs(action: &InhibitAction) -> (r: Vec<String>)
    ensures
        views(r@) == spec_gate_outputs(*action),
{
    let mut r: Vec<String> = Vec::new();
    proof {
        assert(views(r@) =~= Seq::<Seq<char>>::empty());
    }
    match action {
        InhibitAction::Skip => {
            push_str_vec(&mut r, String::from_str("cargo:warning=Skipping ConfTest via CONF_TEST_INHIBIT\n"));
        },
        InhibitAction::Fail => {
            push_str_vec(
                &mut r,
                String::from_str("cargo:warning=Requested ConfTest failure via CONF_TEST_INHIBIT\n"),
            );
        },
        _ => {},
    }
    r
}

/// What is done about one feature before anything is compiled.
#[derive(Clone, Copy, PartialEq, Eq, Structural, Debug)]
pub enum FeatureAction {
    /// The feature was manually requested: probe nothing.
    SkipManual,
    /// No probe source exists: record its absence and move on.
    SkipAbsent,
    /// Compile and run the feature's probe.
    Probe,
}

/// A probe is attempted exactly for a feature that is not manually set and
/// has a probe source.
pub fn plan_feature(manually_set: bool, probe_exists: bool) -> (a: FeatureAction)
    ensures
        (a == FeatureAction::Probe) == (!manually_set && probe_exists),
        (a == FeatureAction::SkipManual) == manually_set,
        (a == FeatureAction::SkipAbsent) == (!manually_set && !probe_exists),
{
    if manually_set {
        FeatureAction::SkipManual
    } else if probe_exists {
        FeatureAction::Probe
    } else {
        FeatureAction::SkipAbsent
    }
}

} // verus!
