//! What holds of every run, proved once and for all.

use vstd::prelude::*;

use crate::gate::{inhibit_spec, InhibitAction};
use crate::run::{
    enable_line, spec_docs_enabled, spec_gate_outputs, spec_record_feature, spec_run_features,
    skip_line, OutcomeV, RunStateV,
};

verus! {

/// The features a pass adds, in order: those whose probe succeeded.
pub open spec fn enabled_of(fs: Seq<Seq<char>>, os: Seq<OutcomeV>) -> Seq<Seq<char>>
    decreases fs.len(),
{
    if fs.len() == 0 || os.len() == 0 {
        Seq::empty()
    } else {
        (match os[0] {
            OutcomeV::Enabled(_) => seq![fs[0]],
            _ => Seq::<Seq<char>>::empty(),
        }) + enabled_of(fs.skip(1), os.skip(1))
    }
}

/// A pass adds exactly the successfully probed features, after what was
/// already there.
pub proof fn lemma_run_enabled(s: RunStateV, fs: Seq<Seq<char>>, os: Seq<OutcomeV>)
    requires
        fs.len() == os.len(),
    ensures
        spec_run_features(s, fs, os).enabled == s.enabled + enabled_of(fs, os),
    decreases fs.len(),
{
    if fs.len() == 0 {
        assert(s.enabled + enabled_of(fs, os) =~= s.enabled);
    } else {
        let s1 = spec_record_feature(s, fs[0], os[0]);
        lemma_run_enabled(s1, fs.skip(1), os.skip(1));
        match os[0] {
            OutcomeV::Enabled(_) => {
                assert(s1.enabled =~= s.enabled + seq![fs[0]]);
                assert((s.enabled + seq![fs[0]]) + enabled_of(fs.skip(1), os.skip(1)) =~= s.enabled
                    + (seq![fs[0]] + enabled_of(fs.skip(1), os.skip(1))));
            },
            _ => {
                assert(s.enabled + enabled_of(fs.skip(1), os.skip(1)) =~= s.enabled + (
                Seq::<Seq<char>>::empty() + enabled_of(fs.skip(1), os.skip(1))));
            },
        }
    }
}

/// Enablement is monotonic: everything enabled stays enabled, in place; the
/// accumulated set only grows at its end.
pub proof fn lemma_enablement_monotonic(s: RunStateV, fs: Seq<Seq<char>>, os: Seq<OutcomeV>)
    requires
        fs.len() == os.len(),
    ensures
        spec_run_features(s, fs, os).enabled.len() >= s.enabled.len(),
        s.enabled.is_prefix_of(spec_run_features(s, fs, os).enabled),
{
    lemma_run_enabled(s, fs, os);
    assert((s.enabled + enabled_of(fs, os)).take(s.enabled.len() as int) =~= s.enabled);
}

/// A feature never probed successfully — absent, manually set, or failed,
/// at every position bearing its name — is not in the final set unless it
/// was already there.
pub proof fn lemma_not_enabled(s: RunStateV, fs: Seq<Seq<char>>, os: Seq<OutcomeV>, t: Seq<char>)
    requires
        fs.len() == os.len(),
        !s.enabled.contains(t),
        forall|i: int| 0 <= i < fs.len() && fs[i] == t ==> !((#[trigger] os[i]) is Enabled),
    ensures
        !spec_run_features(s, fs, os).enabled.contains(t),
    decreases fs.len(),
{
    if fs.len() > 0 {
        let s1 = spec_record_feature(s, fs[0], os[0]);
        assert(!s1.enabled.contains(t)) by {
            match os[0] {
                OutcomeV::Enabled(_) => {
                    assert(fs[0] != t);
                    vstd::seq_lib::lemma_seq_contains_after_push(s.enabled, fs[0], t);
                },
                _ => {},
            }
        }
        assert(forall|i: int|
            0 <= i < fs.skip(1).len() && fs.skip(1)[i] == t ==> !((#[trigger] os.skip(1)[i])
                is Enabled)) by {
            assert(forall|i: int| 0 <= i < fs.skip(1).len() ==> #[trigger] fs.skip(1)[i] == fs[i + 1]);
            assert(forall|i: int| 0 <= i < os.skip(1).len() ==> #[trigger] os.skip(1)[i] == os[i + 1]);
        }
        lemma_not_enabled(s1, fs.skip(1), os.skip(1), t);
    }
}

/// A feature with no probe source anywhere it is named is never enabled.
pub proof fn lemma_absent_never_enabled(
    s: RunStateV,
    fs: Seq<Seq<char>>,
    os: Seq<OutcomeV>,
    t: Seq<char>,
)
    requires
        fs.len() == os.len(),
        !s.enabled.contains(t),
        forall|i: int| 0 <= i < fs.len() && fs[i] == t ==> (#[trigger] os[i]) is NoSource,
    ensures
        !spec_run_features(s, fs, os).enabled.contains(t),
{
    lemma_not_enabled(s, fs, os, t);
}

/// A manually set feature is excluded from the propagated set.
pub proof fn lemma_manual_never_propagated(
    s: RunStateV,
    fs: Seq<Seq<char>>,
    os: Seq<OutcomeV>,
    t: Seq<char>,
)
    requires
        fs.len() == os.len(),
        !s.enabled.contains(t),
        forall|i: int| 0 <= i < fs.len() && fs[i] == t ==> (#[trigger] os[i]) is ManuallySet,
    ensures
        !spec_run_features(s, fs, os).enabled.contains(t),
{
    lemma_not_enabled(s, fs, os, t);
}

/// What was enabled persists through any further features.
pub proof fn lemma_enabled_persists(s: RunStateV, fs: Seq<Seq<char>>, os: Seq<OutcomeV>, t: Seq<char>)
    requires
        fs.len() == os.len(),
        s.enabled.contains(t),
    ensures
        spec_run_features(s, fs, os).enabled.contains(t),
    decreases fs.len(),
{
    if fs.len() > 0 {
        let s1 = spec_record_feature(s, fs[0], os[0]);
        assert(s1.enabled.contains(t)) by {
            match os[0] {
                OutcomeV::Enabled(_) => {
                    vstd::seq_lib::lemma_seq_contains_after_push(s.enabled, fs[0], t);
                },
                _ => {},
            }
        }
        lemma_enabled_persists(s1, fs.skip(1), os.skip(1), t);
    }
}

/// One failing probe stops nothing else: every feature whose own probe
/// succeeded is in the final set, whatever happened around it.
pub proof fn lemma_success_is_enabled(s: RunStateV, fs: Seq<Seq<char>>, os: Seq<OutcomeV>, i: int)
    requires
        fs.len() == os.len(),
        0 <= i < fs.len(),
        os[i] is Enabled,
    ensures
        spec_run_features(s, fs, os).enabled.contains(fs[i]),
    decreases fs.len(),
{
    let s1 = spec_record_feature(s, fs[0], os[0]);
    if i == 0 {
        assert(s1.enabled.contains(fs[0])) by {
            vstd::seq_lib::lemma_seq_contains_after_push(s.enabled, fs[0], fs[0]);
        }
        lemma_enabled_persists(s1, fs.skip(1), os.skip(1), fs[0]);
    } else {
        assert(fs.skip(1)[i - 1] == fs[i]);
        assert(os.skip(1)[i - 1] == os[i]);
        lemma_success_is_enabled(s1, fs.skip(1), os.skip(1), i - 1);
    }
}

/// A skipped run leaves exactly one informational line, which is no
/// enable-feature directive.
pub proof fn lemma_skip_run(f: Seq<char>)
    ensures
        spec_gate_outputs(InhibitAction::Skip).len() == 1,
        spec_gate_outputs(InhibitAction::Skip)[0] != enable_line(f),
{
    reveal_strlit("cargo:warning=Skipping ConfTest via CONF_TEST_INHIBIT\n");
    reveal_strlit("cargo:rustc-cfg=feature=\"");
    assert(skip_line()[6] == 'w');
    assert(enable_line(f)[6] == 'r');
}

/// A stopped run leaves no diagnostic and no directive at all.
pub proof fn lemma_stop_run()
    ensures
        spec_gate_outputs(InhibitAction::Stop) =~= Seq::<Seq<char>>::empty(),
{
}

/// Any control value beside the three known words aborts the run.
pub proof fn lemma_unknown_inhibit_aborts(v: Seq<char>)
    requires
        v != "skip"@,
        v != "stop"@,
        v != "fail"@,
    ensures
        inhibit_spec(Option::Some(v)) == InhibitAction::Abort,
{
}

/// In documentation mode only the reserved feature is ever enabled.
pub proof fn lemma_docs_mode_only_reserved(features: Seq<Seq<char>>, t: Seq<char>)
    requires
        spec_docs_enabled(features).contains(t),
    ensures
        t == "docs_rs"@,
{
    let e = spec_docs_enabled(features);
    let i = choose|i: int| 0 <= i < e.len() && e[i] == t;
    assert(e[i] == t);
}

/// The whole pass is a function of its inputs: two runs over the same state,
/// features and outcomes end in the same log and the same set.
pub proof fn lemma_run_deterministic(
    s: RunStateV,
    fs: Seq<Seq<char>>,
    os: Seq<OutcomeV>,
    r1: RunStateV,
    r2: RunStateV,
)
    requires
        r1 == spec_run_features(s, fs, os),
        r2 == spec_run_features(s, fs, os),
    ensures
        r1.outputs == r2.outputs,
        r1.enabled == r2.enabled,
{
}

} // verus!
