//! Compiling one probe: where its source and binary live, and the full
//! compiler command line.

use vstd::prelude::*;

use crate::artifacts::{split_stem_ext, stem_of, ExternLibs, LibEntryV};
use crate::edition::{edition_str, edition_to_str, Edition};
use crate::text::{concat3, views};

verus! {

/// The conventional source path of a feature's probe.
pub open spec fn probe_source_spec(feature: Seq<char>) -> Seq<char> {
    "conf_tests/"@ + feature + ".rs"@
}

/// Where the probe source for `feature` must lie.
pub fn probe_source_path(feature: &String) -> (r: String)
    ensures
        r@ == probe_source_spec(feature@),
{
    concat3("conf_tests/", feature.as_str(), ".rs")
}

/// The probe binary's place inside the staging directory.
pub open spec fn probe_binary_spec(staging: Seq<char>, src: Seq<char>) -> Seq<char> {
    staging + "/"@ + stem_of(src)
}

/// The deterministic output path of a compiled probe.
pub fn probe_binary_path(staging: &String, src: &String) -> (r: String)
    ensures
        r@ == probe_binary_spec(staging@, src@),
{
    let (stem, _ext) = split_stem_ext(src.as_str());
    concat3(staging.as_str(), "/", stem.as_str())
}

/// The link reference pair for each resolved artifact, in entry order:
/// ascending by identifier, the mapping's invariant.
pub open spec fn extern_args(libs: Seq<LibEntryV>) -> Seq<Seq<char>>
    decreases libs.len(),
{
    if libs.len() == 0 {
        Seq::empty()
    } else {
        seq!["--extern"@, libs[0].name + "="@ + libs[0].path] + extern_args(libs.skip(1))
    }
}

/// The feature flag pair for each already-enabled feature, in order.
pub open spec fn cfg_args(features: Seq<Seq<char>>) -> Seq<Seq<char>>
    decreases features.len(),
{
    if features.len() == 0 {
        Seq::empty()
    } else {
        seq!["--cfg"@, "feature=\""@ + features[0] + "\""@] + cfg_args(features.skip(1))
    }
}

/// The whole argument list of one probe compilation.
pub open spec fn compile_args_spec(
    src: Seq<char>,
    ed: Edition,
    out_file: Seq<char>,
    libs: Seq<LibEntryV>,
    features: Seq<Seq<char>>,
) -> Seq<Seq<char>> {
    seq![
        "--crate-type"@,
        "bin"@,
        "--edition"@,
        edition_str(ed),
        "-o"@,
        out_file,
        "-v"@,
        src,
    ] + extern_args(libs) + cfg_args(features)
}

/// One more artifact extends the link references at their end.
pub proof fn lemma_extern_args_push(libs: Seq<LibEntryV>, e: LibEntryV)
    ensures
        extern_args(libs.push(e)) == extern_args(libs) + seq![
            "--extern"@,
            e.name + "="@ + e.path,
        ],
    decreases libs.len(),
{
    let pp = libs.push(e);
    if libs.len() == 0 {
        assert(pp[0] == e);
        assert(pp.skip(1) =~= Seq::<LibEntryV>::empty());
        assert(extern_args(pp.skip(1)) =~= Seq::<Seq<char>>::empty());
        assert(extern_args(libs) =~= Seq::<Seq<char>>::empty());
        assert(extern_args(pp) =~= extern_args(libs) + seq![
            "--extern"@,
            e.name + "="@ + e.path,
        ]);
    } else {
        assert(pp[0] == libs[0]);
        assert(pp.skip(1) =~= libs.skip(1).push(e));
        lemma_extern_args_push(libs.skip(1), e);
        assert(extern_args(pp) =~= extern_args(libs) + seq![
            "--extern"@,
            e.name + "="@ + e.path,
        ]);
    }
}

/// One more feature extends the flags at their end.
pub proof fn lemma_cfg_args_push(features: Seq<Seq<char>>, f: Seq<char>)
    ensures
        cfg_args(features.push(f)) == cfg_args(features) + seq![
            "--cfg"@,
            "feature=\""@ + f + "\""@,
        ],
    decreases features.len(),
{
    let pp = features.push(f);
    if features.len() == 0 {
        assert(pp[0] == f);
        assert(pp.skip(1) =~= Seq::<Seq<char>>::empty());
        assert(cfg_args(pp.skip(1)) =~= Seq::<Seq<char>>::empty());
        assert(cfg_args(features) =~= Seq::<Seq<char>>::empty());
        assert(cfg_args(pp) =~= cfg_args(features) + seq!["--cfg"@, "feature=\""@ + f + "\""@]);
    } else {
        assert(pp[0] == features[0]);
        assert(pp.skip(1) =~= features.skip(1).push(f));
        lemma_cfg_args_push(features.skip(1), f);
        assert(cfg_args(pp) =~= cfg_args(features) + seq!["--cfg"@, "feature=\""@ + f + "\""@]);
    }
}

/// Appends a line, growing the views by exactly its view.
pub fn push_str_vec(v: &mut Vec<String>, s: String)
    ensures
        views(final(v)@) == views(old(v)@).push(s@),
{
    v.push(s);
    proof {
        assert(views(v@) =~= views(old(v)@).push(s@));
    }
}

/// Builds the compiler invocation of one probe: a standalone binary, under
/// the run's edition, linked against every resolved artifact — the link
/// references in ascending identifier order, which the mapping's invariant
/// makes of its entry order — and given every feature enabled so far, in
/// order. Returns the output path and the argument list.
pub fn compile_command(
    src: &String,
    staging: &String,
    edition: &Edition,
    extern_libs: &ExternLibs,
    features: &Vec<String>,
) -> (r: (String, Vec<String>))
    requires
        crate::artifacts::sorted_ids(extern_libs@),
    ensures
        r.0@ == probe_binary_spec(staging@, src@),
        views(r.1@) == compile_args_spec(
            src@,
            *edition,
            probe_binary_spec(staging@, src@),
            extern_libs@,
            views(features@),
        ),
{
    let out_file = probe_binary_path(staging, src);
    let mut args: Vec<String> = Vec::new();
    push_str_vec(&mut args, String::from_str("--crate-type"));
    push_str_vec(&mut args, String::from_str("bin"));
    push_str_vec(&mut args, String::from_str("--edition"));
    push_str_vec(&mut args, String::from_str(edition_to_str(edition)));
    push_str_vec(&mut args, String::from_str("-o"));
    push_str_vec(&mut args, out_file.clone());
    push_str_vec(&mut args, String::from_str("-v"));
    push_str_vec(&mut args, src.clone());
    let ghost head = seq![
        "--crate-type"@,
        "bin"@,
        "--edition"@,
        edition_str(*edition),
        "-o"@,
        probe_binary_spec(staging@, src@),
        "-v"@,
        src@,
    ];
    proof {
        assert(views(args@) =~= head);
        assert(extern_libs@.take(0) =~= Seq::<LibEntryV>::empty());
    }
    let mut i: usize = 0;
    while i < extern_libs.entries.len()
        invariant
            i <= extern_libs@.len(),
            extern_libs@.len() == extern_libs.entries@.len(),
            views(args@) == head + extern_args(extern_libs@.take(i as int)),
        decreases extern_libs@.len() - i,
    {
        proof {
            assert(extern_libs@[i as int] == extern_libs.entries@[i as int]@);
            assert(extern_libs@.take(i as int + 1) =~= extern_libs@.take(i as int).push(
                extern_libs@[i as int],
            ));
            lemma_extern_args_push(extern_libs@.take(i as int), extern_libs@[i as int]);
        }
        push_str_vec(&mut args, String::from_str("--extern"));
        let pair = concat3(
            extern_libs.entries[i].name.as_str(),
            "=",
            extern_libs.entries[i].path.as_str(),
        );
        push_str_vec(&mut args, pair);
        proof {
            assert(views(args@) =~= head + extern_args(extern_libs@.take(i as int + 1)));
        }
        i = i + 1;
    }
    proof {
        assert(extern_libs@.take(extern_libs@.len() as int) =~= extern_libs@);
        assert(views(features@).take(0) =~= Seq::<Seq<char>>::empty());
    }
    let mut f: usize = 0;
    while f < features.len()
        invariant
            f <= features@.len(),
            views(args@) == head + extern_args(extern_libs@) + cfg_args(
                views(features@).take(f as int),
            ),
        decreases features@.len() - f,
    {
        proof {
            assert(views(features@)[f as int] == features@[f as int]@);
            assert(views(features@).take(f as int + 1) =~= views(features@).take(f as int).push(
                views(features@)[f as int],
            ));
            lemma_cfg_args_push(views(features@).take(f as int), views(features@)[f as int]);
        }
        push_str_vec(&mut args, String::from_str("--cfg"));
        let flag = concat3("feature=\"", features[f].as_str(), "\"");
        push_str_vec(&mut args, flag);
        proof {
            assert(views(args@) =~= head + extern_args(extern_libs@) + cfg_args(
                views(features@).take(f as int + 1),
            ));
        }
        f = f + 1;
    }
    proof {
        assert(views(features@).take(features@.len() as int) =~= views(features@));
    }
    (out_file, args)
}

} // verus!
