//! What a fresh build is for: its stages come in one order, each where there is cause for
//! it, and the first that fails is the last.
use vstd::prelude::*;

use crate::build_options::{FreshBuildOptions, ProfileKind};
use crate::disk;
use crate::disk::Disk;
use crate::pipeline;
use crate::pipeline::{BuildAction, BuildStage, FreshBuild, GeneratedLispJob};
use crate::text;

verus! {

/// How late in a build a stage comes: the inputs are checked before anything is built, the
/// binaries are complete before they run, what they generate is removed before it is made
/// anew, Lisp is dumped only after it was generated and compiled, and the rest is compiled
/// last.
pub open spec fn lateness(s: BuildStage) -> int {
    match s {
        BuildStage::CheckInputs => 10,
        BuildStage::CargoBuild => 20,
        BuildStage::PatchFingerprint => 30,
        BuildStage::CopyRoleImages => 40,
        BuildStage::SignImages => 50,
        BuildStage::CheckBinaries => 60,
        BuildStage::RemoveBytecode => 70,
        BuildStage::RemoveLeimSources => 80,
        BuildStage::RemoveCustomFinderSources => 90,
        BuildStage::RemoveGrammarOutputs => 100,
        BuildStage::EarlyInternational => 110,
        BuildStage::UpdateSubdirs => 120,
        BuildStage::BootstrapDump => 130,
        BuildStage::CompileFirst => 140,
        BuildStage::UnidataLisp => 150,
        BuildStage::GenLisp => 160,
        BuildStage::RemovePrimaryLoaddefs => 170,
        BuildStage::RemoveSecondaryLoaddefs => 180,
        BuildStage::GenerateLoaddefs => 190,
        BuildStage::NormalizeLoaddefs => 200,
        BuildStage::AnnounceLdefsBoot => 210,
        BuildStage::WriteLdefsBoot => 220,
        BuildStage::CustomFinder => 230,
        BuildStage::TouchBootstrapDump => 240,
        BuildStage::PreloadedLisp => 250,
        BuildStage::AotDryRunGate => 260,
        BuildStage::FinalDump => 270,
        BuildStage::VerifyAotPreload => 280,
        BuildStage::CompileMain => 290,
        BuildStage::Report => 300,
    }
}

proof fn lemma_filter_keeps_order(v: Seq<BuildStage>, p: spec_fn(BuildStage) -> bool)
    requires
        forall|i: int, j: int|
            0 <= i < j < v.len() ==> lateness(#[trigger] v[i]) < lateness(#[trigger] v[j]),
    ensures
        forall|i: int, j: int|
            0 <= i < j < v.filter(p).len() ==> lateness(#[trigger] v.filter(p)[i]) < lateness(
                #[trigger] v.filter(p)[j],
            ),
        forall|s: BuildStage| #[trigger] v.filter(p).contains(s) <==> v.contains(s) && p(s),
    decreases v.len(),
{
    reveal(Seq::filter);
    if v.len() > 0 {
        let w = v.drop_last();
        assert forall|i: int, j: int| 0 <= i < j < w.len() implies lateness(#[trigger] w[i])
            < lateness(#[trigger] w[j]) by {
            assert(w[i] == v[i] && w[j] == v[j]);
        }
        lemma_filter_keeps_order(w, p);
        let (a, b) = (v.filter(p), w.filter(p));
        assert forall|i: int, j: int| 0 <= i < j < a.len() implies lateness(#[trigger] a[i])
            < lateness(#[trigger] a[j]) by {
            if j < b.len() {
                assert(a[i] == b[i] && a[j] == b[j]);
            } else {
                assert(a[i] == b[i]);
                assert(b.contains(b[i]));
                assert(w.contains(b[i]));
                let k = choose|k: int| 0 <= k < w.len() && w[k] == b[i];
                assert(v[k] == b[i]);
                assert(v[v.len() - 1] == a[j]);
            }
        }
        assert forall|s: BuildStage| #[trigger] a.contains(s) <==> v.contains(s) && p(s) by {
            if a.contains(s) {
                let k = choose|k: int| 0 <= k < a.len() && a[k] == s;
                if k < b.len() {
                    assert(b[k] == s);
                    assert(b.contains(s));
                    let m = choose|m: int| 0 <= m < w.len() && w[m] == s;
                    assert(v[m] == s);
                } else {
                    assert(v[v.len() - 1] == s);
                }
            }
            if v.contains(s) && p(s) {
                let m = choose|m: int| 0 <= m < v.len() && v[m] == s;
                if m < w.len() {
                    assert(w[m] == s);
                    assert(w.contains(s));
                    assert(b.contains(s));
                    let k = choose|k: int| 0 <= k < b.len() && b[k] == s;
                    assert(a[k] == s);
                } else {
                    assert(a[a.len() - 1] == s);
                }
            }
        }
    }
}

proof fn lemma_all_stages()
    ensures
        forall|i: int, j: int|
            0 <= i < j < pipeline::all_stages().len() ==> lateness(
                #[trigger] pipeline::all_stages()[i],
            ) < lateness(#[trigger] pipeline::all_stages()[j]),
        forall|s: BuildStage| #[trigger] pipeline::all_stages().contains(s),
{
    let v = pipeline::all_stages();
    assert(v.len() == 30);
    assert forall|i: int| 0 <= i < v.len() implies lateness(#[trigger] v[i]) == 10 * (i + 1) by {}
    assert forall|s: BuildStage| #[trigger] v.contains(s) by {
        let k = lateness(s) / 10 - 1;
        assert(v[k] == s);
    }
}

/// The stages of a build: in order, each once, and each where it is called for. What is
/// compiled from Lisp is compiled unless that is switched off; nothing is looked at or
/// written by a dry run; the preload library is checked where it was asked for, and a dry
/// run that asks for it ends there.
pub proof fn law_stages_of_a_build(o: &FreshBuildOptions, signs: bool, r: Vec<BuildStage>)
    requires
        call_ensures(pipeline::fresh_build_stages, (o, signs), r),
    ensures
        forall|i: int, j: int|
            0 <= i < j < r@.len() ==> lateness(#[trigger] r@[i]) < lateness(#[trigger] r@[j]),
        r@.contains(BuildStage::CheckInputs),
        r@.contains(BuildStage::PatchFingerprint),
        r@.contains(BuildStage::CopyRoleImages),
        r@.contains(BuildStage::RemoveLeimSources),
        r@.contains(BuildStage::RemoveCustomFinderSources),
        r@.contains(BuildStage::RemoveGrammarOutputs),
        r@.contains(BuildStage::EarlyInternational),
        r@.contains(BuildStage::UpdateSubdirs),
        r@.contains(BuildStage::BootstrapDump),
        r@.contains(BuildStage::UnidataLisp),
        r@.contains(BuildStage::GenLisp),
        r@.contains(BuildStage::RemovePrimaryLoaddefs),
        r@.contains(BuildStage::RemoveSecondaryLoaddefs),
        r@.contains(BuildStage::GenerateLoaddefs),
        r@.contains(BuildStage::AnnounceLdefsBoot),
        r@.contains(BuildStage::CustomFinder),
        r@.contains(BuildStage::TouchBootstrapDump),
        r@.contains(BuildStage::CargoBuild) <==> !o.skip_build,
        r@.contains(BuildStage::SignImages) <==> signs,
        r@.contains(BuildStage::CheckBinaries) <==> !o.dry_run,
        r@.contains(BuildStage::NormalizeLoaddefs) <==> !o.dry_run,
        r@.contains(BuildStage::WriteLdefsBoot) <==> !o.dry_run,
        r@.contains(BuildStage::RemoveBytecode) <==> !o.no_byte_compile,
        r@.contains(BuildStage::CompileFirst) <==> !o.no_byte_compile,
        r@.contains(BuildStage::PreloadedLisp) <==> !o.no_byte_compile,
        r@.contains(BuildStage::AotDryRunGate) <==> o.aot_preload && o.dry_run,
        r@.contains(BuildStage::FinalDump) <==> !(o.aot_preload && o.dry_run),
        r@.contains(BuildStage::VerifyAotPreload) <==> o.aot_preload && !o.dry_run,
        r@.contains(BuildStage::CompileMain) <==> !o.no_byte_compile && !(o.aot_preload
            && o.dry_run),
        r@.contains(BuildStage::Report) <==> !(o.aot_preload && o.dry_run),
{
    lemma_all_stages();
    lemma_filter_keeps_order(
        pipeline::all_stages(),
        |s: BuildStage| pipeline::has_stage(*o, signs, s),
    );
    assert forall|s: BuildStage| #[trigger] r@.contains(s) <==> pipeline::has_stage(
        *o,
        signs,
        s,
    ) by {
        assert(pipeline::all_stages().contains(s));
    }
}

/// A build runs its stages one after the other, from the first: each one after the one
/// before it has succeeded, and nothing after one that has failed.
pub proof fn law_build_goes_on(
    o: &FreshBuildOptions,
    signs: bool,
    r: Vec<BuildStage>,
    b: FreshBuild,
    first: BuildAction,
    c: &mut FreshBuild,
    done: BuildAction,
    d: &mut FreshBuild,
    e: String,
    aborted: BuildAction,
    f: &mut FreshBuild,
    after: BuildAction,
)
    requires
        call_ensures(pipeline::fresh_build_stages, (o, signs), r),
        call_ensures(FreshBuild::start, (o, signs), b),
        call_ensures(FreshBuild::first, (&b,), first),
        old(c).stages@ == r@ && !old(c).failed && old(c).done < r@.len(),
        call_ensures(FreshBuild::advance, (c, Ok::<(), String>(())), done),
        *old(d) == *old(c),
        call_ensures(FreshBuild::advance, (d, Err::<(), String>(e)), aborted),
        *old(f) == *final(d),
        call_ensures(FreshBuild::advance, (f, Ok::<(), String>(())), after),
    ensures
        b.stages@ == r@ && b.done == 0,
        first == BuildAction::Run(BuildStage::CheckInputs),
        final(c).done == old(c).done + 1,
        old(c).done + 1 < r@.len() ==> done == BuildAction::Run(r@[old(c).done + 1]),
        old(c).done + 1 == r@.len() ==> done is Finish,
        aborted is Abort && (aborted->Abort_0)@ == e@,
        !(after is Run),
{
    law_stages_of_a_build(o, signs, r);
    let k = choose|k: int| 0 <= k < r@.len() && r@[k] == BuildStage::CheckInputs;
    if k > 0 {
        assert(lateness(r@[0]) < lateness(r@[k]));
    }
    assert(r@[0] == BuildStage::CheckInputs);
}

/// The pass that makes a profile is the same build under another profile, in its own
/// directory.
pub proof fn law_instrumented_pass(
    o: &FreshBuildOptions,
    target_dir: Option<&str>,
    r: FreshBuildOptions,
)
    requires
        call_ensures(pipeline::pgo_generation_options, (o, target_dir), r),
    ensures
        r.profile.kind() == ProfileKind::ReleasePgoGen,
        r.repo_root@ == o.repo_root@ && r.runtime_root@ == o.runtime_root@,
        r.dry_run == o.dry_run && r.native_comp == o.native_comp && r.skip_build == o.skip_build,
        r.no_byte_compile == o.no_byte_compile && r.aot_preload == o.aot_preload,
        text::texts(r.features@) == text::texts(o.features@),
{
}

/// A job that failed is named with its cause, and what it wrote is removed, but not by a dry
/// run.
pub proof fn law_failed_job(
    job: &GeneratedLispJob,
    cause: &str,
    dry_run: bool,
    r: (String, Option<String>),
)
    requires
        call_ensures(pipeline::failed_job, (job, cause, dry_run), r),
    ensures
        dry_run <==> r.1 is None,
        r.1 is Some ==> (r.1->0)@ == job.output@,
        text::starts_with(r.0@, job.name@),
        text::contains(r.0@, cause@),
{
    let (n, t) = (job.name@, cause@);
    assert(r.0@.subrange(0, n.len() as int) =~= n);
    let k = (n + " ("@).len() as int;
    assert(r.0@.subrange(k, k + t.len()) =~= t);
    assert(text::occurs_at(r.0@, t, k));
}

/// As many threads as there are jobs, but no more than processors, and one at least.
pub proof fn law_threads(jobs: usize, processors: usize, r: usize)
    requires
        call_ensures(pipeline::job_threads, (jobs, processors), r),
        processors >= 1,
    ensures
        r >= 1,
        jobs >= 1 ==> r <= jobs && r <= processors && (r == jobs || r == processors),
{
}

/// A generated file is made anew where it is missing, where something that it is made from
/// is, and where something that it is made from is younger.
pub proof fn law_generated_file(disk: &Disk, output: &str, deps: &Vec<String>, r: bool)
    requires
        call_ensures(disk::generated_file_needs_rebuild, (disk, output, deps), r),
    ensures
        disk.time_of(output@) is None ==> r,
        disk.time_of(output@) is Some ==> (r <==> exists|i: int|
            0 <= i < deps@.len() && (disk.time_of(#[trigger] deps@[i]@) is None || disk.time_of(
                deps@[i]@,
            )->0 > disk.time_of(output@)->0)),
{
    let v = text::texts(deps@);
    if disk.time_of(output@) is Some {
        let o = disk.time_of(output@)->0;
        if r {
            let i = choose|i: int|
                0 <= i < v.len() && disk::later(disk.time_of(#[trigger] v[i]), o);
            assert(deps@[i]@ == v[i]);
        }
        if exists|i: int|
            0 <= i < deps@.len() && (disk.time_of(#[trigger] deps@[i]@) is None || disk.time_of(
                deps@[i]@,
            )->0 > o) {
            let i = choose|i: int|
                0 <= i < deps@.len() && (disk.time_of(#[trigger] deps@[i]@) is None || disk.time_of(
                    deps@[i]@,
                )->0 > o);
            assert(disk::later(disk.time_of(v[i]), o));
        }
    }
}

/// What is looked up on the disk is the first entry for the path, and is found if there is
/// any.
pub proof fn law_disk_lookup(
    disk: &Disk,
    path: &str,
    there: bool,
    file: bool,
    time: Option<u64>,
)
    requires
        call_ensures(Disk::is_there, (disk, path), there),
        call_ensures(Disk::is_file, (disk, path), file),
        call_ensures(Disk::modified, (disk, path), time),
    ensures
        there <==> exists|i: int|
            0 <= i < disk.entries@.len() && (#[trigger] disk.entries@[i]).path@ == path@,
        file ==> there,
        !there ==> time is None,
        there ==> exists|i: int|
            {
                &&& 0 <= i < disk.entries@.len() && (#[trigger] disk.entries@[i]).path@ == path@
                &&& forall|k: int| 0 <= k < i ==> (#[trigger] disk.entries@[k]).path@ != path@
                &&& file == disk.entries@[i].is_file
                &&& time == disk.entries@[i].modified
                &&& disk.time_of(path@) == disk.entries@[i].modified
                &&& disk.file_at(path@) == disk.entries@[i].is_file
            },
{
    lemma_entry(disk.entries@, path@);
}

proof fn lemma_entry(v: Seq<disk::FileEntry>, path: Seq<char>)
    ensures
        match disk::entry_of(v, path) {
            Some(e) => exists|i: int|
                0 <= i < v.len() && #[trigger] v[i] == e && v[i].path@ == path && forall|k: int|
                    0 <= k < i ==> (#[trigger] v[k]).path@ != path,
            None => forall|k: int| 0 <= k < v.len() ==> (#[trigger] v[k]).path@ != path,
        },
    decreases v.len(),
{
    if v.len() > 0 && v[0].path@ != path {
        let t = v.subrange(1, v.len() as int);
        lemma_entry(t, path);
        match disk::entry_of(t, path) {
            Some(e) => {
                let i = choose|i: int|
                    0 <= i < t.len() && #[trigger] t[i] == e && t[i].path@ == path && forall|k: int|
                        0 <= k < i ==> (#[trigger] t[k]).path@ != path;
                assert(v[i + 1] == e);
                assert forall|k: int| 0 <= k < i + 1 implies (#[trigger] v[k]).path@ != path by {
                    if k > 0 {
                        assert(t[k - 1] == v[k]);
                    }
                }
            },
            None => {
                assert forall|k: int| 0 <= k < v.len() implies (#[trigger] v[k]).path@ != path by {
                    if k > 0 {
                        assert(t[k - 1] == v[k]);
                    }
                }
            },
        }
    } else if v.len() > 0 {
        assert(v[0].path@ == path);
    }
}

/// What a build needs is all there, or the first that is not is named.
pub proof fn law_required_paths(disk: &Disk, required: &Vec<String>, r: Result<(), String>)
    requires
        call_ensures(disk::ensure_paths_exist, (disk, required), r),
    ensures
        r is Ok <==> forall|i: int|
            0 <= i < required@.len() ==> disk.present(#[trigger] required@[i]@),
        r is Err ==> exists|i: int|
            0 <= i < required@.len() && !disk.present(#[trigger] required@[i]@) && text::ends_with(
                (r->Err_0)@,
                required@[i]@,
            ),
{
    let v = text::texts(required@);
    lemma_first_missing(*disk, v);
    match disk::first_missing(*disk, v) {
        None => {
            assert forall|i: int| 0 <= i < required@.len() implies disk.present(
                #[trigger] required@[i]@,
            ) by {
                assert(disk.present(v[i]));
            }
        },
        Some(p) => {
            let i = choose|i: int| 0 <= i < v.len() && #[trigger] v[i] == p && !disk.present(p);
            assert(required@[i]@ == p);
            let e = (r->Err_0)@;
            assert(e.subrange(e.len() - p.len(), e.len() as int) =~= p);
        },
    }
}

proof fn lemma_first_missing(disk: Disk, v: Seq<Seq<char>>)
    ensures
        match disk::first_missing(disk, v) {
            None => forall|i: int| 0 <= i < v.len() ==> disk.present(#[trigger] v[i]),
            Some(p) => exists|i: int| 0 <= i < v.len() && #[trigger] v[i] == p && !disk.present(p),
        },
    decreases v.len(),
{
    if v.len() > 0 && disk.present(v[0]) {
        let t = v.subrange(1, v.len() as int);
        lemma_first_missing(disk, t);
        match disk::first_missing(disk, t) {
            None => {
                assert forall|i: int| 0 <= i < v.len() implies disk.present(#[trigger] v[i]) by {
                    if i > 0 {
                        assert(t[i - 1] == v[i]);
                    }
                }
            },
            Some(p) => {
                let i = choose|i: int| 0 <= i < t.len() && #[trigger] t[i] == p;
                assert(v[i + 1] == p);
            },
        }
    } else if v.len() > 0 {
        assert(v[0] == v[0]);
    }
}

} // verus!
