//! The build as a whole: which stages it has, and what each of them has to do.
use vstd::prelude::*;
use vstd::string::StringExecFns;

use crate::build_options::{BuildProfile, FreshBuildOptions, ProfileKind};
use crate::build_options;
use crate::disk::Disk;
use crate::disk;
use crate::lisp_jobs::PipelinePaths;
use crate::lisp_jobs;
use crate::lisp_tree;
use crate::paths;
use crate::text;

verus! {

/// What a build does, in the order in which it does it.
#[derive(Debug, Clone, Copy, PartialEq, Eq, Structural)]
pub enum BuildStage {
    CheckInputs,
    CargoBuild,
    PatchFingerprint,
    CopyRoleImages,
    SignImages,
    CheckBinaries,
    RemoveBytecode,
    RemoveLeimSources,
    RemoveCustomFinderSources,
    RemoveGrammarOutputs,
    EarlyInternational,
    UpdateSubdirs,
    BootstrapDump,
    CompileFirst,
    UnidataLisp,
    GenLisp,
    RemovePrimaryLoaddefs,
    RemoveSecondaryLoaddefs,
    GenerateLoaddefs,
    NormalizeLoaddefs,
    AnnounceLdefsBoot,
    WriteLdefsBoot,
    CustomFinder,
    TouchBootstrapDump,
    PreloadedLisp,
    AotDryRunGate,
    FinalDump,
    VerifyAotPreload,
    CompileMain,
    Report,
}

/// Every stage in order.
pub open spec fn all_stages() -> Seq<BuildStage> {
    seq![
        BuildStage::CheckInputs,
        BuildStage::CargoBuild,
        BuildStage::PatchFingerprint,
        BuildStage::CopyRoleImages,
        BuildStage::SignImages,
        BuildStage::CheckBinaries,
        BuildStage::RemoveBytecode,
        BuildStage::RemoveLeimSources,
        BuildStage::RemoveCustomFinderSources,
        BuildStage::RemoveGrammarOutputs,
        BuildStage::EarlyInternational,
        BuildStage::UpdateSubdirs,
        BuildStage::BootstrapDump,
        BuildStage::CompileFirst,
        BuildStage::UnidataLisp,
        BuildStage::GenLisp,
        BuildStage::RemovePrimaryLoaddefs,
        BuildStage::RemoveSecondaryLoaddefs,
        BuildStage::GenerateLoaddefs,
        BuildStage::NormalizeLoaddefs,
        BuildStage::AnnounceLdefsBoot,
        BuildStage::WriteLdefsBoot,
        BuildStage::CustomFinder,
        BuildStage::TouchBootstrapDump,
        BuildStage::PreloadedLisp,
        BuildStage::AotDryRunGate,
        BuildStage::FinalDump,
        BuildStage::VerifyAotPreload,
        BuildStage::CompileMain,
        BuildStage::Report,
    ]
}

/// Whether a build with these options has the stage. `signs` says that the system
/// wants patched programs to be signed again.
pub open spec fn has_stage(o: FreshBuildOptions, signs: bool, s: BuildStage) -> bool {
    let gate = o.aot_preload && o.dry_run;
    match s {
        BuildStage::CargoBuild => !o.skip_build,
        BuildStage::SignImages => signs,
        BuildStage::CheckBinaries => !o.dry_run,
        BuildStage::RemoveBytecode => !o.no_byte_compile,
        BuildStage::CompileFirst => !o.no_byte_compile,
        BuildStage::NormalizeLoaddefs => !o.dry_run,
        BuildStage::WriteLdefsBoot => !o.dry_run,
        BuildStage::PreloadedLisp => !o.no_byte_compile,
        BuildStage::AotDryRunGate => gate,
        BuildStage::FinalDump => !gate,
        BuildStage::VerifyAotPreload => !gate && o.aot_preload,
        BuildStage::CompileMain => !gate && !o.no_byte_compile,
        BuildStage::Report => !gate,
        _ => true,
    }
}

/// The stages of a build with these options.
pub open spec fn stages(o: FreshBuildOptions, signs: bool) -> Seq<BuildStage> {
    all_stages().filter(|s: BuildStage| has_stage(o, signs, s))
}

fn build_has_stage(o: &FreshBuildOptions, signs: bool, s: BuildStage) -> (r: bool)
    ensures
        r == has_stage(*o, signs, s),
{
    let gate: bool = o.aot_preload && o.dry_run;
    match s {
        BuildStage::CargoBuild => !o.skip_build,
        BuildStage::SignImages => signs,
        BuildStage::CheckBinaries => !o.dry_run,
        BuildStage::RemoveBytecode => !o.no_byte_compile,
        BuildStage::CompileFirst => !o.no_byte_compile,
        BuildStage::NormalizeLoaddefs => !o.dry_run,
        BuildStage::WriteLdefsBoot => !o.dry_run,
        BuildStage::PreloadedLisp => !o.no_byte_compile,
        BuildStage::AotDryRunGate => gate,
        BuildStage::FinalDump => !gate,
        BuildStage::VerifyAotPreload => !gate && o.aot_preload,
        BuildStage::CompileMain => !gate && !o.no_byte_compile,
        BuildStage::Report => !gate,
        _ => true,
    }
}

fn every_stage() -> (r: Vec<BuildStage>)
    ensures
        r@ == all_stages(),
{
    let v: Vec<BuildStage> = vec![
        BuildStage::CheckInputs,
        BuildStage::CargoBuild,
        BuildStage::PatchFingerprint,
        BuildStage::CopyRoleImages,
        BuildStage::SignImages,
        BuildStage::CheckBinaries,
        BuildStage::RemoveBytecode,
        BuildStage::RemoveLeimSources,
        BuildStage::RemoveCustomFinderSources,
        BuildStage::RemoveGrammarOutputs,
        BuildStage::EarlyInternational,
        BuildStage::UpdateSubdirs,
        BuildStage::BootstrapDump,
        BuildStage::CompileFirst,
        BuildStage::UnidataLisp,
        BuildStage::GenLisp,
        BuildStage::RemovePrimaryLoaddefs,
        BuildStage::RemoveSecondaryLoaddefs,
        BuildStage::GenerateLoaddefs,
        BuildStage::NormalizeLoaddefs,
        BuildStage::AnnounceLdefsBoot,
        BuildStage::WriteLdefsBoot,
        BuildStage::CustomFinder,
        BuildStage::TouchBootstrapDump,
        BuildStage::PreloadedLisp,
        BuildStage::AotDryRunGate,
        BuildStage::FinalDump,
        BuildStage::VerifyAotPreload,
        BuildStage::CompileMain,
        BuildStage::Report,
    ];
    proof {
        assert(v@ =~= all_stages());
    }
    v
}

/// The stages of a build with these options.
pub fn fresh_build_stages(options: &FreshBuildOptions, signs: bool) -> (r: Vec<BuildStage>)
    ensures
        r@ == stages(*options, signs),
{
    let all: Vec<BuildStage> = every_stage();
    let ghost p = |s: BuildStage| has_stage(*options, signs, s);
    let mut out: Vec<BuildStage> = Vec::new();
    let mut i: usize = 0;
    proof {
        reveal(Seq::filter);
        assert(out@ =~= all@.subrange(0, 0).filter(p));
    }
    while i < all.len()
        invariant
            i <= all.len(),
            all@ == all_stages(),
            p == |s: BuildStage| has_stage(*options, signs, s),
            out@ == all@.subrange(0, i as int).filter(p),
        decreases all.len() - i,
    {
        proof {
            paths::lemma_filter_step(all@, i as int, p);
        }
        if build_has_stage(options, signs, all[i]) {
            out.push(all[i]);
        }
        i += 1;
    }
    proof {
        assert(all@.subrange(0, all@.len() as int) =~= all@);
    }
    out
}

/// A build under way: the stages it has, how many are done, and whether one failed.
pub struct FreshBuild {
    pub stages: Vec<BuildStage>,
    pub done: usize,
    pub failed: bool,
}

/// What the driver does next.
pub enum BuildAction {
    Run(BuildStage),
    Finish,
    Abort(String),
}

impl FreshBuild {
    pub open spec fn wf(self) -> bool {
        self.done <= self.stages@.len()
    }

    /// What comes next while nothing has failed.
    pub open spec fn upcoming(self) -> Option<BuildStage> {
        if self.failed || self.done >= self.stages@.len() {
            None
        } else {
            Some(self.stages@[self.done as int])
        }
    }

    /// A build that has done nothing yet.
    pub fn start(options: &FreshBuildOptions, signs: bool) -> (r: FreshBuild)
        ensures
            r.wf(),
            r.stages@ == stages(*options, signs),
            r.done == 0,
            !r.failed,
    {
        FreshBuild { stages: fresh_build_stages(options, signs), done: 0, failed: false }
    }

    /// The first thing to do.
    pub fn first(&self) -> (r: BuildAction)
        requires
            self.wf(),
        ensures
            match self.upcoming() {
                Some(s) => r == BuildAction::Run(s),
                None => r is Finish,
            },
    {
        if self.failed || self.done >= self.stages.len() {
            BuildAction::Finish
        } else {
            BuildAction::Run(self.stages[self.done])
        }
    }

    /// What to do once the upcoming stage has ended with `outcome`.
    pub fn advance(&mut self, outcome: Result<(), String>) -> (r: BuildAction)
        requires
            old(self).wf(),
        ensures
            final(self).wf(),
            final(self).stages@ == old(self).stages@,
            match outcome {
                Err(e) => {
                    &&& final(self).failed
                    &&& final(self).done == old(self).done
                    &&& r matches BuildAction::Abort(m) && m@ == e@
                },
                Ok(()) => {
                    &&& final(self).failed == old(self).failed
                    &&& final(self).done == if old(self).upcoming() is Some {
                        old(self).done + 1
                    } else {
                        old(self).done as int
                    }
                    &&& match final(self).upcoming() {
                        Some(s) => r == BuildAction::Run(s),
                        None => r is Finish,
                    }
                },
            },
    {
        match outcome {
            Err(e) => {
                self.failed = true;
                BuildAction::Abort(e)
            },
            Ok(()) => {
                if !self.failed && self.done < self.stages.len() {
                    self.done = self.done + 1;
                }
                self.first()
            },
        }
    }
}

proof fn lemma_filter_contains(v: Seq<BuildStage>, p: spec_fn(BuildStage) -> bool, s: BuildStage)
    ensures
        v.filter(p).contains(s) <==> v.contains(s) && p(s),
    decreases v.len(),
{
    reveal(Seq::filter);
    if v.len() > 0 {
        let w = v.drop_last();
        lemma_filter_contains(w, p, s);
        assert(v =~= w.push(v.last()));
        if w.filter(p).contains(s) {
            let i = choose|i: int| 0 <= i < w.filter(p).len() && w.filter(p)[i] == s;
            assert(v.filter(p)[i] == s);
        }
        if w.contains(s) {
            let i = choose|i: int| 0 <= i < w.len() && w[i] == s;
            assert(v[i] == s);
        }
        if v.last() == s {
            assert(v[v.len() - 1] == s);
            if p(s) {
                assert(v.filter(p)[v.filter(p).len() - 1] == s);
            }
        }
        if v.contains(s) {
            let i = choose|i: int| 0 <= i < v.len() && v[i] == s;
            if i < w.len() {
                assert(w[i] == s);
            }
        }
        if v.filter(p).contains(s) {
            let i = choose|i: int| 0 <= i < v.filter(p).len() && v.filter(p)[i] == s;
            if i < w.filter(p).len() {
                assert(w.filter(p)[i] == s);
            }
        }
    }
}

proof fn lemma_all_stages(s: BuildStage)
    ensures
        all_stages().contains(s),
{
    let v = all_stages();
    assert(v[0] == BuildStage::CheckInputs);
    assert(v[1] == BuildStage::CargoBuild);
    assert(v[2] == BuildStage::PatchFingerprint);
    assert(v[3] == BuildStage::CopyRoleImages);
    assert(v[4] == BuildStage::SignImages);
    assert(v[5] == BuildStage::CheckBinaries);
    assert(v[6] == BuildStage::RemoveBytecode);
    assert(v[7] == BuildStage::RemoveLeimSources);
    assert(v[8] == BuildStage::RemoveCustomFinderSources);
    assert(v[9] == BuildStage::RemoveGrammarOutputs);
    assert(v[10] == BuildStage::EarlyInternational);
    assert(v[11] == BuildStage::UpdateSubdirs);
    assert(v[12] == BuildStage::BootstrapDump);
    assert(v[13] == BuildStage::CompileFirst);
    assert(v[14] == BuildStage::UnidataLisp);
    assert(v[15] == BuildStage::GenLisp);
    assert(v[16] == BuildStage::RemovePrimaryLoaddefs);
    assert(v[17] == BuildStage::RemoveSecondaryLoaddefs);
    assert(v[18] == BuildStage::GenerateLoaddefs);
    assert(v[19] == BuildStage::NormalizeLoaddefs);
    assert(v[20] == BuildStage::AnnounceLdefsBoot);
    assert(v[21] == BuildStage::WriteLdefsBoot);
    assert(v[22] == BuildStage::CustomFinder);
    assert(v[23] == BuildStage::TouchBootstrapDump);
    assert(v[24] == BuildStage::PreloadedLisp);
    assert(v[25] == BuildStage::AotDryRunGate);
    assert(v[26] == BuildStage::FinalDump);
    assert(v[27] == BuildStage::VerifyAotPreload);
    assert(v[28] == BuildStage::CompileMain);
    assert(v[29] == BuildStage::Report);
}

/// A build has a stage exactly where its options ask for it.
pub proof fn law_stage_membership(o: FreshBuildOptions, signs: bool, s: BuildStage)
    ensures
        stages(o, signs).contains(s) <==> has_stage(o, signs, s),
{
    lemma_all_stages(s);
    lemma_filter_contains(all_stages(), |x: BuildStage| has_stage(o, signs, x), s);
}

/// A build that compiles no Lisp has none of the three compilation stages and
/// leaves compiled files where they are.
pub proof fn law_no_byte_compile(o: FreshBuildOptions, signs: bool)
    requires
        o.no_byte_compile,
    ensures
        !stages(o, signs).contains(BuildStage::CompileFirst),
        !stages(o, signs).contains(BuildStage::PreloadedLisp),
        !stages(o, signs).contains(BuildStage::CompileMain),
        !stages(o, signs).contains(BuildStage::RemoveBytecode),
{
    law_stage_membership(o, signs, BuildStage::CompileFirst);
    law_stage_membership(o, signs, BuildStage::PreloadedLisp);
    law_stage_membership(o, signs, BuildStage::CompileMain);
    law_stage_membership(o, signs, BuildStage::RemoveBytecode);
}

/// A dry run with the preload producer ends at its gate: the final dump and
/// everything behind it are left out. Any other build makes the final dump.
pub proof fn law_dry_run_gate(o: FreshBuildOptions, signs: bool)
    ensures
        stages(o, signs).contains(BuildStage::AotDryRunGate) <==> o.aot_preload && o.dry_run,
        stages(o, signs).contains(BuildStage::FinalDump) <==> !(o.aot_preload && o.dry_run),
        o.aot_preload && o.dry_run ==> !stages(o, signs).contains(BuildStage::CompileMain),
{
    law_stage_membership(o, signs, BuildStage::AotDryRunGate);
    law_stage_membership(o, signs, BuildStage::FinalDump);
    law_stage_membership(o, signs, BuildStage::CompileMain);
}

/// What the first pass of a profile-guided build is asked to do.
pub fn pgo_generation_options(options: &FreshBuildOptions, target_dir: Option<&str>) -> (r:
    FreshBuildOptions)
    ensures
        r.profile.kind() == ProfileKind::ReleasePgoGen,
        r.profile.name() == "release-pgo-gen"@,
        r.bin_dir@ == build_options::default_dir(
            options.repo_root@,
            build_options::opt_text(target_dir),
            "release-pgo-gen"@,
        ),
        r.repo_root@ == options.repo_root@,
        r.runtime_root@ == options.runtime_root@,
        r.dry_run == options.dry_run,
        r.native_comp == options.native_comp,
        r.skip_build == options.skip_build,
        r.no_byte_compile == options.no_byte_compile,
        text::texts(r.features@) == text::texts(options.features@),
        r.aot_preload == options.aot_preload,
{
    let profile: BuildProfile = BuildProfile::ReleasePgoGen;
    let bin_dir: String = build_options::default_bin_dir(
        options.repo_root.as_str(),
        target_dir,
        &profile,
    );
    FreshBuildOptions {
        repo_root: text::copy(options.repo_root.as_str()),
        runtime_root: text::copy(options.runtime_root.as_str()),
        bin_dir: bin_dir,
        profile: profile,
        dry_run: options.dry_run,
        native_comp: options.native_comp,
        skip_build: options.skip_build,
        no_byte_compile: options.no_byte_compile,
        features: copy_names(&options.features),
        aot_preload: options.aot_preload,
    }
}

/// A copy of a list of names.
pub fn copy_names(v: &Vec<String>) -> (r: Vec<String>)
    ensures
        text::texts(r@) == text::texts(v@),
{
    let mut out: Vec<String> = Vec::new();
    let mut i: usize = 0;
    while i < v.len()
        invariant
            i <= v.len(),
            out@.len() == i,
            forall|k: int| 0 <= k < i ==> (#[trigger] out@[k])@ == v@[k]@,
        decreases v.len() - i,
    {
        out.push(text::copy(v[i].as_str()));
        i += 1;
    }
    proof {
        assert(text::texts(out@) =~= text::texts(v@));
    }
    out
}

/// The compiler flags of the instrumented pass.
pub fn pgo_generate_flags(raw_dir: &str) -> (r: String)
    ensures
        r@ == "-Cprofile-generate="@ + raw_dir@,
{
    text::concat("-Cprofile-generate=", raw_dir)
}

/// The compiler flags of the pass that uses a profile.
pub fn pgo_use_flags(merged: &str) -> (r: String)
    ensures
        r@ == "-Cprofile-use="@ + merged@,
{
    text::concat("-Cprofile-use=", merged)
}

/// A file that a generator makes, and what the generator is handed.
#[derive(Debug)]
pub struct GeneratedLispJob {
    pub name: String,
    pub args: Vec<String>,
    /// The one file that the job writes. It is removed when the job fails, so that
    /// half a file never passes for a fresh one.
    pub output: String,
}

pub struct JobModel {
    pub name: Seq<char>,
    pub args: Seq<Seq<char>>,
    pub output: Seq<char>,
}

impl GeneratedLispJob {
    pub open spec fn model(self) -> JobModel {
        JobModel {
            name: self.name@,
            args: text::texts(self.args@),
            output: self.output@,
        }
    }
}

/// What is told of a job that failed, and the file that is removed: the job's output, so
/// that half a file never passes for a fresh one. A dry run wrote none.
pub fn failed_job(job: &GeneratedLispJob, cause: &str, dry_run: bool) -> (r: (String, Option<String>))
    ensures
        r.0@ == job.name@ + " ("@ + cause@ + ")"@,
        match r.1 {
            Some(path) => !dry_run && path@ == job.output@,
            None => dry_run,
        },
{
    let mut told: String = text::copy(job.name.as_str());
    told.append(" (");
    told.append(cause);
    told.append(")");
    let removed: Option<String> = if dry_run {
        None
    } else {
        Some(text::copy(job.output.as_str()))
    };
    (told, removed)
}

pub open spec fn job_models(v: Seq<GeneratedLispJob>) -> Seq<JobModel> {
    Seq::new(v.len(), |i: int| v[i].model())
}

/// How many jobs run at once: no more than there are, and no fewer than one.
pub fn job_threads(jobs: usize, processors: usize) -> (r: usize)
    ensures
        r >= 1,
        jobs >= 1 && processors >= 1 ==> r == if jobs <= processors {
            jobs
        } else {
            processors
        },
        jobs == 0 || processors == 0 ==> r == 1,
{
    let n: usize = if jobs <= processors {
        jobs
    } else {
        processors
    };
    if n == 0 {
        1
    } else {
        n
    }
}

/// A Unicode data file beside the property files.
#[derive(Debug)]
pub struct UnidataExtraJob {
    pub output: String,
    pub dependencies: Vec<String>,
    pub args: Vec<String>,
}

pub struct ExtraModel {
    pub output: Seq<char>,
    pub dependencies: Seq<Seq<char>>,
    pub args: Seq<Seq<char>>,
}

impl UnidataExtraJob {
    pub open spec fn model(self) -> ExtraModel {
        ExtraModel {
            output: self.output@,
            dependencies: text::texts(self.dependencies@),
            args: text::texts(self.args@),
        }
    }
}

pub open spec fn extra_models(v: Seq<UnidataExtraJob>) -> Seq<ExtraModel> {
    Seq::new(v.len(), |i: int| v[i].model())
}

pub open spec fn unidata_gen_path(p: PipelinePaths) -> Seq<char> {
    paths::joined_path(p.admin_unidata_root@, "unidata-gen.el"@)
}

pub open spec fn admin_file(p: PipelinePaths, name: Seq<char>) -> Seq<char> {
    paths::joined_path(p.admin_unidata_root@, name)
}

pub open spec fn international_file(p: PipelinePaths, name: Seq<char>) -> Seq<char> {
    paths::joined_path(paths::joined_path(p.lisp_root@, "international"@), name)
}

/// The data files beside the property files, and what they are made from.
pub open spec fn extra_table(p: PipelinePaths) -> Seq<ExtraModel> {
    let gen = unidata_gen_path(p);
    seq![
        ExtraModel {
            output: international_file(p, "emoji-labels.el"@),
            dependencies: seq![
                paths::joined_path(p.lisp_root@, "international/emoji.el"@),
                admin_file(p, "emoji-test.txt"@),
            ],
            args: (lisp_jobs::batch_head() + seq![
                "-l"@,
                "emoji.el"@,
                "-f"@,
                "emoji--generate-file"@,
            ]).push(international_file(p, "emoji-labels.el"@)),
        },
        ExtraModel {
            output: international_file(p, "uni-scripts.el"@),
            dependencies: seq![
                gen,
                admin_file(p, "Scripts.txt"@),
                admin_file(p, "ScriptExtensions.txt"@),
                admin_file(p, "PropertyValueAliases.txt"@),
            ],
            args: lisp_jobs::generator_args(
                p.admin_unidata_root@,
                gen,
                "unidata-gen-scripts"@,
            ).push(international_file(p, "uni-scripts.el"@)),
        },
        ExtraModel {
            output: international_file(p, "uni-confusable.el"@),
            dependencies: seq![gen, admin_file(p, "confusables.txt"@)],
            args: lisp_jobs::generator_args(
                p.admin_unidata_root@,
                gen,
                "unidata-gen-confusable"@,
            ).push(international_file(p, "uni-confusable.el"@)),
        },
        ExtraModel {
            output: international_file(p, "idna-mapping.el"@),
            dependencies: seq![gen, admin_file(p, "IdnaMappingTable.txt"@)],
            args: lisp_jobs::generator_args(
                p.admin_unidata_root@,
                gen,
                "unidata-gen-idna-mapping"@,
            ).push(international_file(p, "idna-mapping.el"@)),
        },
    ]
}

/// Appends one name to a list.
fn name(v: &mut Vec<String>, s: &str)
    ensures
        text::texts(final(v)@) == text::texts(old(v)@).push(s@),
{
    let a: String = text::copy(s);
    proof {
        text::lemma_texts_push(v@, a);
    }
    v.push(a);
}

fn no_names() -> (r: Vec<String>)
    ensures
        text::texts(r@) == Seq::<Seq<char>>::empty(),
{
    let v: Vec<String> = Vec::new();
    proof {
        assert(text::texts(v@) =~= Seq::empty());
    }
    v
}

/// The first input of the jobs that is no file.
pub open spec fn first_missing_input(disk: Disk, jobs: Seq<ExtraModel>) -> Option<Seq<char>>
    decreases jobs.len(),
{
    if jobs.len() == 0 {
        None
    } else {
        match first_missing_input(disk, jobs.drop_last()) {
            Some(p) => Some(p),
            None => disk::first_non_file(disk, jobs.last().dependencies),
        }
    }
}

pub open spec fn missing_input(p: Seq<char>) -> Seq<char> {
    "missing generated-source input: "@ + p
}

fn extra_output(p: &PipelinePaths, file: &str) -> (r: String)
    ensures
        r@ == international_file(*p, file@),
{
    let dir: String = paths::join(p.lisp_root.as_str(), "international");
    paths::join(dir.as_str(), file)
}

fn extra_generator_job(
    p: &PipelinePaths,
    unidata_gen: &str,
    file: &str,
    function: &str,
    inputs: &Vec<String>,
) -> (r: UnidataExtraJob)
    requires
        unidata_gen@ == unidata_gen_path(*p),
    ensures
        r.model() == (ExtraModel {
            output: international_file(*p, file@),
            dependencies: seq![unidata_gen@] + text::texts(inputs@).map_values(
                |n: Seq<char>| admin_file(*p, n),
            ),
            args: lisp_jobs::generator_args(
                p.admin_unidata_root@,
                unidata_gen_path(*p),
                function@,
            ).push(international_file(*p, file@)),
        }),
{
    let mut dependencies: Vec<String> = no_names();
    name(&mut dependencies, unidata_gen);
    let mut more: Vec<String> = lisp_tree::join_all(p.admin_unidata_root.as_str(), inputs);
    let ghost a = dependencies@;
    let ghost b = more@;
    dependencies.append(&mut more);
    let mut args: Vec<String> = lisp_jobs::unidata_generator_args(
        p.admin_unidata_root.as_str(),
        unidata_gen,
        function,
    );
    let output: String = extra_output(p, file);
    name(&mut args, output.as_str());
    proof {
        assert(text::texts(dependencies@) =~= text::texts(a) + text::texts(b));
        assert(text::texts(dependencies@) =~= seq![unidata_gen@] + text::texts(
            inputs@,
        ).map_values(|n: Seq<char>| admin_file(*p, n)));
    }
    UnidataExtraJob { output: output, dependencies: dependencies, args: args }
}

fn push_extra(v: &mut Vec<UnidataExtraJob>, job: UnidataExtraJob)
    ensures
        extra_models(final(v)@) == extra_models(old(v)@).push(job.model()),
{
    let ghost start = v@;
    v.push(job);
    proof {
        assert(extra_models(v@) =~= extra_models(start).push(job.model()));
    }
}

fn extra_job_table(p: &PipelinePaths, unidata_gen: &str) -> (r: Vec<UnidataExtraJob>)
    requires
        unidata_gen@ == unidata_gen_path(*p),
    ensures
        extra_models(r@) == extra_table(*p),
{
    let mut v: Vec<UnidataExtraJob> = Vec::new();
    proof {
        assert(extra_models(v@) =~= Seq::empty());
    }
    let mut deps: Vec<String> = no_names();
    name(&mut deps, paths::join(p.lisp_root.as_str(), "international/emoji.el").as_str());
    name(&mut deps, paths::join(p.admin_unidata_root.as_str(), "emoji-test.txt").as_str());
    let mut args: Vec<String> = no_names();
    name(&mut args, "--batch");
    name(&mut args, "--no-site-file");
    name(&mut args, "--no-site-lisp");
    name(&mut args, "-l");
    name(&mut args, "emoji.el");
    name(&mut args, "-f");
    name(&mut args, "emoji--generate-file");
    let output: String = extra_output(p, "emoji-labels.el");
    name(&mut args, output.as_str());
    proof {
        assert(text::texts(deps@) =~= extra_table(*p)[0].dependencies);
        assert(text::texts(args@) =~= extra_table(*p)[0].args);
    }
    push_extra(&mut v, UnidataExtraJob { output: output, dependencies: deps, args: args });
    let mut inputs: Vec<String> = no_names();
    name(&mut inputs, "Scripts.txt");
    name(&mut inputs, "ScriptExtensions.txt");
    name(&mut inputs, "PropertyValueAliases.txt");
    let scripts: UnidataExtraJob = extra_generator_job(
        p,
        unidata_gen,
        "uni-scripts.el",
        "unidata-gen-scripts",
        &inputs,
    );
    proof {
        assert(scripts.model().dependencies =~= extra_table(*p)[1].dependencies);
    }
    push_extra(&mut v, scripts);
    let mut inputs: Vec<String> = no_names();
    name(&mut inputs, "confusables.txt");
    let confusable: UnidataExtraJob = extra_generator_job(
        p,
        unidata_gen,
        "uni-confusable.el",
        "unidata-gen-confusable",
        &inputs,
    );
    proof {
        assert(confusable.model().dependencies =~= extra_table(*p)[2].dependencies);
    }
    push_extra(&mut v, confusable);
    let mut inputs: Vec<String> = no_names();
    name(&mut inputs, "IdnaMappingTable.txt");
    let idna: UnidataExtraJob = extra_generator_job(
        p,
        unidata_gen,
        "idna-mapping.el",
        "unidata-gen-idna-mapping",
        &inputs,
    );
    proof {
        assert(idna.model().dependencies =~= extra_table(*p)[3].dependencies);
    }
    push_extra(&mut v, idna);
    proof {
        assert(extra_models(v@) =~= extra_table(*p));
    }
    v
}

/// The data files beside the property files; fails on the first input that is no file.
pub fn unidata_extra_lisp_jobs(disk: &Disk, p: &PipelinePaths) -> (r: Result<
    Vec<UnidataExtraJob>,
    String,
>)
    ensures
        match first_missing_input(*disk, extra_table(*p)) {
            Some(m) => r matches Err(e) && e@ == missing_input(m),
            None => r matches Ok(v) && extra_models(v@) == extra_table(*p),
        },
{
    let unidata_gen: String = paths::join(p.admin_unidata_root.as_str(), "unidata-gen.el");
    let jobs: Vec<UnidataExtraJob> = extra_job_table(p, unidata_gen.as_str());
    let ghost all = extra_table(*p);
    let mut i: usize = 0;
    while i < jobs.len()
        invariant
            i <= jobs.len(),
            extra_models(jobs@) == all,
            all == extra_table(*p),
            first_missing_input(*disk, all.subrange(0, i as int)) is None,
        decreases jobs.len() - i,
    {
        proof {
            assert(all[i as int] == jobs@[i as int].model());
            assert(all.subrange(0, i + 1).drop_last() =~= all.subrange(0, i as int));
        }
        match disk::ensure_generation_inputs(disk, &jobs[i].dependencies) {
            Ok(()) => {},
            Err(e) => {
                proof {
                    lemma_missing_stays(*disk, all, i + 1);
                }
                return Err(e);
            },
        }
        i += 1;
    }
    proof {
        assert(all.subrange(0, all.len() as int) =~= all);
    }
    Ok(jobs)
}

proof fn lemma_missing_stays(disk: Disk, jobs: Seq<ExtraModel>, n: int)
    requires
        0 <= n <= jobs.len(),
        first_missing_input(disk, jobs.subrange(0, n)) is Some,
    ensures
        first_missing_input(disk, jobs) == first_missing_input(disk, jobs.subrange(0, n)),
    decreases jobs.len() - n,
{
    if n < jobs.len() {
        assert(jobs.subrange(0, n + 1).drop_last() =~= jobs.subrange(0, n));
        lemma_missing_stays(disk, jobs, n + 1);
    } else {
        assert(jobs.subrange(0, n) =~= jobs);
    }
}

} // verus!
