//! Which generated Lisp files have to be made, and in which order.
use vstd::prelude::*;
use vstd::string::StringExecFns;

use crate::disk::Disk;
use crate::disk;
use crate::lisp_jobs::PipelinePaths;
use crate::lisp_jobs;
use crate::lisp_tree::{DirListing, DirScan, LeimGenerationRule, SemanticGrammarJob};
use crate::lisp_tree;
use crate::makefile::Rule;
use crate::makefile;
use crate::paths::Collation;
use crate::paths;
use crate::pipeline::{ExtraModel, GeneratedLispJob, JobModel, UnidataExtraJob};
use crate::pipeline;
use crate::text;
use crate::waves;

verus! {

/// Appends one name to a list.
fn name(v: &mut Vec<String>, s: &str)
    ensures
        text::texts(final(v)@) == text::texts(old(v)@).push(s@),
{
    let a: String = text::copy(s);
    proof {
        text::lemma_texts_push(v@, a);
    }
    v.push(a);
}

fn no_names() -> (r: Vec<String>)
    ensures
        text::texts(r@) == Seq::<Seq<char>>::empty(),
{
    let v: Vec<String> = Vec::new();
    proof {
        assert(text::texts(v@) =~= Seq::empty());
    }
    v
}

/// What the Unicode property files are made from; the last is itself generated.
pub open spec fn unifile_inputs(p: PipelinePaths) -> Seq<Seq<char>> {
    seq![
        pipeline::unidata_gen_path(p),
        pipeline::admin_file(p, "UnicodeData.txt"@),
        pipeline::admin_file(p, "BidiMirroring.txt"@),
        pipeline::admin_file(p, "BidiBrackets.txt"@),
        pipeline::admin_file(p, "unidata.txt"@),
    ]
}

pub fn unifile_dependencies(p: &PipelinePaths) -> (r: Vec<String>)
    ensures
        text::texts(r@) == unifile_inputs(*p),
{
    let root: &str = p.admin_unidata_root.as_str();
    let mut v: Vec<String> = no_names();
    name(&mut v, paths::join(root, "unidata-gen.el").as_str());
    name(&mut v, paths::join(root, "UnicodeData.txt").as_str());
    name(&mut v, paths::join(root, "BidiMirroring.txt").as_str());
    name(&mut v, paths::join(root, "BidiBrackets.txt").as_str());
    name(&mut v, paths::join(root, "unidata.txt").as_str());
    proof {
        assert(text::texts(v@) =~= unifile_inputs(*p));
    }
    v
}

/// One of `outputs` has to be made again.
pub open spec fn any_stale(disk: Disk, outputs: Seq<Seq<char>>, deps: Seq<Seq<char>>) -> bool {
    exists|i: int| 0 <= i < outputs.len() && disk::stale(disk, #[trigger] outputs[i], deps)
}

/// One of the extra files has to be made again.
pub open spec fn any_extra_stale(disk: Disk, jobs: Seq<ExtraModel>) -> bool {
    exists|i: int|
        0 <= i < jobs.len() && disk::stale(
            disk,
            (#[trigger] jobs[i]).output,
            jobs[i].dependencies,
        )
}

/// What the Unicode stage knows before it starts.
#[derive(Debug)]
pub struct UnidataPlan {
    pub unifiles: Vec<String>,
    pub unifiles_need_rebuild: bool,
    pub charprop_needs_rebuild: bool,
    pub extra_needs_rebuild: bool,
    pub extra_jobs: Vec<UnidataExtraJob>,
}

pub open spec fn plan_unifiles(p: PipelinePaths, generator: Seq<char>) -> Seq<Seq<char>> {
    lisp_tree::all_joined(
        paths::joined_path(p.lisp_root@, "international"@),
        makefile::unidata_names(text::lines_of(generator)),
    )
}

pub open spec fn charprop_path(p: PipelinePaths) -> Seq<char> {
    paths::joined_path(p.lisp_root@, "international/charprop.el"@)
}

impl UnidataPlan {
    /// The plan is the one for what was found on disk.
    pub open spec fn plans(self, disk: Disk, p: PipelinePaths, generator: Seq<char>) -> bool {
        let files = plan_unifiles(p, generator);
        let stale_files = any_stale(disk, files, unifile_inputs(p));
        &&& text::texts(self.unifiles@) == files
        &&& self.unifiles_need_rebuild == stale_files
        &&& self.charprop_needs_rebuild == (stale_files || disk::stale(
            disk,
            charprop_path(p),
            seq![pipeline::unidata_gen_path(p)] + files,
        ))
        &&& pipeline::extra_models(self.extra_jobs@) == pipeline::extra_table(p)
        &&& self.extra_needs_rebuild == any_extra_stale(disk, pipeline::extra_table(p))
    }

    /// Something has to be made.
    pub open spec fn needed(self) -> bool {
        self.unifiles_need_rebuild || self.charprop_needs_rebuild || self.extra_needs_rebuild
    }
}

/// Why the Unicode stage cannot start.
pub enum UnidataError {
    MissingInput(String),
    UnreadableGenerator,
}

/// The first input of the Unicode stage that is no file.
pub open spec fn unidata_missing(disk: Disk, p: PipelinePaths) -> Option<Seq<char>> {
    match disk::first_non_file(disk, unifile_inputs(p).drop_last()) {
        Some(m) => Some(m),
        None => pipeline::first_missing_input(disk, pipeline::extra_table(p)),
    }
}

fn some_extra_stale(disk: &Disk, jobs: &Vec<UnidataExtraJob>) -> (r: bool)
    ensures
        r == any_extra_stale(*disk, pipeline::extra_models(jobs@)),
{
    let ghost all = pipeline::extra_models(jobs@);
    let mut i: usize = 0;
    while i < jobs.len()
        invariant
            i <= jobs.len(),
            all == pipeline::extra_models(jobs@),
            forall|k: int|
                0 <= k < i ==> !disk::stale(
                    *disk,
                    (#[trigger] all[k]).output,
                    all[k].dependencies,
                ),
        decreases jobs.len() - i,
    {
        proof {
            assert(all[i as int] == jobs@[i as int].model());
        }
        if disk::generated_file_needs_rebuild(
            disk,
            jobs[i].output.as_str(),
            &jobs[i].dependencies,
        ) {
            return true;
        }
        i += 1;
    }
    false
}

/// What the Unicode stage has to do, from what is on disk before it. The generator is
/// looked at first: that it is there, then that it can be read.
pub fn plan_unidata_lisp_generation(disk: &Disk, p: &PipelinePaths) -> (r: Result<
    UnidataPlan,
    UnidataError,
>)
    ensures
        ({
            let generator = pipeline::unidata_gen_path(*p);
            if !disk.file_at(generator) {
                r matches Err(UnidataError::MissingInput(e)) && e@ == pipeline::missing_input(
                    generator,
                )
            } else {
                match disk.text_of(generator) {
                    None => r matches Err(UnidataError::UnreadableGenerator),
                    Some(g) => match unidata_missing(*disk, *p) {
                        Some(m) => r matches Err(UnidataError::MissingInput(e)) && e@
                            == pipeline::missing_input(m),
                        None => r matches Ok(plan) && plan.plans(*disk, *p, g),
                    },
                }
            }
        }),
{
    let deps: Vec<String> = unifile_dependencies(p);
    let unidata_gen: String = paths::join(p.admin_unidata_root.as_str(), "unidata-gen.el");
    let ghost inputs = unifile_inputs(*p);
    proof {
        let d = inputs.drop_last();
        assert(d[0] == unidata_gen@);
        assert(inputs.drop_last() =~= seq![
            pipeline::unidata_gen_path(*p),
            pipeline::admin_file(*p, "UnicodeData.txt"@),
            pipeline::admin_file(*p, "BidiMirroring.txt"@),
            pipeline::admin_file(*p, "BidiBrackets.txt"@),
        ]);
    }
    match disk::ensure_generation_input(disk, unidata_gen.as_str()) {
        Ok(()) => {},
        Err(e) => {
            return Err(UnidataError::MissingInput(e));
        },
    }
    let generator: &str = match disk.find(unidata_gen.as_str()) {
        Some(entry) => match &entry.contents {
            Some(c) => c.as_str(),
            None => {
                return Err(UnidataError::UnreadableGenerator);
            },
        },
        None => {
            return Err(UnidataError::UnreadableGenerator);
        },
    };
    let unifiles: Vec<String> = lisp_tree::unidata_generated_lisp_files(p, generator);
    let mut fixed: Vec<String> = no_names();
    name(&mut fixed, deps[0].as_str());
    name(&mut fixed, deps[1].as_str());
    name(&mut fixed, deps[2].as_str());
    name(&mut fixed, deps[3].as_str());
    proof {
        assert(forall|i: int| 0 <= i < 5 ==> inputs[i] == #[trigger] deps@[i]@);
        assert(text::texts(fixed@) =~= inputs.drop_last());
    }
    match disk::ensure_generation_inputs(disk, &fixed) {
        Ok(()) => {},
        Err(e) => {
            return Err(UnidataError::MissingInput(e));
        },
    }
    let unifiles_need: bool = disk::generated_outputs_need_rebuild(disk, &unifiles, &deps);
    let charprop: String = paths::join(p.lisp_root.as_str(), "international/charprop.el");
    let mut charprop_deps: Vec<String> = no_names();
    name(&mut charprop_deps, unidata_gen.as_str());
    let mut more: Vec<String> = pipeline::copy_names(&unifiles);
    let ghost a = charprop_deps@;
    let ghost b = more@;
    charprop_deps.append(&mut more);
    proof {
        assert(text::texts(charprop_deps@) =~= text::texts(a) + text::texts(b));
        assert(text::texts(charprop_deps@) =~= seq![unidata_gen@] + text::texts(unifiles@));
        assert(unifiles_need == any_stale(*disk, text::texts(unifiles@), unifile_inputs(*p)));
    }
    let charprop_needs: bool = unifiles_need || disk::generated_file_needs_rebuild(
        disk,
        charprop.as_str(),
        &charprop_deps,
    );
    let extra_jobs: Vec<UnidataExtraJob> = match pipeline::unidata_extra_lisp_jobs(disk, p) {
        Ok(v) => v,
        Err(e) => {
            return Err(UnidataError::MissingInput(e));
        },
    };
    let extra_needs: bool = some_extra_stale(disk, &extra_jobs);
    Ok(
        UnidataPlan {
            unifiles: unifiles,
            unifiles_need_rebuild: unifiles_need,
            charprop_needs_rebuild: charprop_needs,
            extra_needs_rebuild: extra_needs,
            extra_jobs: extra_jobs,
        },
    )
}

/// The steps of the Unicode stage in order.
#[derive(Debug, Clone, Copy, PartialEq, Eq, Structural)]
pub enum UnidataStep {
    MakeText,
    CompileGenerator,
    Properties,
    Index,
    Extras,
    Done,
}

pub open spec fn unidata_rank(s: UnidataStep) -> int {
    match s {
        UnidataStep::MakeText => 0,
        UnidataStep::CompileGenerator => 1,
        UnidataStep::Properties => 2,
        UnidataStep::Index => 3,
        UnidataStep::Extras => 4,
        UnidataStep::Done => 5,
    }
}

/// Whether a step has something to do, with the disk as it is when its turn comes.
pub open spec fn unidata_due(disk: Disk, p: PipelinePaths, plan: UnidataPlan, s: UnidataStep) -> bool {
    match s {
        UnidataStep::MakeText => plan.needed() && disk::stale(
            disk,
            pipeline::admin_file(p, "unidata.txt"@),
            seq![pipeline::admin_file(p, "UnicodeData.txt"@)],
        ),
        UnidataStep::CompileGenerator => plan.needed() && disk::bytecode_stale(
            disk,
            pipeline::unidata_gen_path(p),
        ),
        UnidataStep::Properties => plan.unifiles_need_rebuild && any_stale(
            disk,
            text::texts(plan.unifiles@),
            unifile_inputs(p),
        ),
        UnidataStep::Index => plan.charprop_needs_rebuild,
        UnidataStep::Extras => plan.needed() && any_extra_stale(
            disk,
            pipeline::extra_models(plan.extra_jobs@),
        ),
        UnidataStep::Done => true,
    }
}

fn unidata_is_due(disk: &Disk, p: &PipelinePaths, plan: &UnidataPlan, s: UnidataStep) -> (r: bool)
    ensures
        r == unidata_due(*disk, *p, *plan, s),
{
    let needed: bool = plan.unifiles_need_rebuild || plan.charprop_needs_rebuild
        || plan.extra_needs_rebuild;
    let root: &str = p.admin_unidata_root.as_str();
    match s {
        UnidataStep::MakeText => {
            let mut deps: Vec<String> = no_names();
            name(&mut deps, paths::join(root, "UnicodeData.txt").as_str());
            proof {
                assert(text::texts(deps@) =~= seq![pipeline::admin_file(*p, "UnicodeData.txt"@)]);
            }
            needed && disk::generated_file_needs_rebuild(
                disk,
                paths::join(root, "unidata.txt").as_str(),
                &deps,
            )
        },
        UnidataStep::CompileGenerator => needed && disk::bytecode_needs_rebuild(
            disk,
            paths::join(root, "unidata-gen.el").as_str(),
        ),
        UnidataStep::Properties => {
            let deps: Vec<String> = unifile_dependencies(p);
            let stale: bool = disk::generated_outputs_need_rebuild(disk, &plan.unifiles, &deps);
            proof {
                assert(stale == any_stale(
                    *disk,
                    text::texts(plan.unifiles@),
                    unifile_inputs(*p),
                ));
            }
            plan.unifiles_need_rebuild && stale
        },
        UnidataStep::Index => plan.charprop_needs_rebuild,
        UnidataStep::Extras => needed && some_extra_stale(disk, &plan.extra_jobs),
        UnidataStep::Done => true,
    }
}

/// What the Unicode stage does next.
pub enum UnidataAction {
    Run(UnidataStep),
    Finish,
    Fail(String),
}

pub open spec fn following(s: UnidataStep) -> UnidataStep {
    match s {
        UnidataStep::MakeText => UnidataStep::CompileGenerator,
        UnidataStep::CompileGenerator => UnidataStep::Properties,
        UnidataStep::Properties => UnidataStep::Index,
        UnidataStep::Index => UnidataStep::Extras,
        UnidataStep::Extras => UnidataStep::Done,
        UnidataStep::Done => UnidataStep::Done,
    }
}

/// The first step at or behind `from` that has something to do.
pub open spec fn next_due(disk: Disk, p: PipelinePaths, plan: UnidataPlan, from: UnidataStep) -> UnidataStep
    decreases 5 - unidata_rank(from),
{
    if from == UnidataStep::Done || unidata_due(disk, p, plan, from) {
        from
    } else {
        next_due(disk, p, plan, following(from))
    }
}

/// What to do at `from`, once the jobs of the step before it have ended with
/// `errors`. The disk is as it is now.
pub fn run_unidata_lisp_generation(
    disk: &Disk,
    p: &PipelinePaths,
    plan: &UnidataPlan,
    from: UnidataStep,
    errors: &Vec<String>,
) -> (r: UnidataAction)
    ensures
        if errors@.len() > 0 {
            r matches UnidataAction::Fail(e) && e@ == "generated Lisp data failed for "@
                + text::decimal(errors@.len()) + " target"@ + lisp_jobs::plural(errors@.len())
        } else {
            let s = next_due(*disk, *p, *plan, from);
            if s == UnidataStep::Done {
                r is Finish
            } else {
                r == UnidataAction::Run(s)
            }
        },
    decreases 5 - unidata_rank(from),
{
    if errors.len() > 0 {
        return UnidataAction::Fail(lisp_jobs::generated_lisp_failure_summary(errors));
    }
    match from {
        UnidataStep::Done => UnidataAction::Finish,
        _ => {
            if unidata_is_due(disk, p, plan, from) {
                UnidataAction::Run(from)
            } else {
                let next: UnidataStep = match from {
                    UnidataStep::MakeText => UnidataStep::CompileGenerator,
                    UnidataStep::CompileGenerator => UnidataStep::Properties,
                    UnidataStep::Properties => UnidataStep::Index,
                    UnidataStep::Index => UnidataStep::Extras,
                    _ => UnidataStep::Done,
                };
                run_unidata_lisp_generation(disk, p, plan, next, errors)
            }
        },
    }
}

proof fn lemma_next_due_none(disk: Disk, p: PipelinePaths, plan: UnidataPlan, from: UnidataStep)
    requires
        !plan.needed(),
    ensures
        next_due(disk, p, plan, from) == UnidataStep::Done,
    decreases 5 - unidata_rank(from),
{
    if from != UnidataStep::Done {
        lemma_next_due_none(disk, p, plan, following(from));
    }
}

/// Where nothing has to be made, no step runs, whatever the disk has become.
pub proof fn law_unneeded_plan_runs_nothing(
    disk: Disk,
    p: PipelinePaths,
    plan: UnidataPlan,
    from: UnidataStep,
)
    requires
        !plan.needed(),
    ensures
        next_due(disk, p, plan, from) == UnidataStep::Done,
{
    lemma_next_due_none(disk, p, plan, from);
}

/// A step is never followed by an earlier one.
pub proof fn law_unidata_steps_advance(
    disk: Disk,
    p: PipelinePaths,
    plan: UnidataPlan,
    from: UnidataStep,
)
    ensures
        unidata_rank(next_due(disk, p, plan, from)) >= unidata_rank(from),
    decreases 5 - unidata_rank(from),
{
    if from != UnidataStep::Done && !unidata_due(disk, p, plan, from) {
        law_unidata_steps_advance(disk, p, plan, following(from));
    }
}

pub open spec fn unifile_job(p: PipelinePaths, output: Seq<char>) -> JobModel {
    JobModel {
        name: output + " (GNU unidata-gen-file)"@,
        args: lisp_jobs::generator_args(
            p.admin_unidata_root@,
            pipeline::unidata_gen_path(p),
            "unidata-gen-file"@,
        ) + seq![output, p.admin_unidata_root@, pipeline::admin_file(p, "unidata.txt"@)],
        output: output,
    }
}

/// The jobs for the property files that have to be made.
pub open spec fn unifile_jobs(disk: Disk, p: PipelinePaths, files: Seq<Seq<char>>) -> Seq<JobModel> {
    files.filter(|f: Seq<char>| disk::stale(disk, f, unifile_inputs(p))).map_values(
        |f: Seq<char>| unifile_job(p, f),
    )
}

proof fn lemma_map_push<A, B>(v: Seq<A>, x: A, f: spec_fn(A) -> B)
    ensures
        v.push(x).map_values(f) == v.map_values(f).push(f(x)),
{
    assert(v.push(x).map_values(f) =~= v.map_values(f).push(f(x)));
}

fn push_job(v: &mut Vec<GeneratedLispJob>, job: GeneratedLispJob)
    ensures
        pipeline::job_models(final(v)@) == pipeline::job_models(old(v)@).push(job.model()),
{
    let ghost start = v@;
    v.push(job);
    proof {
        assert(pipeline::job_models(v@) =~= pipeline::job_models(start).push(job.model()));
    }
}

pub fn unidata_gen_file_jobs(disk: &Disk, p: &PipelinePaths, unifiles: &Vec<String>) -> (r: Vec<
    GeneratedLispJob,
>)
    ensures
        pipeline::job_models(r@) == unifile_jobs(*disk, *p, text::texts(unifiles@)),
{
    let deps: Vec<String> = unifile_dependencies(p);
    let unidata_txt: String = paths::join(p.admin_unidata_root.as_str(), "unidata.txt");
    let ghost all = text::texts(unifiles@);
    let ghost stale = |f: Seq<char>| disk::stale(*disk, f, unifile_inputs(*p));
    let ghost job_of = |f: Seq<char>| unifile_job(*p, f);
    let mut jobs: Vec<GeneratedLispJob> = Vec::new();
    let mut i: usize = 0;
    proof {
        reveal(Seq::filter);
        assert(pipeline::job_models(jobs@) =~= all.subrange(0, 0).filter(stale).map_values(
            job_of,
        ));
    }
    while i < unifiles.len()
        invariant
            i <= unifiles.len(),
            all == text::texts(unifiles@),
            text::texts(deps@) == unifile_inputs(*p),
            unidata_txt@ == pipeline::admin_file(*p, "unidata.txt"@),
            stale == |f: Seq<char>| disk::stale(*disk, f, unifile_inputs(*p)),
            job_of == |f: Seq<char>| unifile_job(*p, f),
            pipeline::job_models(jobs@) == all.subrange(0, i as int).filter(stale).map_values(
                job_of,
            ),
        decreases unifiles.len() - i,
    {
        let output: &str = unifiles[i].as_str();
        proof {
            assert(all[i as int] == unifiles@[i as int]@);
            paths::lemma_filter_step(all, i as int, stale);
            lemma_map_push(all.subrange(0, i as int).filter(stale), all[i as int], job_of);
        }
        if disk::generated_file_needs_rebuild(disk, output, &deps) {
            let job: GeneratedLispJob = GeneratedLispJob {
                name: text::concat(output, " (GNU unidata-gen-file)"),
                args: lisp_jobs::unidata_gen_file_args(p, output, unidata_txt.as_str()),
                output: text::copy(output),
            };
            push_job(&mut jobs, job);
        }
        i += 1;
    }
    proof {
        assert(all.subrange(0, all.len() as int) =~= all);
    }
    jobs
}

pub open spec fn extra_job(j: ExtraModel) -> JobModel {
    JobModel { name: j.output + " (GNU unidata)"@, args: j.args, output: j.output }
}

/// The jobs for the extra files that have to be made.
pub open spec fn extra_jobs_due(disk: Disk, jobs: Seq<ExtraModel>) -> Seq<JobModel> {
    jobs.filter(|j: ExtraModel| disk::stale(disk, j.output, j.dependencies)).map_values(
        |j: ExtraModel| extra_job(j),
    )
}

pub fn unidata_extra_jobs_to_run(disk: &Disk, jobs: &Vec<UnidataExtraJob>) -> (r: Vec<
    GeneratedLispJob,
>)
    ensures
        pipeline::job_models(r@) == extra_jobs_due(*disk, pipeline::extra_models(jobs@)),
{
    let ghost all = pipeline::extra_models(jobs@);
    let ghost stale = |j: ExtraModel| disk::stale(*disk, j.output, j.dependencies);
    let ghost job_of = |j: ExtraModel| extra_job(j);
    let mut out: Vec<GeneratedLispJob> = Vec::new();
    let mut i: usize = 0;
    proof {
        reveal(Seq::filter);
        assert(pipeline::job_models(out@) =~= all.subrange(0, 0).filter(stale).map_values(job_of));
    }
    while i < jobs.len()
        invariant
            i <= jobs.len(),
            all == pipeline::extra_models(jobs@),
            stale == |j: ExtraModel| disk::stale(*disk, j.output, j.dependencies),
            job_of == |j: ExtraModel| extra_job(j),
            pipeline::job_models(out@) == all.subrange(0, i as int).filter(stale).map_values(
                job_of,
            ),
        decreases jobs.len() - i,
    {
        let output: &str = jobs[i].output.as_str();
        proof {
            assert(all[i as int] == jobs@[i as int].model());
            paths::lemma_filter_step(all, i as int, stale);
            lemma_map_push(all.subrange(0, i as int).filter(stale), all[i as int], job_of);
        }
        if disk::generated_file_needs_rebuild(disk, output, &jobs[i].dependencies) {
            let job: GeneratedLispJob = GeneratedLispJob {
                name: text::concat(output, " (GNU unidata)"),
                args: pipeline::copy_names(&jobs[i].args),
                output: text::copy(output),
            };
            push_job(&mut out, job);
        }
        i += 1;
    }
    proof {
        assert(all.subrange(0, all.len() as int) =~= all);
    }
    out
}

/// A source that goes through a converter.
#[derive(Debug)]
pub struct LeimGenerationJob {
    pub source: String,
    pub args: Vec<String>,
}

pub struct LeimJobModel {
    pub source: Seq<char>,
    pub args: Seq<Seq<char>>,
}

impl LeimGenerationJob {
    pub open spec fn model(self) -> LeimJobModel {
        LeimJobModel { source: self.source@, args: text::texts(self.args@) }
    }
}

pub open spec fn leim_job_models(v: Seq<LeimGenerationJob>) -> Seq<LeimJobModel> {
    Seq::new(v.len(), |i: int| v[i].model())
}

/// What the rules up to here ask for: jobs, or the first source that is no file.
pub enum LeimJobs {
    Jobs(Seq<LeimJobModel>),
    Missing(Seq<char>),
}

pub open spec fn leim_jobs(disk: Disk, p: PipelinePaths, rules: Seq<lisp_tree::LeimRuleModel>) -> LeimJobs
    decreases rules.len(),
{
    if rules.len() == 0 {
        LeimJobs::Jobs(Seq::empty())
    } else {
        match leim_jobs(disk, p, rules.drop_last()) {
            LeimJobs::Missing(m) => LeimJobs::Missing(m),
            LeimJobs::Jobs(before) => {
                let rule = rules.last();
                let source = paths::joined_path(p.leim_root@, rule.source);
                let outputs = lisp_tree::all_joined(p.lisp_root@, rule.outputs);
                if !disk.file_at(source) {
                    LeimJobs::Missing(source)
                } else if any_stale(disk, outputs, seq![source]) {
                    LeimJobs::Jobs(
                        before.push(
                            LeimJobModel {
                                source,
                                args: lisp_jobs::leim_args(
                                    rule.kind,
                                    paths::joined_path(p.lisp_root@, "leim/quail"@),
                                    source,
                                    outputs[0],
                                ),
                            },
                        ),
                    )
                } else {
                    LeimJobs::Jobs(before)
                }
            },
        }
    }
}

proof fn lemma_leim_missing_stays(
    disk: Disk,
    p: PipelinePaths,
    rules: Seq<lisp_tree::LeimRuleModel>,
    n: int,
)
    requires
        0 <= n <= rules.len(),
        leim_jobs(disk, p, rules.subrange(0, n)) is Missing,
    ensures
        leim_jobs(disk, p, rules) == leim_jobs(disk, p, rules.subrange(0, n)),
    decreases rules.len() - n,
{
    if n < rules.len() {
        assert(rules.subrange(0, n + 1).drop_last() =~= rules.subrange(0, n));
        lemma_leim_missing_stays(disk, p, rules, n + 1);
    } else {
        assert(rules.subrange(0, n) =~= rules);
    }
}

proof fn lemma_table_outputs(i: int)
    requires
        0 <= i < lisp_tree::leim_table().len(),
    ensures
        lisp_tree::leim_table()[i].outputs.len() > 0,
{
}

/// The input method sources that have to be converted; fails on the first source
/// that is no file.
pub fn leim_generation_jobs(disk: &Disk, p: &PipelinePaths) -> (r: Result<
    Vec<LeimGenerationJob>,
    String,
>)
    ensures
        match leim_jobs(*disk, *p, lisp_tree::leim_table()) {
            LeimJobs::Jobs(j) => r matches Ok(v) && leim_job_models(v@) == j,
            LeimJobs::Missing(m) => r matches Err(e) && e@ == pipeline::missing_input(m),
        },
{
    let rules: Vec<LeimGenerationRule> = lisp_tree::leim_generation_rules();
    let quail_dir: String = paths::join(p.lisp_root.as_str(), "leim/quail");
    let ghost all = lisp_tree::leim_table();
    let mut jobs: Vec<LeimGenerationJob> = Vec::new();
    let mut i: usize = 0;
    proof {
        assert(leim_job_models(jobs@) =~= Seq::empty());
    }
    while i < rules.len()
        invariant
            i <= rules.len(),
            lisp_tree::leim_models(rules@) == all,
            all == lisp_tree::leim_table(),
            quail_dir@ == paths::joined_path(p.lisp_root@, "leim/quail"@),
            leim_jobs(*disk, *p, all.subrange(0, i as int)) == LeimJobs::Jobs(
                leim_job_models(jobs@),
            ),
        decreases rules.len() - i,
    {
        proof {
            assert(all[i as int] == rules@[i as int].model());
            assert(all.subrange(0, i + 1).drop_last() =~= all.subrange(0, i as int));
            lemma_table_outputs(i as int);
        }
        let source: String = paths::join(p.leim_root.as_str(), rules[i].source_rel.as_str());
        match disk::ensure_generation_input(disk, source.as_str()) {
            Ok(()) => {},
            Err(e) => {
                proof {
                    lemma_leim_missing_stays(*disk, *p, all, i + 1);
                }
                return Err(e);
            },
        }
        let outputs: Vec<String> = lisp_tree::join_all(
            p.lisp_root.as_str(),
            &rules[i].output_rels,
        );
        let mut sources: Vec<String> = no_names();
        name(&mut sources, source.as_str());
        proof {
            assert(text::texts(sources@) =~= seq![source@]);
            assert(text::texts(outputs@).len() == outputs@.len());
            assert(text::texts(outputs@)[0] == outputs@[0]@);
        }
        let stale: bool = disk::generated_outputs_need_rebuild(disk, &outputs, &sources);
        proof {
            assert(stale == any_stale(*disk, text::texts(outputs@), seq![source@]));
        }
        if stale {
            let args: Vec<String> = lisp_jobs::leim_generation_args(
                rules[i].kind,
                quail_dir.as_str(),
                source.as_str(),
                outputs[0].as_str(),
            );
            let ghost before = jobs@;
            jobs.push(LeimGenerationJob { source: source, args: args });
            proof {
                assert(leim_job_models(jobs@) =~= leim_job_models(before).push(
                    jobs@.last().model(),
                ));
            }
        }
        i += 1;
    }
    proof {
        assert(all.subrange(0, all.len() as int) =~= all);
    }
    Ok(jobs)
}

/// Whether the list of input methods has to be made again.
pub fn leim_list_needs_rebuild(disk: &Disk, p: &PipelinePaths) -> (r: Result<bool, String>)
    ensures
        ({
            let ext = paths::joined_path(p.leim_root@, "leim-ext.el"@);
            let output = paths::joined_path(
                paths::joined_path(p.lisp_root@, "leim"@),
                "leim-list.el"@,
            );
            if !disk.file_at(ext) {
                r matches Err(e) && e@ == pipeline::missing_input(ext)
            } else {
                r matches Ok(b) && b == disk::stale(
                    *disk,
                    output,
                    lisp_tree::leim_outputs(lisp_tree::leim_table(), p.lisp_root@).push(ext),
                )
            }
        }),
{
    let ext: String = paths::join(p.leim_root.as_str(), "leim-ext.el");
    match disk::ensure_generation_input(disk, ext.as_str()) {
        Ok(()) => {},
        Err(e) => {
            return Err(e);
        },
    }
    let dir: String = paths::join(p.lisp_root.as_str(), "leim");
    let output: String = paths::join(dir.as_str(), "leim-list.el");
    let mut deps: Vec<String> = lisp_tree::leim_generated_output_paths(p);
    name(&mut deps, ext.as_str());
    Ok(disk::generated_file_needs_rebuild(disk, output.as_str(), &deps))
}

/// What happens to the next grammar.
pub enum GrammarStep {
    /// One of its inputs is not there.
    Fail(String),
    /// Its parser is up to date.
    Skip,
    /// Its parser has to be made with these arguments.
    Run(Vec<String>),
}

/// What is to be done about one grammar, with the disk as it is now.
pub fn semantic_grammar_step(disk: &Disk, target: &SemanticGrammarJob) -> (r: GrammarStep)
    ensures
        if !disk.file_at(target.source@) {
            r matches GrammarStep::Fail(e) && e@ == pipeline::missing_input(target.source@)
        } else if !disk.file_at(target.grammar@) {
            r matches GrammarStep::Fail(e) && e@ == pipeline::missing_input(target.grammar@)
        } else if disk::stale(*disk, target.output@, seq![target.source@, target.grammar@]) {
            r matches GrammarStep::Run(a) && text::texts(a@) == lisp_jobs::grammar_args(
                target.kind,
                target.output@,
                target.source@,
            )
        } else {
            r is Skip
        },
{
    match disk::ensure_generation_input(disk, target.source.as_str()) {
        Ok(()) => {},
        Err(e) => {
            return GrammarStep::Fail(e);
        },
    }
    match disk::ensure_generation_input(disk, target.grammar.as_str()) {
        Ok(()) => {},
        Err(e) => {
            return GrammarStep::Fail(e);
        },
    }
    let mut deps: Vec<String> = no_names();
    name(&mut deps, target.source.as_str());
    name(&mut deps, target.grammar.as_str());
    proof {
        assert(text::texts(deps@) =~= seq![target.source@, target.grammar@]);
    }
    if disk::generated_file_needs_rebuild(disk, target.output.as_str(), &deps) {
        GrammarStep::Run(
            lisp_jobs::semantic_grammar_args(
                target.kind,
                target.output.as_str(),
                target.source.as_str(),
            ),
        )
    } else {
        GrammarStep::Skip
    }
}

/// How a script of the pattern language gets its input.
#[derive(Debug, Clone, Copy, PartialEq, Eq, Structural)]
pub enum AwkInput {
    /// The one input is its standard input.
    Stdin,
    /// The one input is decompressed and becomes its standard input.
    Gunzip,
    /// The inputs are named in its arguments.
    Files,
}

/// A Lisp file that a script of the pattern language makes.
#[derive(Debug)]
pub struct AwkJob {
    pub input: AwkInput,
    pub script: String,
    pub inputs: Vec<String>,
    pub output: String,
}

pub struct AwkModel {
    pub input: AwkInput,
    pub script: Seq<char>,
    pub inputs: Seq<Seq<char>>,
    pub output: Seq<char>,
}

impl AwkJob {
    pub open spec fn model(self) -> AwkModel {
        AwkModel {
            input: self.input,
            script: self.script@,
            inputs: text::texts(self.inputs@),
            output: self.output@,
        }
    }
}

pub open spec fn awk_models(v: Seq<AwkJob>) -> Seq<AwkModel> {
    Seq::new(v.len(), |i: int| v[i].model())
}

/// The files that are made before the first dump, in order.
pub open spec fn early_table(p: PipelinePaths) -> Seq<AwkModel> {
    seq![
        AwkModel {
            input: AwkInput::Stdin,
            script: paths::joined_path(p.admin_charsets_root@, "cp51932.awk"@),
            inputs: seq![paths::joined_path(p.etc_root@, "charsets/CP932-2BYTE.map"@)],
            output: paths::joined_path(p.lisp_root@, "international/cp51932.el"@),
        },
        AwkModel {
            input: AwkInput::Gunzip,
            script: paths::joined_path(p.admin_charsets_root@, "eucjp-ms.awk"@),
            inputs: seq![paths::joined_path(p.admin_charsets_root@, "glibc/EUC-JP-MS.gz"@)],
            output: paths::joined_path(p.lisp_root@, "international/eucjp-ms.el"@),
        },
        AwkModel {
            input: AwkInput::Files,
            script: pipeline::admin_file(p, "blocks.awk"@),
            inputs: seq![
                pipeline::admin_file(p, "Blocks.txt"@),
                pipeline::admin_file(p, "emoji-data.txt"@),
            ],
            output: paths::joined_path(p.lisp_root@, "international/charscript.el"@),
        },
        AwkModel {
            input: AwkInput::Files,
            script: pipeline::admin_file(p, "emoji-zwj.awk"@),
            inputs: seq![
                pipeline::admin_file(p, "emoji-zwj-sequences.txt"@),
                pipeline::admin_file(p, "emoji-sequences.txt"@),
            ],
            output: paths::joined_path(p.lisp_root@, "international/emoji-zwj.el"@),
        },
    ]
}

fn push_awk(v: &mut Vec<AwkJob>, job: AwkJob)
    ensures
        awk_models(final(v)@) == awk_models(old(v)@).push(job.model()),
{
    let ghost start = v@;
    v.push(job);
    proof {
        assert(awk_models(v@) =~= awk_models(start).push(job.model()));
    }
}

fn one_name(s: String) -> (r: Vec<String>)
    ensures
        text::texts(r@) == seq![s@],
{
    let mut v: Vec<String> = no_names();
    name(&mut v, s.as_str());
    proof {
        assert(text::texts(v@) =~= seq![s@]);
    }
    v
}

fn two_names(a: String, b: String) -> (r: Vec<String>)
    ensures
        text::texts(r@) == seq![a@, b@],
{
    let mut v: Vec<String> = no_names();
    name(&mut v, a.as_str());
    name(&mut v, b.as_str());
    proof {
        assert(text::texts(v@) =~= seq![a@, b@]);
    }
    v
}

/// The files that are made before the first dump, in order.
pub fn early_international_jobs(p: &PipelinePaths) -> (r: Vec<AwkJob>)
    ensures
        awk_models(r@) == early_table(*p),
{
    let charsets: &str = p.admin_charsets_root.as_str();
    let unidata: &str = p.admin_unidata_root.as_str();
    let lisp: &str = p.lisp_root.as_str();
    let mut v: Vec<AwkJob> = Vec::new();
    proof {
        assert(awk_models(v@) =~= Seq::empty());
    }
    let cp51932: AwkJob = AwkJob {
        input: AwkInput::Stdin,
        script: paths::join(charsets, "cp51932.awk"),
        inputs: one_name(paths::join(p.etc_root.as_str(), "charsets/CP932-2BYTE.map")),
        output: paths::join(lisp, "international/cp51932.el"),
    };
    push_awk(&mut v, cp51932);
    let eucjp: AwkJob = AwkJob {
        input: AwkInput::Gunzip,
        script: paths::join(charsets, "eucjp-ms.awk"),
        inputs: one_name(paths::join(charsets, "glibc/EUC-JP-MS.gz")),
        output: paths::join(lisp, "international/eucjp-ms.el"),
    };
    push_awk(&mut v, eucjp);
    let charscript: AwkJob = AwkJob {
        input: AwkInput::Files,
        script: paths::join(unidata, "blocks.awk"),
        inputs: two_names(paths::join(unidata, "Blocks.txt"), paths::join(unidata, "emoji-data.txt")),
        output: paths::join(lisp, "international/charscript.el"),
    };
    push_awk(&mut v, charscript);
    let emoji: AwkJob = AwkJob {
        input: AwkInput::Files,
        script: paths::join(unidata, "emoji-zwj.awk"),
        inputs: two_names(
            paths::join(unidata, "emoji-zwj-sequences.txt"),
            paths::join(unidata, "emoji-sequences.txt"),
        ),
        output: paths::join(lisp, "international/emoji-zwj.el"),
    };
    push_awk(&mut v, emoji);
    proof {
        assert(awk_models(v@) =~= early_table(*p));
    }
    v
}

/// What happens to the next file that a script makes.
pub enum AwkStep {
    Fail(String),
    Skip,
    Run,
}

/// What is to be done about one such file, with the disk as it is now.
pub fn awk_step(disk: &Disk, job: &AwkJob) -> (r: AwkStep)
    ensures
        ({
            let deps = seq![job.script@] + text::texts(job.inputs@);
            match disk::first_non_file(*disk, deps) {
                Some(m) => r matches AwkStep::Fail(e) && e@ == pipeline::missing_input(m),
                None => if disk::stale(*disk, job.output@, deps) {
                    r is Run
                } else {
                    r is Skip
                },
            }
        }),
{
    let mut deps: Vec<String> = one_name(text::copy(job.script.as_str()));
    let mut more: Vec<String> = pipeline::copy_names(&job.inputs);
    let ghost a = deps@;
    let ghost b = more@;
    deps.append(&mut more);
    proof {
        assert(text::texts(deps@) =~= text::texts(a) + text::texts(b));
    }
    match disk::ensure_generation_inputs(disk, &deps) {
        Ok(()) => {},
        Err(e) => {
            return AwkStep::Fail(e);
        },
    }
    if disk::generated_file_needs_rebuild(disk, job.output.as_str(), &deps) {
        AwkStep::Run
    } else {
        AwkStep::Skip
    }
}

/// What a script of the pattern language is handed.
pub fn awk_args(job: &AwkJob) -> (r: Vec<String>)
    ensures
        text::texts(r@) == seq!["-f"@, job.script@] + if job.input == AwkInput::Files {
            text::texts(job.inputs@)
        } else {
            Seq::<Seq<char>>::empty()
        },
{
    let mut v: Vec<String> = two_names(text::copy("-f"), text::copy(job.script.as_str()));
    match job.input {
        AwkInput::Files => {
            let mut more: Vec<String> = pipeline::copy_names(&job.inputs);
            let ghost a = v@;
            let ghost b = more@;
            v.append(&mut more);
            proof {
                assert(text::texts(v@) =~= text::texts(a) + text::texts(b));
            }
        },
        _ => {
            proof {
                assert(text::texts(v@) =~= text::texts(v@) + Seq::<Seq<char>>::empty());
            }
        },
    }
    v
}

/// What turns the character database into Lisp.
pub fn sed_args() -> (r: Vec<String>)
    ensures
        text::texts(r@) == seq![
            "-e"@,
            "s/\\([^;]*\\);\\(.*\\)/(#x\\1 \"\\2\")/"@,
            "-e"@,
            "s/;/\" \"/g"@,
        ],
{
    let mut v: Vec<String> = no_names();
    name(&mut v, "-e");
    name(&mut v, "s/\\([^;]*\\);\\(.*\\)/(#x\\1 \"\\2\")/");
    name(&mut v, "-e");
    name(&mut v, "s/;/\" \"/g");
    v
}

/// A data file made out of the Lisp directories, if it has to be made.
pub open spec fn data_job(
    disk: Disk,
    p: PipelinePaths,
    scan: DirScan,
    dirs: Seq<Seq<char>>,
) -> Option<JobModel> {
    let custom = scan == DirScan::CustomDependencies;
    let output = paths::joined_path(
        p.lisp_root@,
        if custom {
            "cus-load.el"@
        } else {
            "finder-inf.el"@
        },
    );
    let source = paths::joined_path(
        p.lisp_root@,
        if custom {
            "cus-dep.el"@
        } else {
            "finder.el"@
        },
    );
    let taken = lisp_tree::scanned(scan, p.lisp_root@, dirs);
    if !disk::stale(disk, output, taken.push(source)) {
        None
    } else if custom {
        Some(
            JobModel {
                name: "lisp/cus-load.el (GNU custom-deps)"@,
                args: lisp_jobs::data_file_args(
                    "cus-dep"@,
                    "generated-custom-dependencies-file"@,
                    "custom-make-dependencies"@,
                    p.lisp_root@,
                    output,
                    taken,
                ),
                output,
            },
        )
    } else {
        Some(
            JobModel {
                name: "lisp/finder-inf.el (GNU finder-data)"@,
                args: lisp_jobs::data_file_args(
                    "finder"@,
                    "generated-finder-keywords-file"@,
                    "finder-compile-keywords-make-dist"@,
                    p.lisp_root@,
                    output,
                    taken,
                ),
                output,
            },
        )
    }
}

/// The job for the customization index, if it has to be made; `dirs` are the
/// directories of the Lisp tree.
pub fn custom_dependencies_generation_job(disk: &Disk, p: &PipelinePaths, dirs: &Vec<String>) -> (r:
    Option<GeneratedLispJob>)
    ensures
        match data_job(*disk, *p, DirScan::CustomDependencies, text::texts(dirs@)) {
            None => r is None,
            Some(m) => r matches Some(j) && j.model() == m,
        },
{
    let output: String = paths::join(p.lisp_root.as_str(), "cus-load.el");
    let taken: Vec<String> = lisp_tree::lisp_dirs_matching_gnu_subdirs(
        DirScan::CustomDependencies,
        p.lisp_root.as_str(),
        dirs,
    );
    let mut deps: Vec<String> = pipeline::copy_names(&taken);
    name(&mut deps, paths::join(p.lisp_root.as_str(), "cus-dep.el").as_str());
    if !disk::generated_file_needs_rebuild(disk, output.as_str(), &deps) {
        return None;
    }
    let args: Vec<String> = lisp_jobs::custom_dependencies_generation_args(
        p.lisp_root.as_str(),
        output.as_str(),
        &taken,
    );
    Some(
        GeneratedLispJob {
            name: text::copy("lisp/cus-load.el (GNU custom-deps)"),
            args: args,
            output: output,
        },
    )
}

/// The job for the keyword index, if it has to be made.
pub fn finder_data_generation_job(disk: &Disk, p: &PipelinePaths, dirs: &Vec<String>) -> (r: Option<
    GeneratedLispJob,
>)
    ensures
        match data_job(*disk, *p, DirScan::FinderData, text::texts(dirs@)) {
            None => r is None,
            Some(m) => r matches Some(j) && j.model() == m,
        },
{
    let output: String = paths::join(p.lisp_root.as_str(), "finder-inf.el");
    let taken: Vec<String> = lisp_tree::lisp_dirs_matching_gnu_subdirs(
        DirScan::FinderData,
        p.lisp_root.as_str(),
        dirs,
    );
    let mut deps: Vec<String> = pipeline::copy_names(&taken);
    name(&mut deps, paths::join(p.lisp_root.as_str(), "finder.el").as_str());
    if !disk::generated_file_needs_rebuild(disk, output.as_str(), &deps) {
        return None;
    }
    let args: Vec<String> = lisp_jobs::finder_data_generation_args(
        p.lisp_root.as_str(),
        output.as_str(),
        &taken,
    );
    Some(
        GeneratedLispJob {
            name: text::copy("lisp/finder-inf.el (GNU finder-data)"),
            args: args,
            output: output,
        },
    )
}

/// The compiled generator of the autoloads where it is there, else its source.
pub fn loaddefs_generator(disk: &Disk, p: &PipelinePaths) -> (r: String)
    ensures
        r@ == if disk.file_at(paths::joined_path(p.lisp_root@, "emacs-lisp/loaddefs-gen.elc"@)) {
            paths::joined_path(p.lisp_root@, "emacs-lisp/loaddefs-gen.elc"@)
        } else {
            paths::joined_path(p.lisp_root@, "emacs-lisp/loaddefs-gen.el"@)
        },
{
    let compiled: String = paths::join(p.lisp_root.as_str(), "emacs-lisp/loaddefs-gen.elc");
    if disk.is_file(compiled.as_str()) {
        compiled
    } else {
        paths::join(p.lisp_root.as_str(), "emacs-lisp/loaddefs-gen.el")
    }
}

/// What is removed so that the primary autoloads are made anew.
pub fn primary_loaddefs_files(p: &PipelinePaths) -> (r: Vec<String>)
    ensures
        ({
            let loaddefs = paths::joined_path(p.lisp_root@, "loaddefs.el"@);
            let theme = paths::joined_path(p.lisp_root@, "theme-loaddefs.el"@);
            text::texts(r@) == seq![
                loaddefs,
                theme,
                disk::elc(loaddefs),
                disk::elc(theme),
                paths::joined_path(p.lisp_root@, "ldefs-boot.elc"@),
                paths::joined_path(p.lisp_root@, "emacs-lisp/cl-loaddefs.elc"@),
            ]
        }),
{
    let root: &str = p.lisp_root.as_str();
    let loaddefs: String = paths::join(root, "loaddefs.el");
    let theme: String = paths::join(root, "theme-loaddefs.el");
    let mut v: Vec<String> = no_names();
    name(&mut v, loaddefs.as_str());
    name(&mut v, theme.as_str());
    name(&mut v, paths::with_extension(loaddefs.as_str(), "elc").as_str());
    name(&mut v, paths::with_extension(theme.as_str(), "elc").as_str());
    name(&mut v, paths::join(root, "ldefs-boot.elc").as_str());
    name(&mut v, paths::join(root, "emacs-lisp/cl-loaddefs.elc").as_str());
    v
}

/// What a failed search for a preload artifact is reported as.
pub fn missing_preload_artifact(path: &str) -> (r: String)
    ensures
        r@ == "aot-preload: expected artifact not found: "@ + path@
            + " (did the in-neomacs producer run? it is gated by NEOVM_AOT_PRELOAD=1 on the --temacs=pdump dump)"@,
{
    let mut out: String = text::copy("aot-preload: expected artifact not found: ");
    out.append(path);
    out.append(
        " (did the in-neomacs producer run? it is gated by NEOVM_AOT_PRELOAD=1 on the --temacs=pdump dump)",
    );
    out
}

/// The first of the two preload artifacts beside the final program that is missing.
pub fn verify_aot_preload_artifacts(disk: &Disk, dir: &str) -> (r: Result<(), String>)
    ensures
        ({
            let so = paths::joined_path(dir@, "libneomacs-preload.so"@);
            let manifest = paths::joined_path(dir@, "libneomacs-preload.manifest"@);
            if disk.present(so) && disk.present(manifest) {
                r is Ok
            } else {
                r matches Err(e) && e@ == "aot-preload: expected artifact not found: "@ + (
                if !disk.present(so) {
                    so
                } else {
                    manifest
                })
                    + " (did the in-neomacs producer run? it is gated by NEOVM_AOT_PRELOAD=1 on the --temacs=pdump dump)"@
            }
        }),
{
    let so: String = paths::join(dir, "libneomacs-preload.so");
    let manifest: String = paths::join(dir, "libneomacs-preload.manifest");
    if !disk.is_there(so.as_str()) {
        return Err(missing_preload_artifact(so.as_str()));
    }
    if !disk.is_there(manifest.as_str()) {
        return Err(missing_preload_artifact(manifest.as_str()));
    }
    Ok(())
}

/// A dump of the bootstrap program: its name, a hyphen, and a mark before the extension.
pub open spec fn is_dump_of(program: Seq<char>, file: Seq<char>) -> bool {
    text::starts_with(file, program.push('-')) && text::ends_with(file, ".pdump"@)
}

pub fn is_bootstrap_dump(program: &str, file: &str) -> (r: bool)
    ensures
        r == is_dump_of(program@, file@),
{
    let mut prefix: String = text::copy(program);
    prefix.push('-');
    text::begins_with(file, prefix.as_str()) && text::finishes_with(file, ".pdump")
}

/// The preloaded sources that have to be compiled. The character tables also wait
/// for the helpers `deps`.
pub open spec fn preloaded_due(
    disk: Disk,
    dry_run: bool,
    characters: Seq<char>,
    deps: Seq<Seq<char>>,
    s: Seq<char>,
) -> bool {
    dry_run || if paths::same_name(Collation::Path, s, characters) {
        disk::bytecode_stale_with(disk, s, deps)
    } else {
        disk::bytecode_stale(disk, s)
    }
}

#[verifier::rlimit(40)]
#[verifier::spinoff_prover]
pub fn preloaded_sources_to_compile(
    disk: &Disk,
    dry_run: bool,
    lisp_root: &str,
    sources: &Vec<String>,
    deps: &Vec<String>,
) -> (r: Vec<String>)
    ensures
        text::texts(r@) == text::texts(sources@).filter(
            |s: Seq<char>|
                preloaded_due(
                    *disk,
                    dry_run,
                    paths::joined_path(lisp_root@, "international/characters.el"@),
                    text::texts(deps@),
                    s,
                ),
        ),
{
    let characters: String = paths::join(lisp_root, "international/characters.el");
    let ghost all = text::texts(sources@);
    let ghost p = |s: Seq<char>|
        preloaded_due(*disk, dry_run, characters@, text::texts(deps@), s);
    let mut out: Vec<String> = no_names();
    let mut i: usize = 0;
    assert(text::texts(out@) =~= all.subrange(0, 0).filter(p)) by {
        reveal(Seq::filter);
    }
    while i < sources.len()
        invariant
            i <= sources.len(),
            all == text::texts(sources@),
            p == |s: Seq<char>|
                preloaded_due(*disk, dry_run, characters@, text::texts(deps@), s),
            text::texts(out@) == all.subrange(0, i as int).filter(p),
        decreases sources.len() - i,
    {
        proof {
            assert(all[i as int] == sources@[i as int]@);
            paths::lemma_filter_step(all, i as int, p);
        }
        let s: &str = sources[i].as_str();
        let due: bool = dry_run || if paths::same_path(s, characters.as_str()) {
            disk::bytecode_needs_rebuild_with_dependencies(disk, s, deps)
        } else {
            disk::bytecode_needs_rebuild(disk, s)
        };
        if due {
            name(&mut out, s);
        }
        i += 1;
    }
    proof {
        assert(all.subrange(0, all.len() as int) =~= all);
    }
    out
}

/// What the general compilation has to do.
#[derive(Debug)]
pub struct CompileMainPlan {
    pub main_first: Vec<String>,
    pub general: Vec<String>,
    pub dependencies: Vec<Rule>,
}

/// The names of `v` that are not in `seen` nor earlier in `v`.
pub open spec fn unseen(seen: Seq<Seq<char>>, v: Seq<Seq<char>>) -> Seq<Seq<char>>
    decreases v.len(),
{
    if v.len() == 0 {
        Seq::empty()
    } else {
        let before = unseen(seen, v.drop_last());
        if paths::has_name(Collation::Path, seen, v.last()) || paths::has_name(
            Collation::Path,
            before,
            v.last(),
        ) {
            before
        } else {
            before.push(v.last())
        }
    }
}

/// The first name of `v` that is not in `seen` and no file.
pub open spec fn first_absent(disk: Disk, seen: Seq<Seq<char>>, v: Seq<Seq<char>>) -> Option<
    Seq<char>,
>
    decreases v.len(),
{
    if v.len() == 0 {
        None
    } else {
        match first_absent(disk, seen, v.drop_last()) {
            Some(p) => Some(p),
            None => if !paths::has_name(Collation::Path, seen, v.last()) && !disk.file_at(
                v.last(),
            ) {
                Some(v.last())
            } else {
                None
            },
        }
    }
}

proof fn lemma_absent_stays(disk: Disk, seen: Seq<Seq<char>>, v: Seq<Seq<char>>, n: int)
    requires
        0 <= n <= v.len(),
        first_absent(disk, seen, v.subrange(0, n)) is Some,
    ensures
        first_absent(disk, seen, v) == first_absent(disk, seen, v.subrange(0, n)),
    decreases v.len() - n,
{
    if n < v.len() {
        assert(v.subrange(0, n + 1).drop_last() =~= v.subrange(0, n));
        lemma_absent_stays(disk, seen, v, n + 1);
    } else {
        assert(v.subrange(0, n) =~= v);
    }
}

/// The sources of `v` that are not in `seen`, each once; fails on the first that is
/// no file.
pub fn push_compile_main_sources(disk: &Disk, seen: &Vec<String>, v: &Vec<String>) -> (r: Result<
    Vec<String>,
    String,
>)
    ensures
        match first_absent(*disk, text::texts(seen@), text::texts(v@)) {
            Some(m) => r matches Err(e) && e@ == "compile-main source does not exist: "@ + m,
            None => r matches Ok(out) && text::texts(out@) == unseen(
                text::texts(seen@),
                text::texts(v@),
            ),
        },
{
    let ghost s = text::texts(seen@);
    let ghost all = text::texts(v@);
    let mut out: Vec<String> = no_names();
    let mut i: usize = 0;
    while i < v.len()
        invariant
            i <= v.len(),
            s == text::texts(seen@),
            all == text::texts(v@),
            first_absent(*disk, s, all.subrange(0, i as int)) is None,
            text::texts(out@) == unseen(s, all.subrange(0, i as int)),
        decreases v.len() - i,
    {
        proof {
            assert(all[i as int] == v@[i as int]@);
            assert(all.subrange(0, i + 1).drop_last() =~= all.subrange(0, i as int));
        }
        let source: &str = v[i].as_str();
        if !paths::contains_name(Collation::Path, seen, source) {
            if !disk.is_file(source) {
                proof {
                    lemma_absent_stays(*disk, s, all, i + 1);
                }
                return Err(text::concat("compile-main source does not exist: ", source));
            }
            if !paths::contains_name(Collation::Path, &out, source) {
                name(&mut out, source);
            }
        }
        i += 1;
    }
    proof {
        assert(all.subrange(0, all.len() as int) =~= all);
    }
    Ok(out)
}

/// Why the general compilation cannot be planned.
pub enum CompileMainError {
    UnreadableSource,
    MissingSource(String),
}

/// What the general compilation has to do: the sources that the makefile puts
/// first, and the others that have to be compiled, with the rules between them.
pub fn plan_compile_main(
    disk: &Disk,
    makefile_in: &str,
    lisp_root: &str,
    listings: &Vec<DirListing>,
) -> (r: Result<CompileMainPlan, CompileMainError>)
    ensures
        ({
            let none = Seq::<Seq<char>>::empty();
            let listed = makefile::variable_sources(
                makefile_in@,
                "MAIN_FIRST"@,
                false,
                false,
                lisp_root@,
            );
            let first = unseen(none, listed);
            let tree = lisp_tree::tree_sources(
                *disk,
                listings@,
                paths::in_order(Collation::Path, lisp_tree::listing_dirs(listings@)),
            );
            let rules = makefile::rules_of(makefile_in@, lisp_root@);
            match first_absent(*disk, none, listed) {
                Some(m) => r matches Err(CompileMainError::MissingSource(e)) && e@
                    == "compile-main source does not exist: "@ + m,
                None => match tree {
                    None => r matches Err(CompileMainError::UnreadableSource),
                    Some(all) => match first_absent(*disk, first, all) {
                        Some(m) => r matches Err(CompileMainError::MissingSource(e)) && e@
                            == "compile-main source does not exist: "@ + m,
                        None => {
                            &&& r matches Ok(plan)
                            &&& text::texts(plan.main_first@) == first.filter(
                                |s: Seq<char>| disk::compile_main_stale(*disk, s),
                            )
                            &&& text::texts(plan.general@) == waves::needing_rebuild(
                                *disk,
                                unseen(first, all),
                                rules,
                            )
                            &&& makefile::rule_models(plan.dependencies@) == rules
                        },
                    },
                },
            }
        }),
{
    let listed: Vec<String> = makefile::parse_main_first_sources_from_str(makefile_in, lisp_root);
    let nothing: Vec<String> = no_names();
    let first: Vec<String> = match push_compile_main_sources(disk, &nothing, &listed) {
        Ok(v) => v,
        Err(e) => {
            return Err(CompileMainError::MissingSource(e));
        },
    };
    let tree: Vec<String> = match lisp_tree::compile_main_sources(disk, listings) {
        Some(v) => v,
        None => {
            return Err(CompileMainError::UnreadableSource);
        },
    };
    let rest: Vec<String> = match push_compile_main_sources(disk, &first, &tree) {
        Ok(v) => v,
        Err(e) => {
            return Err(CompileMainError::MissingSource(e));
        },
    };
    let dependencies: Vec<Rule> = makefile::parse_compile_main_dependencies_from_str(
        makefile_in,
        lisp_root,
    );
    let ghost all = text::texts(first@);
    let ghost p = |s: Seq<char>| disk::compile_main_stale(*disk, s);
    let mut main_first: Vec<String> = no_names();
    let mut i: usize = 0;
    proof {
        reveal(Seq::filter);
        assert(text::texts(main_first@) =~= all.subrange(0, 0).filter(p));
    }
    while i < first.len()
        invariant
            i <= first.len(),
            all == text::texts(first@),
            p == |s: Seq<char>| disk::compile_main_stale(*disk, s),
            text::texts(main_first@) == all.subrange(0, i as int).filter(p),
        decreases first.len() - i,
    {
        proof {
            assert(all[i as int] == first@[i as int]@);
            paths::lemma_filter_step(all, i as int, p);
        }
        if disk::compile_main_needs_rebuild(disk, first[i].as_str()) {
            name(&mut main_first, first[i].as_str());
        }
        i += 1;
    }
    proof {
        assert(all.subrange(0, all.len() as int) =~= all);
    }
    let general: Vec<String> = waves::compile_main_sources_needing_rebuild(
        disk,
        &rest,
        &dependencies,
    );
    Ok(
        CompileMainPlan { main_first: main_first, general: general, dependencies: dependencies },
    )
}

/// The names that a program is looked up by. With `extensions`, a name without one
/// is tried with each of them; a dot is put before an extension that has none, and
/// names that agree but for case are tried once.
pub fn path_lookup_candidate_names_with(program: &str, extensions: Option<&Vec<String>>) -> (r: Vec<
    String,
>)
    ensures
        if paths::extension_of(program@) is Some {
            text::texts(r@) == seq![program@]
        } else {
            match extensions {
                None => text::texts(r@) == seq![program@],
                Some(v) => text::texts(r@) == candidates(program@, text::texts(v@)),
            }
        },
{
    if paths::extension(program).is_some() {
        return one_name(text::copy(program));
    }
    let v: &Vec<String> = match extensions {
        None => {
            return one_name(text::copy(program));
        },
        Some(v) => v,
    };
    let ghost all = text::texts(v@);
    let mut out: Vec<String> = no_names();
    let mut i: usize = 0;
    while i < v.len()
        invariant
            i <= v.len(),
            all == text::texts(v@),
            text::texts(out@) == candidates(program@, all.subrange(0, i as int)),
        decreases v.len() - i,
    {
        proof {
            assert(all[i as int] == v@[i as int]@);
            assert(all.subrange(0, i + 1).drop_last() =~= all.subrange(0, i as int));
        }
        let raw: Vec<char> = text::chars_of(v[i].as_str());
        let ext: &[char] = text::trim(trim_semicolons(raw.as_slice()));
        if ext.len() > 0 {
            let mut candidate: String = text::copy(program);
            if ext[0] != '.' {
                candidate.push('.');
            }
            candidate.append(text::string_of(ext).as_str());
            proof {
                reveal_strlit(".");
                assert("."@ =~= seq!['.']);
                assert(ext@.subrange(0, 1) =~= seq![ext@[0]]);
                if text::starts_with(ext@, "."@) {
                    assert(ext@.subrange(0, 1)[0] == '.');
                }
                assert(text::starts_with(ext@, "."@) == (ext@[0] == '.'));
                assert(candidate@ =~= candidate_name(program@, ext@));
            }
            if !has_ignoring_case(&out, candidate.as_str()) {
                name(&mut out, candidate.as_str());
            }
        }
        i += 1;
    }
    proof {
        assert(all.subrange(0, all.len() as int) =~= all);
    }
    out
}

/// `s` without the semicolons at its ends.
pub open spec fn without_semicolons(s: Seq<char>) -> Seq<char>
    decreases s.len(),
{
    if s.len() > 0 && s[0] == ';' {
        without_semicolons(s.subrange(1, s.len() as int))
    } else if s.len() > 0 && s.last() == ';' {
        without_semicolons(s.subrange(0, s.len() - 1))
    } else {
        s
    }
}

fn trim_semicolons(s: &[char]) -> (r: &[char])
    ensures
        r@ == without_semicolons(s@),
{
    let mut rest: &[char] = s;
    while rest.len() > 0 && (rest[0] == ';' || rest[rest.len() - 1] == ';')
        invariant
            without_semicolons(rest@) == without_semicolons(s@),
        decreases rest@.len(),
    {
        if rest[0] == ';' {
            rest = vstd::slice::slice_subrange(rest, 1, rest.len());
        } else {
            rest = vstd::slice::slice_subrange(rest, 0, rest.len() - 1);
        }
    }
    rest
}

pub open spec fn candidate_name(program: Seq<char>, ext: Seq<char>) -> Seq<char> {
    if text::starts_with(ext, "."@) {
        program + ext
    } else {
        program.push('.') + ext
    }
}

/// The list has a name that agrees with `s` but for case.
pub open spec fn listed_ignoring_case(v: Seq<Seq<char>>, s: Seq<char>) -> bool {
    exists|i: int|
        0 <= i < v.len() && crate::build_options::same_ignoring_case(#[trigger] v[i], s)
}

fn has_ignoring_case(v: &Vec<String>, s: &str) -> (r: bool)
    ensures
        r == listed_ignoring_case(text::texts(v@), s@),
{
    let ghost all = text::texts(v@);
    let mut i: usize = 0;
    while i < v.len()
        invariant
            i <= v.len(),
            all == text::texts(v@),
            forall|k: int|
                0 <= k < i ==> !crate::build_options::same_ignoring_case(#[trigger] all[k], s@),
        decreases v.len() - i,
    {
        proof {
            assert(all[i as int] == v@[i as int]@);
        }
        if crate::build_options::equal_ignoring_case(v[i].as_str(), s) {
            return true;
        }
        i += 1;
    }
    false
}

/// The names that a program is tried by, one for each extension.
pub open spec fn candidates(program: Seq<char>, extensions: Seq<Seq<char>>) -> Seq<Seq<char>>
    decreases extensions.len(),
{
    if extensions.len() == 0 {
        Seq::empty()
    } else {
        let before = candidates(program, extensions.drop_last());
        let ext = text::trimmed(without_semicolons(extensions.last()));
        if ext.len() == 0 || listed_ignoring_case(before, candidate_name(program, ext)) {
            before
        } else {
            before.push(candidate_name(program, ext))
        }
    }
}

/// The paths that are tried for a program: each directory in turn, and in each
/// directory each name.
pub open spec fn lookup_paths(
    dirs: Seq<Seq<char>>,
    names: Seq<Seq<char>>,
    cwd: Seq<char>,
) -> Seq<Seq<char>>
    decreases dirs.len(),
{
    if dirs.len() == 0 {
        Seq::empty()
    } else {
        lookup_paths(dirs.drop_last(), names, cwd) + lisp_tree::all_joined(
            paths::joined_path(cwd, dirs.last()),
            names,
        )
    }
}

/// The first path of `v` that is a file.
pub open spec fn first_file(disk: Disk, v: Seq<Seq<char>>) -> Option<Seq<char>>
    decreases v.len(),
{
    if v.len() == 0 {
        None
    } else {
        match first_file(disk, v.drop_last()) {
            Some(p) => Some(p),
            None => if disk.file_at(v.last()) {
                Some(v.last())
            } else {
                None
            },
        }
    }
}

/// The paths that are tried for a program.
pub fn program_lookup_paths(dirs: &Vec<String>, names: &Vec<String>, cwd: &str) -> (r: Vec<String>)
    ensures
        text::texts(r@) == lookup_paths(text::texts(dirs@), text::texts(names@), cwd@),
{
    let ghost all = text::texts(dirs@);
    let mut out: Vec<String> = no_names();
    let mut i: usize = 0;
    while i < dirs.len()
        invariant
            i <= dirs.len(),
            all == text::texts(dirs@),
            text::texts(out@) == lookup_paths(
                all.subrange(0, i as int),
                text::texts(names@),
                cwd@,
            ),
        decreases dirs.len() - i,
    {
        proof {
            assert(all[i as int] == dirs@[i as int]@);
            assert(all.subrange(0, i + 1).drop_last() =~= all.subrange(0, i as int));
        }
        let dir: String = paths::join(cwd, dirs[i].as_str());
        let mut more: Vec<String> = lisp_tree::join_all(dir.as_str(), names);
        let ghost a = out@;
        let ghost b = more@;
        out.append(&mut more);
        proof {
            assert(text::texts(out@) =~= text::texts(a) + text::texts(b));
        }
        i += 1;
    }
    proof {
        assert(all.subrange(0, all.len() as int) =~= all);
    }
    out
}

/// The file that a program's name stands for: the first of the paths that is one.
/// `dirs` are the directories of the search path, where one is set.
pub fn resolve_program_on_path(
    disk: &Disk,
    names: &Vec<String>,
    dirs: Option<&Vec<String>>,
    cwd: &str,
) -> (r: Option<String>)
    ensures
        match dirs {
            None => r is None,
            Some(d) => match first_file(
                *disk,
                lookup_paths(text::texts(d@), text::texts(names@), cwd@),
            ) {
                None => r is None,
                Some(p) => r matches Some(q) && q@ == p,
            },
        },
{
    let d: &Vec<String> = match dirs {
        Some(d) => d,
        None => {
            return None;
        },
    };
    let tried: Vec<String> = program_lookup_paths(d, names, cwd);
    let ghost all = text::texts(tried@);
    let mut i: usize = 0;
    while i < tried.len()
        invariant
            i <= tried.len(),
            all == text::texts(tried@),
            all == lookup_paths(text::texts(d@), text::texts(names@), cwd@),
            dirs == Some(d),
            first_file(*disk, all.subrange(0, i as int)) is None,
        decreases tried.len() - i,
    {
        proof {
            assert(all[i as int] == tried@[i as int]@);
            assert(all.subrange(0, i + 1).drop_last() =~= all.subrange(0, i as int));
        }
        if disk.is_file(tried[i].as_str()) {
            proof {
                lemma_first_file_stays(*disk, all, i + 1);
            }
            return Some(text::copy(tried[i].as_str()));
        }
        i += 1;
    }
    proof {
        assert(all.subrange(0, all.len() as int) =~= all);
    }
    None
}

proof fn lemma_first_file_stays(disk: Disk, v: Seq<Seq<char>>, n: int)
    requires
        0 <= n <= v.len(),
        first_file(disk, v.subrange(0, n)) is Some,
    ensures
        first_file(disk, v) == first_file(disk, v.subrange(0, n)),
    decreases v.len() - n,
{
    if n < v.len() {
        assert(v.subrange(0, n + 1).drop_last() =~= v.subrange(0, n));
        lemma_first_file_stays(disk, v, n + 1);
    } else {
        assert(v.subrange(0, n) =~= v);
    }
}

} // verus!
