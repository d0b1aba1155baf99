//! What planning is for: what is behind is made, once, in order, and what is there already is
//! left alone.
use vstd::prelude::*;

use crate::build_laws;
use crate::disk;
use crate::disk::Disk;
use crate::generation;
use crate::generation::{
    AwkJob, AwkStep, CompileMainError, CompileMainPlan, GrammarStep, UnidataAction, UnidataPlan,
    UnidataStep,
};
use crate::lisp_jobs::PipelinePaths;
use crate::lisp_tree;
use crate::lisp_tree::{DirListing, SemanticGrammarJob};
use crate::makefile;
use crate::paths;
use crate::paths::Collation;
use crate::pipeline;
use crate::pipeline::GeneratedLispJob;
use crate::text;

verus! {

/// A name is among others, however it is written.
pub open spec fn is_among(v: Seq<Seq<char>>, s: Seq<char>) -> bool {
    exists|i: int| 0 <= i < v.len() && build_laws::same(#[trigger] v[i], s)
}

proof fn lemma_unseen(seen: Seq<Seq<char>>, v: Seq<Seq<char>>)
    ensures
        ({
            let out = generation::unseen(seen, v);
            &&& forall|i: int|
                0 <= i < out.len() ==> v.contains(#[trigger] out[i]) && !is_among(seen, out[i])
            &&& forall|i: int, j: int|
                0 <= i < j < out.len() ==> !build_laws::same(#[trigger] out[i], #[trigger] out[j])
            &&& forall|k: int|
                0 <= k < v.len() && !is_among(seen, #[trigger] v[k]) ==> is_among(out, v[k])
        }),
    decreases v.len(),
{
    let out = generation::unseen(seen, v);
    if v.len() > 0 {
        let w = v.drop_last();
        lemma_unseen(seen, w);
        let before = generation::unseen(seen, w);
        assert forall|i: int| 0 <= i < out.len() implies v.contains(#[trigger] out[i]) && !is_among(
            seen,
            out[i],
        ) by {
            if i < before.len() {
                assert(out[i] == before[i]);
                let k = choose|k: int| 0 <= k < w.len() && w[k] == before[i];
                assert(v[k] == out[i]);
            } else {
                assert(v[v.len() - 1] == out[i]);
                if is_among(seen, out[i]) {
                    assert(paths::has_name(Collation::Path, seen, v.last()));
                }
            }
        }
        assert forall|i: int, j: int| 0 <= i < j < out.len() implies !build_laws::same(
            #[trigger] out[i],
            #[trigger] out[j],
        ) by {
            assert(out[i] == before[i]);
            if j < before.len() {
                assert(out[j] == before[j]);
            } else if build_laws::same(out[i], out[j]) {
                assert(paths::same_name(Collation::Path, before[i], v.last()));
                assert(paths::has_name(Collation::Path, before, v.last()));
            }
        }
        assert forall|k: int| 0 <= k < v.len() && !is_among(seen, #[trigger] v[k]) implies is_among(
            out,
            v[k],
        ) by {
            if k < w.len() {
                assert(w[k] == v[k]);
                let i = choose|i: int|
                    0 <= i < before.len() && build_laws::same(#[trigger] before[i], v[k]);
                assert(build_laws::same(out[i], v[k]));
            } else {
                if paths::has_name(Collation::Path, seen, v.last()) {
                    let i = choose|i: int|
                        0 <= i < seen.len() && paths::same_name(
                            Collation::Path,
                            #[trigger] seen[i],
                            v.last(),
                        );
                    assert(build_laws::same(seen[i], v[k]));
                } else if paths::has_name(Collation::Path, before, v.last()) {
                    let i = choose|i: int|
                        0 <= i < before.len() && paths::same_name(
                            Collation::Path,
                            #[trigger] before[i],
                            v.last(),
                        );
                    assert(build_laws::same(out[i], v[k]));
                } else {
                    assert(build_laws::same(out[before.len() as int], v[k]));
                }
            }
        }
    }
}

proof fn lemma_first_absent(disk: Disk, seen: Seq<Seq<char>>, v: Seq<Seq<char>>)
    ensures
        generation::first_absent(disk, seen, v) is None <==> forall|k: int|
            0 <= k < v.len() && !is_among(seen, #[trigger] v[k]) ==> disk.file_at(v[k]),
    decreases v.len(),
{
    if v.len() > 0 {
        let w = v.drop_last();
        lemma_first_absent(disk, seen, w);
        assert(paths::has_name(Collation::Path, seen, v.last()) == is_among(seen, v.last())) by {
            if is_among(seen, v.last()) {
                let i = choose|i: int|
                    0 <= i < seen.len() && build_laws::same(#[trigger] seen[i], v.last());
                assert(paths::same_name(Collation::Path, seen[i], v.last()));
            }
            if paths::has_name(Collation::Path, seen, v.last()) {
                let i = choose|i: int|
                    0 <= i < seen.len() && paths::same_name(
                        Collation::Path,
                        #[trigger] seen[i],
                        v.last(),
                    );
                assert(build_laws::same(seen[i], v.last()));
            }
        }
        if generation::first_absent(disk, seen, v) is None {
            assert forall|k: int| 0 <= k < v.len() && !is_among(
                seen,
                #[trigger] v[k],
            ) implies disk.file_at(v[k]) by {
                if k < w.len() {
                    assert(w[k] == v[k]);
                }
            }
        } else if forall|k: int|
            0 <= k < v.len() && !is_among(seen, #[trigger] v[k]) ==> disk.file_at(v[k]) {
            assert forall|k: int| 0 <= k < w.len() && !is_among(
                seen,
                #[trigger] w[k],
            ) implies disk.file_at(w[k]) by {
                assert(v[k] == w[k]);
            }
            assert(v[v.len() - 1] == v.last());
        }
    }
}

/// Sources that are added: those that were not there, each once, and all of them have to be
/// files.
pub proof fn law_added_sources(
    disk: &Disk,
    seen: &Vec<String>,
    v: &Vec<String>,
    r: Result<Vec<String>, String>,
)
    requires
        call_ensures(generation::push_compile_main_sources, (disk, seen, v), r),
    ensures
        ({
            let (s, all) = (text::texts(seen@), text::texts(v@));
            &&& r is Ok <==> forall|k: int|
                0 <= k < all.len() && !is_among(s, #[trigger] all[k]) ==> disk.file_at(all[k])
            &&& r is Ok ==> {
                let out = text::texts((r->Ok_0)@);
                &&& forall|i: int|
                    0 <= i < out.len() ==> all.contains(#[trigger] out[i]) && !is_among(s, out[i])
                &&& forall|i: int, j: int|
                    0 <= i < j < out.len() ==> !build_laws::same(
                        #[trigger] out[i],
                        #[trigger] out[j],
                    )
                &&& forall|k: int|
                    0 <= k < all.len() && !is_among(s, #[trigger] all[k]) ==> is_among(out, all[k])
            }
        }),
{
    let (s, all) = (text::texts(seen@), text::texts(v@));
    lemma_unseen(s, all);
    lemma_first_absent(*disk, s, all);
    let fit = forall|k: int|
        0 <= k < all.len() && !is_among(s, #[trigger] all[k]) ==> disk.file_at(all[k]);
    if generation::first_absent(*disk, s, all) is None {
        assert(fit);
        assert(r is Ok);
        assert(text::texts((r->Ok_0)@) == generation::unseen(s, all));
    } else {
        assert(!fit);
        assert(r is Err);
    }
}

/// The main compilation: of what the makefile names to be first, all that may be compiled
/// and is behind, and nothing else; then the rest, which repeats none of it. Everything that
/// is to be first has to be there.
pub proof fn law_main_compilation_is_planned(
    disk: &Disk,
    makefile_in: &str,
    root: &str,
    listings: &Vec<DirListing>,
    r: Result<CompileMainPlan, CompileMainError>,
    listed: Vec<String>,
)
    requires
        call_ensures(
            generation::plan_compile_main,
            (disk, makefile_in, root, listings),
            r,
        ),
        call_ensures(makefile::parse_main_first_sources_from_str, (makefile_in, root), listed),
    ensures
        ({
            let all = text::texts(listed@);
            &&& (exists|k: int| 0 <= k < all.len() && !disk.file_at(#[trigger] all[k])) ==> r is Err
            &&& r is Ok ==> {
                let (first, rest) = (
                    text::texts(r->Ok_0.main_first@),
                    text::texts(r->Ok_0.general@),
                );
                &&& forall|i: int|
                    0 <= i < first.len() ==> all.contains(#[trigger] first[i])
                        && build_laws::may_be_compiled(*disk, first[i]) && build_laws::is_behind(
                        *disk,
                        first[i],
                    )
                &&& forall|k: int|
                    0 <= k < all.len() && (forall|m: int|
                        0 <= m < all.len() && build_laws::same(#[trigger] all[m], all[k]) ==> all[m]
                            == all[k]) && build_laws::may_be_compiled(*disk, #[trigger] all[k])
                        && build_laws::is_behind(*disk, all[k]) ==> first.contains(all[k])
                &&& forall|i: int, k: int|
                    0 <= i < rest.len() && 0 <= k < all.len() ==> !build_laws::same(
                        #[trigger] all[k],
                        #[trigger] rest[i],
                    )
            }
        }),
{
    let all = text::texts(listed@);
    let none = Seq::<Seq<char>>::empty();
    let first = generation::unseen(none, all);
    lemma_unseen(none, all);
    lemma_first_absent(*disk, none, all);
    if exists|k: int| 0 <= k < all.len() && !disk.file_at(#[trigger] all[k]) {
        let k = choose|k: int| 0 <= k < all.len() && !disk.file_at(#[trigger] all[k]);
        assert(!is_among(none, all[k]));
    }
    if r is Ok {
        let p = |s: Seq<char>| disk::compile_main_stale(*disk, s);
        build_laws::lemma_filtered(first, p);
        let out = text::texts(r->Ok_0.main_first@);
        assert forall|i: int| 0 <= i < out.len() implies all.contains(#[trigger] out[i])
            && build_laws::may_be_compiled(*disk, out[i]) && build_laws::is_behind(
            *disk,
            out[i],
        ) by {
            assert(first.filter(p).contains(out[i]));
            assert(first.contains(out[i]));
            let k = choose|k: int| 0 <= k < first.len() && first[k] == out[i];
            assert(all.contains(first[k]));
            assert(p(out[i]));
        }
        assert forall|k: int|
            0 <= k < all.len() && (forall|m: int|
                0 <= m < all.len() && build_laws::same(#[trigger] all[m], all[k]) ==> all[m]
                    == all[k]) && build_laws::may_be_compiled(*disk, #[trigger] all[k])
                && build_laws::is_behind(*disk, all[k]) implies out.contains(all[k]) by {
            assert(!is_among(none, all[k]));
            assert(is_among(first, all[k]));
            let i = choose|i: int|
                0 <= i < first.len() && build_laws::same(#[trigger] first[i], all[k]);
            assert(all.contains(first[i]));
            let m = choose|m: int| 0 <= m < all.len() && all[m] == first[i];
            assert(build_laws::same(all[m], all[k]));
            assert(p(first[i]));
            assert(first.filter(p).contains(first[i]));
        }
        let tree = lisp_tree::tree_sources(
            *disk,
            listings@,
            paths::in_order(Collation::Path, lisp_tree::listing_dirs(listings@)),
        )->0;
        let u = generation::unseen(first, tree);
        lemma_unseen(first, tree);
        let rules = makefile::rules_of(makefile_in@, root@);
        let initial = u.filter(
            |s: Seq<char>| crate::waves::initially_stale(*disk, rules, s),
        );
        let q = |s: Seq<char>| crate::waves::rebuilt(u, rules, initial, s);
        build_laws::lemma_filtered(u, q);
        let rest = text::texts(r->Ok_0.general@);
        assert forall|i: int, k: int|
            0 <= i < rest.len() && 0 <= k < all.len() implies !build_laws::same(
            #[trigger] all[k],
            #[trigger] rest[i],
        ) by {
            assert(u.filter(q).contains(rest[i]));
            assert(u.contains(rest[i]));
            let m = choose|m: int| 0 <= m < u.len() && u[m] == rest[i];
            assert(!is_among(first, u[m]));
            assert(!is_among(none, all[k]));
            assert(is_among(first, all[k]));
            let j = choose|j: int|
                0 <= j < first.len() && build_laws::same(#[trigger] first[j], all[k]);
            if build_laws::same(all[k], rest[i]) {
                assert(build_laws::same(first[j], u[m]));
            }
        }
    }
}

/// How late a step of the Unicode data comes.
pub open spec fn lateness(s: UnidataStep) -> int {
    match s {
        UnidataStep::MakeText => 10,
        UnidataStep::CompileGenerator => 20,
        UnidataStep::Properties => 30,
        UnidataStep::Index => 40,
        UnidataStep::Extras => 50,
        UnidataStep::Done => 60,
    }
}

proof fn lemma_next_due(disk: Disk, p: PipelinePaths, plan: UnidataPlan, from: UnidataStep)
    ensures
        ({
            let s = generation::next_due(disk, p, plan, from);
            &&& lateness(from) <= lateness(s)
            &&& s is Done || generation::unidata_due(disk, p, plan, s)
            &&& forall|t: UnidataStep|
                lateness(from) <= lateness(t) < lateness(s) ==> !#[trigger] generation::unidata_due(
                    disk,
                    p,
                    plan,
                    t,
                )
        }),
    decreases 60 - lateness(from),
{
    if !(from is Done) && !generation::unidata_due(disk, p, plan, from) {
        lemma_next_due(disk, p, plan, generation::following(from));
        let s = generation::next_due(disk, p, plan, from);
        assert forall|t: UnidataStep|
            lateness(from) <= lateness(t) < lateness(s) implies !#[trigger] generation::unidata_due(
            disk,
            p,
            plan,
            t,
        ) by {
            if t != from {
                assert(lateness(generation::following(from)) <= lateness(t));
            }
        }
    }
}

/// The steps that make the Unicode data come in order, and none is done without cause: where
/// nothing is planned, nothing is done; the index of properties is made where that was
/// planned. A step that went wrong ends it.
pub proof fn law_unicode_steps(
    disk: &Disk,
    p: &PipelinePaths,
    plan: &UnidataPlan,
    from: UnidataStep,
    errors: &Vec<String>,
    r: UnidataAction,
)
    requires
        call_ensures(
            generation::run_unidata_lisp_generation,
            (disk, p, plan, from, errors),
            r,
        ),
    ensures
        r is Fail <==> errors@.len() > 0,
        r is Run ==> lateness(from) <= lateness(r->Run_0) < 60,
        r is Run && r->Run_0 is Index ==> plan.charprop_needs_rebuild,
        r is Run && r->Run_0 is Properties ==> plan.unifiles_need_rebuild,
        r is Run ==> plan.unifiles_need_rebuild || plan.charprop_needs_rebuild
            || plan.extra_needs_rebuild,
        r is Finish && lateness(from) <= 40 ==> !plan.charprop_needs_rebuild,
        r is Run && lateness(from) <= 40 && lateness(r->Run_0) > 40
            ==> !plan.charprop_needs_rebuild,
        from is Done && errors@.len() == 0 ==> r is Finish,
{
    lemma_next_due(*disk, *p, *plan, from);
    let s = generation::next_due(*disk, *p, *plan, from);
    if lateness(from) <= 40 < lateness(s) {
        assert(!generation::unidata_due(*disk, *p, *plan, UnidataStep::Index));
    }
}

/// A file that a script makes: it is made where it is missing or behind, left alone where it
/// is not, and it is an error where an input is missing.
pub proof fn law_script_step(
    disk: &Disk,
    job: &AwkJob,
    r: AwkStep,
    deps: &Vec<String>,
    output: &str,
    behind: bool,
)
    requires
        call_ensures(generation::awk_step, (disk, job), r),
        text::texts(deps@) == seq![job.script@] + text::texts(job.inputs@),
        output@ == job.output@,
        call_ensures(disk::generated_file_needs_rebuild, (disk, output, deps), behind),
    ensures
        r is Fail <==> exists|i: int|
            0 <= i < deps@.len() && !disk.file_at(#[trigger] text::texts(deps@)[i]),
        !(r is Fail) ==> (r is Run <==> behind),
        !(r is Fail) ==> (r is Skip <==> !behind),
{
    lemma_first_non_file(*disk, text::texts(deps@));
}

proof fn lemma_first_non_file(disk: Disk, v: Seq<Seq<char>>)
    ensures
        disk::first_non_file(disk, v) is Some <==> exists|i: int|
            0 <= i < v.len() && !disk.file_at(#[trigger] v[i]),
    decreases v.len(),
{
    if v.len() > 0 && disk.file_at(v[0]) {
        let t = v.subrange(1, v.len() as int);
        lemma_first_non_file(disk, t);
        if exists|i: int| 0 <= i < v.len() && !disk.file_at(#[trigger] v[i]) {
            let i = choose|i: int| 0 <= i < v.len() && !disk.file_at(#[trigger] v[i]);
            assert(t[i - 1] == v[i]);
        }
        if exists|i: int| 0 <= i < t.len() && !disk.file_at(#[trigger] t[i]) {
            let i = choose|i: int| 0 <= i < t.len() && !disk.file_at(#[trigger] t[i]);
            assert(v[i + 1] == t[i]);
        }
    } else if v.len() > 0 {
        assert(!disk.file_at(v[0]));
    }
}

/// A parser is made from its grammar and from what makes it, in the same way.
pub proof fn law_grammar_step(
    disk: &Disk,
    target: &SemanticGrammarJob,
    r: GrammarStep,
    deps: &Vec<String>,
    output: &str,
    behind: bool,
)
    requires
        call_ensures(generation::semantic_grammar_step, (disk, target), r),
        text::texts(deps@) == seq![target.source@, target.grammar@],
        output@ == target.output@,
        call_ensures(disk::generated_file_needs_rebuild, (disk, output, deps), behind),
    ensures
        r is Fail <==> !disk.file_at(target.source@) || !disk.file_at(target.grammar@),
        !(r is Fail) ==> (r is Run <==> behind),
        !(r is Fail) ==> (r is Skip <==> !behind),
{
}

/// There is a job for each property file that is behind, which writes that file, and no
/// other.
pub proof fn law_property_jobs(
    disk: &Disk,
    p: &PipelinePaths,
    files: &Vec<String>,
    r: Vec<GeneratedLispJob>,
    deps: Vec<String>,
)
    requires
        call_ensures(generation::unidata_gen_file_jobs, (disk, p, files), r),
        call_ensures(generation::unifile_dependencies, (p,), deps),
    ensures
        ({
            let (all, d) = (text::texts(files@), text::texts(deps@));
            &&& forall|i: int|
                0 <= i < r@.len() ==> all.contains((#[trigger] r@[i]).output@) && disk::stale(
                    *disk,
                    r@[i].output@,
                    d,
                )
            &&& forall|k: int|
                0 <= k < all.len() && disk::stale(*disk, #[trigger] all[k], d) ==> exists|i: int|
                    0 <= i < r@.len() && (#[trigger] r@[i]).output@ == all[k]
        }),
{
    let (all, d) = (text::texts(files@), text::texts(deps@));
    let q = |f: Seq<char>| disk::stale(*disk, f, generation::unifile_inputs(*p));
    build_laws::lemma_filtered(all, q);
    let v = all.filter(q);
    let m = pipeline::job_models(r@);
    assert(m.len() == v.len());
    assert forall|i: int| 0 <= i < r@.len() implies all.contains((#[trigger] r@[i]).output@)
        && disk::stale(*disk, r@[i].output@, d) by {
        assert(m[i] == r@[i].model());
        assert(m[i].output == v[i]);
        assert(v.contains(v[i]));
    }
    assert forall|k: int| 0 <= k < all.len() && disk::stale(
        *disk,
        #[trigger] all[k],
        d,
    ) implies exists|i: int| 0 <= i < r@.len() && (#[trigger] r@[i]).output@ == all[k] by {
        assert(v.contains(all[k]));
        let i = choose|i: int| 0 <= i < v.len() && v[i] == all[k];
        assert(m[i] == r@[i].model());
        assert(m[i].output == v[i]);
    }
}

proof fn lemma_first_file(disk: Disk, v: Seq<Seq<char>>)
    ensures
        match generation::first_file(disk, v) {
            Some(p) => disk.file_at(p) && exists|i: int|
                0 <= i < v.len() && #[trigger] v[i] == p && forall|k: int|
                    0 <= k < i ==> !disk.file_at(#[trigger] v[k]),
            None => forall|k: int| 0 <= k < v.len() ==> !disk.file_at(#[trigger] v[k]),
        },
    decreases v.len(),
{
    if v.len() > 0 {
        let w = v.drop_last();
        lemma_first_file(disk, w);
        match generation::first_file(disk, w) {
            Some(p) => {
                let i = choose|i: int|
                    0 <= i < w.len() && #[trigger] w[i] == p && forall|k: int|
                        0 <= k < i ==> !disk.file_at(#[trigger] w[k]);
                assert(v[i] == p);
                assert forall|k: int| 0 <= k < i implies !disk.file_at(#[trigger] v[k]) by {
                    assert(w[k] == v[k]);
                }
            },
            None => {
                assert forall|k: int| 0 <= k < v.len() - 1 implies !disk.file_at(
                    #[trigger] v[k],
                ) by {
                    assert(w[k] == v[k]);
                }
                if disk.file_at(v.last()) {
                    assert(v[v.len() - 1] == v.last());
                }
            },
        }
    }
}

/// A program is the first file among the places that it is looked for at; it is not found
/// only where none of them is a file.
pub proof fn law_program_is_found(
    disk: &Disk,
    names: &Vec<String>,
    dirs: &Vec<String>,
    cwd: &str,
    r: Option<String>,
    places: Vec<String>,
)
    requires
        call_ensures(
            generation::resolve_program_on_path,
            (disk, names, Some(dirs), cwd),
            r,
        ),
        call_ensures(generation::program_lookup_paths, (dirs, names, cwd), places),
    ensures
        r is Some ==> disk.file_at((r->0)@),
        r is Some ==> exists|i: int|
            0 <= i < places@.len() && #[trigger] places@[i]@ == (r->0)@ && forall|k: int|
                0 <= k < i ==> !disk.file_at(#[trigger] places@[k]@),
        r is None ==> forall|k: int| 0 <= k < places@.len() ==> !disk.file_at(
            #[trigger] places@[k]@,
        ),
{
    let v = text::texts(places@);
    lemma_first_file(*disk, v);
    match generation::first_file(*disk, v) {
        Some(p) => {
            let i = choose|i: int|
                0 <= i < v.len() && #[trigger] v[i] == p && forall|k: int|
                    0 <= k < i ==> !disk.file_at(#[trigger] v[k]);
            assert(places@[i]@ == p);
            assert forall|k: int| 0 <= k < i implies !disk.file_at(#[trigger] places@[k]@) by {
                assert(v[k] == places@[k]@);
            }
        },
        None => {
            assert forall|k: int| 0 <= k < places@.len() implies !disk.file_at(
                #[trigger] places@[k]@,
            ) by {
                assert(v[k] == places@[k]@);
            }
        },
    }
}

/// A preload library is complete with its manifest.
pub proof fn law_preload_is_complete(disk: &Disk, dir: &str, r: Result<(), String>)
    requires
        call_ensures(generation::verify_aot_preload_artifacts, (disk, dir), r),
    ensures
        r is Ok <==> disk.present(paths::joined_path(dir@, "libneomacs-preload.so"@))
            && disk.present(paths::joined_path(dir@, "libneomacs-preload.manifest"@)),
{
}

/// Of the preloaded sources those are compiled that are behind; all of them in a dry run.
pub proof fn law_preloaded_sources(
    disk: &Disk,
    dry_run: bool,
    root: &str,
    sources: &Vec<String>,
    deps: &Vec<String>,
    r: Vec<String>,
)
    requires
        call_ensures(
            generation::preloaded_sources_to_compile,
            (disk, dry_run, root, sources, deps),
            r,
        ),
    ensures
        ({
            let (all, out) = (text::texts(sources@), text::texts(r@));
            &&& forall|i: int|
                0 <= i < all.len() && (dry_run || build_laws::is_behind(*disk, #[trigger] all[i]))
                    ==> out.contains(all[i])
            &&& forall|x: Seq<char>| #[trigger] out.contains(x) ==> all.contains(x)
            &&& forall|x: Seq<char>| #[trigger]
                out.contains(x) && !dry_run && deps@.len() == 0 ==> build_laws::is_behind(
                    *disk,
                    x,
                )
        }),
{
    let (all, out) = (text::texts(sources@), text::texts(r@));
    let q = |s: Seq<char>|
        generation::preloaded_due(
            *disk,
            dry_run,
            paths::joined_path(root@, "international/characters.el"@),
            text::texts(deps@),
            s,
        );
    build_laws::lemma_filtered(all, q);
    assert(out == all.filter(q));
    assert forall|i: int|
        0 <= i < all.len() && (dry_run || build_laws::is_behind(
            *disk,
            #[trigger] all[i],
        )) implies out.contains(all[i]) by {
        assert(q(all[i]));
    }
}

} // verus!
