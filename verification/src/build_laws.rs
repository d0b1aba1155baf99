//! What building is for: what is stale is made again, in an order in which it can be, and
//! nothing else.
use vstd::prelude::*;

use crate::disk;
use crate::disk::Disk;
use crate::lisp_jobs;
use crate::makefile;
use crate::makefile::{Rule, RuleModel};
use crate::paths;
use crate::paths::Collation;
use crate::text;
use crate::waves;

verus! {

/// The compiled form of a source is missing, or older than the source; or the source is
/// missing.
pub open spec fn is_behind(disk: Disk, source: Seq<char>) -> bool {
    let (s, e) = (
        disk.time_of(source),
        disk.time_of(paths::with_extension_of(source, "elc"@)),
    );
    s is None || e is None || s->0 > e->0
}

/// A source that may be compiled: it was compiled before, or its text does not refuse.
pub open spec fn may_be_compiled(disk: Disk, source: Seq<char>) -> bool {
    ||| disk.file_at(paths::with_extension_of(source, "elc"@))
    ||| disk.text_of(source) is None
    ||| !disk::has_marker(disk.text_of(source)->0)
}

/// Two paths with the same components.
pub open spec fn same(a: Seq<char>, b: Seq<char>) -> bool {
    paths::same_name(Collation::Path, a, b)
}

/// A rule says that a target is made from a dependency.
pub open spec fn is_rule(rule: RuleModel, target: Seq<char>, dep: Seq<char>) -> bool {
    &&& exists|i: int| 0 <= i < rule.targets.len() && same(#[trigger] rule.targets[i], target)
    &&& exists|i: int| 0 <= i < rule.deps.len() && same(#[trigger] rule.deps[i], dep)
}

/// Some rule says that a source waits for another.
pub open spec fn waits_for(rules: Seq<RuleModel>, source: Seq<char>, dep: Seq<char>) -> bool {
    exists|k: int| 0 <= k < rules.len() && is_rule(#[trigger] rules[k], source, dep)
}

proof fn lemma_waits_for(rules: Seq<RuleModel>, source: Seq<char>, dep: Seq<char>)
    ensures
        waits_for(rules, source, dep) == makefile::depends(rules, source, dep),
{
    if waits_for(rules, source, dep) {
        let k = choose|k: int| 0 <= k < rules.len() && is_rule(#[trigger] rules[k], source, dep);
        assert(paths::has_name(Collation::Path, rules[k].targets, source));
    }
    if makefile::depends(rules, source, dep) {
        let k = choose|k: int|
            0 <= k < rules.len() && paths::has_name(
                Collation::Path,
                (#[trigger] rules[k]).targets,
                source,
            ) && paths::has_name(Collation::Path, rules[k].deps, dep);
        assert(is_rule(rules[k], source, dep));
    }
}

/// What is picked out of a list is what is in it and fits.
pub proof fn lemma_filtered(v: Seq<Seq<char>>, p: spec_fn(Seq<char>) -> bool)
    ensures
        forall|i: int|
            0 <= i < v.len() ==> v.filter(p).contains(#[trigger] v[i]) == p(v[i]),
        forall|x: Seq<char>| #[trigger] v.filter(p).contains(x) ==> v.contains(x) && p(x),
    decreases v.len(),
{
    reveal(Seq::filter);
    if v.len() > 0 {
        let w = v.drop_last();
        lemma_filtered(w, p);
        let (fv, fw) = (v.filter(p), w.filter(p));
        assert forall|x: Seq<char>| #[trigger] fv.contains(x) implies v.contains(x) && p(x) by {
            let i = choose|i: int| 0 <= i < fv.len() && fv[i] == x;
            if i < fw.len() {
                assert(fw[i] == x);
                assert(fw.contains(x));
                let k = choose|k: int| 0 <= k < w.len() && w[k] == x;
                assert(v[k] == x);
            } else {
                assert(v[v.len() - 1] == x);
            }
        }
        assert forall|i: int| 0 <= i < v.len() implies fv.contains(#[trigger] v[i]) == p(v[i]) by {
            if i < w.len() {
                assert(w[i] == v[i]);
                if p(v[i]) {
                    assert(fw.contains(w[i]));
                    let k = choose|k: int| 0 <= k < fw.len() && fw[k] == v[i];
                    assert(fv[k] == v[i]);
                }
            } else if p(v[i]) {
                assert(fv[fv.len() - 1] == v[i]);
            }
        }
    }
}

proof fn lemma_filter_is_by_membership(v: Seq<Seq<char>>, p: spec_fn(Seq<char>) -> bool, all: Seq<Seq<char>>)
    requires
        forall|i: int| 0 <= i < v.len() ==> all.contains(#[trigger] v[i]) == p(v[i]),
    ensures
        v.filter(|s: Seq<char>| all.contains(s)) == v.filter(p),
    decreases v.len(),
{
    reveal(Seq::filter);
    if v.len() > 0 {
        let w = v.drop_last();
        assert forall|i: int| 0 <= i < w.len() implies all.contains(#[trigger] w[i]) == p(w[i]) by {
            assert(w[i] == v[i]);
        }
        lemma_filter_is_by_membership(w, p, all);
        assert(v.last() == v[v.len() - 1]);
    }
}

/// A rule is about a source.
pub open spec fn is_about(rule: RuleModel, source: Seq<char>) -> bool {
    exists|i: int| 0 <= i < rule.targets.len() && same(#[trigger] rule.targets[i], source)
}

/// What a source is made from was compiled after it, or is not compiled and has to be.
pub open spec fn is_newer(disk: Disk, dep: Seq<char>, made: u64) -> bool {
    match disk.time_of(paths::with_extension_of(dep, "elc"@)) {
        Some(t) => t > made,
        None => disk.file_at(dep) && may_be_compiled(disk, dep) && is_behind(disk, dep),
    }
}

/// A dependency that the rules write in one way only.
pub open spec fn is_spelled_once(rules: Seq<RuleModel>, dep: Seq<char>) -> bool {
    forall|k: int, j: int|
        0 <= k < rules.len() && 0 <= j < rules[k].deps.len() && same(
            #[trigger] rules[k].deps[j],
            dep,
        ) ==> rules[k].deps[j] == dep
}

/// The compiled form of a source is missing or overtaken, as some rule about it says.
pub open spec fn is_overtaken(disk: Disk, rules: Seq<RuleModel>, source: Seq<char>) -> bool {
    let made = disk.time_of(paths::with_extension_of(source, "elc"@));
    exists|k: int|
        0 <= k < rules.len() && is_about(#[trigger] rules[k], source) && (made is None || exists|
            j: int,
        |
            0 <= j < rules[k].deps.len() && is_newer(disk, #[trigger] rules[k].deps[j], made->0))
}

proof fn lemma_listed(rules: Seq<RuleModel>, source: Seq<char>, x: Seq<char>)
    ensures
        makefile::listed_dependencies(rules, source).contains(x) == exists|k: int, j: int|
            0 <= k < rules.len() && is_about(rules[k], source) && 0 <= j < rules[k].deps.len()
                && #[trigger] rules[k].deps[j] == x,
    decreases rules.len(),
{
    let all = makefile::listed_dependencies(rules, source);
    if rules.len() > 0 {
        let w = rules.drop_last();
        let before = makefile::listed_dependencies(w, source);
        lemma_listed(w, source, x);
        let last = rules.last();
        if all.contains(x) {
            let i = choose|i: int| 0 <= i < all.len() && all[i] == x;
            if i < before.len() {
                assert(before[i] == x);
                let (k, j) = choose|k: int, j: int|
                    0 <= k < w.len() && is_about(w[k], source) && 0 <= j < w[k].deps.len()
                        && #[trigger] w[k].deps[j] == x;
                assert(rules[k].deps[j] == x);
            } else {
                assert(rules[rules.len() - 1].deps[i - before.len()] == x);
            }
        }
        if exists|k: int, j: int|
            0 <= k < rules.len() && is_about(rules[k], source) && 0 <= j < rules[k].deps.len()
                && #[trigger] rules[k].deps[j] == x {
            let (k, j) = choose|k: int, j: int|
                0 <= k < rules.len() && is_about(rules[k], source) && 0 <= j < rules[k].deps.len()
                    && #[trigger] rules[k].deps[j] == x;
            if k < w.len() {
                assert(w[k].deps[j] == x);
                let i = choose|i: int| 0 <= i < before.len() && before[i] == x;
                assert(all[i] == x);
            } else {
                assert(all[before.len() + j] == x);
            }
        }
    }
}

proof fn lemma_overtaken(disk: Disk, rules: Seq<RuleModel>, source: Seq<char>)
    ensures
        waves::overtaken(disk, source, rules) ==> is_overtaken(disk, rules, source),
        forall|k: int|
            0 <= k < rules.len() && is_about(#[trigger] rules[k], source) && disk.time_of(
                paths::with_extension_of(source, "elc"@),
            ) is None ==> waves::overtaken(disk, source, rules),
        forall|k: int, j: int|
            0 <= k < rules.len() && is_about(rules[k], source) && 0 <= j < rules[k].deps.len()
                && is_spelled_once(rules, #[trigger] rules[k].deps[j]) && disk.time_of(
                paths::with_extension_of(source, "elc"@),
            ) is Some && is_newer(
                disk,
                rules[k].deps[j],
                disk.time_of(paths::with_extension_of(source, "elc"@))->0,
            ) ==> waves::overtaken(disk, source, rules),
{
    let made = disk.time_of(paths::with_extension_of(source, "elc"@));
    let listed = makefile::listed_dependencies(rules, source);
    let deps = paths::name_set(Collation::Path, listed);
    paths::law_name_set(Collation::Path, listed);
    if waves::overtaken(disk, source, rules) {
        if made is Some {
            let i = choose|i: int|
                0 <= i < deps.len() && waves::dependency_newer(
                    disk,
                    #[trigger] deps[i],
                    made->0,
                );
            assert(deps.contains(deps[i]));
            lemma_listed(rules, source, deps[i]);
            let (k, j) = choose|k: int, j: int|
                0 <= k < rules.len() && is_about(rules[k], source) && 0 <= j < rules[k].deps.len()
                    && #[trigger] rules[k].deps[j] == deps[i];
            assert(is_newer(disk, rules[k].deps[j], made->0));
        } else {
            let k = choose|k: int|
                0 <= k < rules.len() && paths::has_name(
                    Collation::Path,
                    (#[trigger] rules[k]).targets,
                    source,
                );
            assert(is_about(rules[k], source));
        }
    }
    assert forall|k: int|
        0 <= k < rules.len() && is_about(#[trigger] rules[k], source)
            && made is None implies waves::overtaken(disk, source, rules) by {
        assert(paths::has_name(Collation::Path, rules[k].targets, source));
    }
    assert forall|k: int, j: int|
        0 <= k < rules.len() && is_about(rules[k], source) && 0 <= j < rules[k].deps.len()
            && is_spelled_once(rules, #[trigger] rules[k].deps[j]) && made is Some && is_newer(
            disk,
            rules[k].deps[j],
            made->0,
        ) implies waves::overtaken(disk, source, rules) by {
        let d = rules[k].deps[j];
        lemma_listed(rules, source, d);
        let at = choose|at: int| 0 <= at < listed.len() && listed[at] == d;
        assert(same(listed[at], d));
        assert(paths::has_name(Collation::Path, listed, d));
        assert(paths::has_name(Collation::Path, deps, d));
        let i = choose|i: int|
            0 <= i < deps.len() && paths::same_name(Collation::Path, #[trigger] deps[i], d);
        assert(deps.contains(deps[i]));
        lemma_listed(rules, source, deps[i]);
        let (a, b) = choose|a: int, b: int|
            0 <= a < rules.len() && is_about(rules[a], source) && 0 <= b < rules[a].deps.len()
                && #[trigger] rules[a].deps[b] == deps[i];
        assert(deps[i] == d);
        assert(waves::dependency_newer(disk, deps[i], made->0));
        assert(paths::has_name(Collation::Path, rules[k].targets, source));
    }
}

/// The sources that a build compiles: every source that may be compiled and is not there in
/// a compiled form of its own age, whatever the rules are; every source that a rule is about
/// and whose compiled form is missing, or older than that of something that it is made from;
/// and every source that waits for one of those. They come in the order in which they were
/// given.
pub proof fn law_stale_sources_are_compiled(
    disk: &Disk,
    sources: &Vec<String>,
    rules: &Vec<Rule>,
    r: Vec<String>,
)
    requires
        call_ensures(
            waves::compile_main_sources_needing_rebuild,
            (disk, sources, rules),
            r,
        ),
    ensures
        ({
            let (all, out) = (text::texts(sources@), text::texts(r@));
            let m = makefile::rule_models(rules@);
            &&& forall|i: int|
                0 <= i < all.len() && may_be_compiled(*disk, #[trigger] all[i]) && is_behind(
                    *disk,
                    all[i],
                ) ==> out.contains(all[i])
            &&& forall|i: int, k: int|
                0 <= i < all.len() && 0 <= k < m.len() && is_about(
                    #[trigger] m[k],
                    #[trigger] all[i],
                ) && disk.time_of(paths::with_extension_of(all[i], "elc"@)) is None
                    ==> out.contains(all[i])
            &&& forall|i: int, k: int, j: int|
                0 <= i < all.len() && 0 <= k < m.len() && is_about(m[k], #[trigger] all[i]) && 0
                    <= j < m[k].deps.len() && is_spelled_once(m, #[trigger] m[k].deps[j])
                    && disk.time_of(paths::with_extension_of(all[i], "elc"@)) is Some && is_newer(
                    *disk,
                    m[k].deps[j],
                    disk.time_of(paths::with_extension_of(all[i], "elc"@))->0,
                ) ==> out.contains(all[i])
            &&& forall|i: int, j: int|
                0 <= i < all.len() && 0 <= j < all.len() && waits_for(
                    m,
                    #[trigger] all[i],
                    #[trigger] all[j],
                ) && out.contains(all[j]) ==> out.contains(all[i])
            &&& out == all.filter(|s: Seq<char>| out.contains(s))
        }),
{
    let (all, out) = (text::texts(sources@), text::texts(r@));
    let m = makefile::rule_models(rules@);
    let p = |s: Seq<char>| waves::initially_stale(*disk, m, s);
    let initial = all.filter(p);
    let q = |s: Seq<char>| waves::rebuilt(all, m, initial, s);
    lemma_filtered(all, p);
    lemma_filtered(all, q);
    lemma_filter_is_by_membership(all, q, out);
    assert forall|i: int| 0 <= i < all.len() && p(all[i]) implies out.contains(
        #[trigger] all[i],
    ) by {
        assert(initial.contains(all[i]));
        let k = choose|k: int| 0 <= k < initial.len() && initial[k] == all[i];
        assert(paths::same_name(Collation::Path, initial[k], all[i]));
        assert(paths::has_name(Collation::Path, initial, all[i]));
        assert(waves::rebuilt_within(all, m, initial, all[i], 0));
        assert(q(all[i]));
    }
    assert forall|i: int, k: int|
        0 <= i < all.len() && 0 <= k < m.len() && is_about(#[trigger] m[k], #[trigger] all[i])
            && disk.time_of(paths::with_extension_of(all[i], "elc"@)) is None implies out.contains(
        all[i],
    ) by {
        lemma_overtaken(*disk, m, all[i]);
        assert(p(all[i]));
    }
    assert forall|i: int, k: int, j: int|
        0 <= i < all.len() && 0 <= k < m.len() && is_about(m[k], #[trigger] all[i]) && 0 <= j
            < m[k].deps.len() && is_spelled_once(m, #[trigger] m[k].deps[j]) && disk.time_of(
            paths::with_extension_of(all[i], "elc"@),
        ) is Some && is_newer(
            *disk,
            m[k].deps[j],
            disk.time_of(paths::with_extension_of(all[i], "elc"@))->0,
        ) implies out.contains(all[i]) by {
        lemma_overtaken(*disk, m, all[i]);
        assert(p(all[i]));
    }
    assert forall|i: int, j: int|
        0 <= i < all.len() && 0 <= j < all.len() && waits_for(
            m,
            #[trigger] all[i],
            #[trigger] all[j],
        ) && out.contains(all[j]) implies out.contains(all[i]) by {
        lemma_waits_for(m, all[i], all[j]);
        assert(q(all[j]));
        waves::law_rebuild_spreads(all, m, initial, i, j);
        assert(q(all[i]));
    }
}

/// A build compiles nothing else: whatever holds of every source that has to be compiled on
/// its own account, and of every source that waits for one of which it holds, holds of all
/// that is compiled. So where no source is behind or overtaken, nothing is compiled.
pub proof fn law_nothing_else_is_compiled(
    disk: &Disk,
    sources: &Vec<String>,
    rules: &Vec<Rule>,
    r: Vec<String>,
    holds: spec_fn(Seq<char>) -> bool,
)
    requires
        call_ensures(
            waves::compile_main_sources_needing_rebuild,
            (disk, sources, rules),
            r,
        ),
        forall|a: Seq<char>, b: Seq<char>| #[trigger] same(a, b) && holds(a) ==> holds(b),
        ({
            let all = text::texts(sources@);
            let m = makefile::rule_models(rules@);
            &&& forall|i: int|
                0 <= i < all.len() && ((may_be_compiled(*disk, #[trigger] all[i]) && is_behind(
                    *disk,
                    all[i],
                )) || is_overtaken(*disk, m, all[i])) ==> holds(all[i])
            &&& forall|i: int, j: int|
                0 <= i < all.len() && 0 <= j < all.len() && waits_for(
                    m,
                    #[trigger] all[i],
                    #[trigger] all[j],
                ) && holds(all[j]) ==> holds(all[i])
        }),
    ensures
        forall|i: int|
            0 <= i < r@.len() ==> holds(#[trigger] text::texts(r@)[i]) && text::texts(
                sources@,
            ).contains(text::texts(r@)[i]),
{
    let (all, out) = (text::texts(sources@), text::texts(r@));
    let m = makefile::rule_models(rules@);
    let p = |s: Seq<char>| waves::initially_stale(*disk, m, s);
    let initial = all.filter(p);
    let q = |s: Seq<char>| waves::rebuilt(all, m, initial, s);
    lemma_filtered(all, p);
    lemma_filtered(all, q);
    assert forall|i: int| 0 <= i < initial.len() implies holds(#[trigger] initial[i]) by {
        assert(initial.contains(initial[i]));
        let k = choose|k: int| 0 <= k < all.len() && all[k] == initial[i];
        lemma_overtaken(*disk, m, all[k]);
        assert(p(all[k]));
    }
    assert forall|i: int| 0 <= i < r@.len() implies holds(#[trigger] out[i]) && all.contains(
        out[i],
    ) by {
        assert(out.contains(out[i]));
        assert(q(out[i]));
        let n = choose|n: nat| waves::rebuilt_within(all, m, initial, out[i], n);
        lemma_rebuilt_holds(all, m, initial, out[i], n, holds);
    }
}

proof fn lemma_rebuilt_holds(
    all: Seq<Seq<char>>,
    m: Seq<RuleModel>,
    initial: Seq<Seq<char>>,
    s: Seq<char>,
    n: nat,
    holds: spec_fn(Seq<char>) -> bool,
)
    requires
        waves::rebuilt_within(all, m, initial, s, n),
        forall|a: Seq<char>, b: Seq<char>| #[trigger] same(a, b) && holds(a) ==> holds(b),
        forall|i: int| 0 <= i < initial.len() ==> holds(#[trigger] initial[i]),
        forall|i: int, j: int|
            0 <= i < all.len() && 0 <= j < all.len() && waits_for(
                m,
                #[trigger] all[i],
                #[trigger] all[j],
            ) && holds(all[j]) ==> holds(all[i]),
    ensures
        holds(s),
    decreases n,
{
    if paths::has_name(Collation::Path, initial, s) {
        let i = choose|i: int|
            0 <= i < initial.len() && paths::same_name(Collation::Path, #[trigger] initial[i], s);
        assert(same(initial[i], s));
    } else {
        let j = choose|j: int|
            0 <= j < all.len() && makefile::depends(m, s, #[trigger] all[j])
                && waves::rebuilt_within(all, m, initial, all[j], (n - 1) as nat);
        lemma_rebuilt_holds(all, m, initial, all[j], (n - 1) as nat, holds);
        let i = choose|i: int|
            0 <= i < all.len() && paths::same_name(Collation::Path, #[trigger] all[i], s);
        lemma_waits_for(m, s, all[j]);
        let k = choose|k: int| 0 <= k < m.len() && is_rule(#[trigger] m[k], s, all[j]);
        let t = choose|t: int| 0 <= t < m[k].targets.len() && same(#[trigger] m[k].targets[t], s);
        assert(same(m[k].targets[t], all[i]));
        assert(is_rule(m[k], all[i], all[j]));
        assert(waits_for(m, all[i], all[j]));
        assert(same(all[i], s));
    }
}

/// Waves in which sources are compiled: every source is in one, up to how its path is
/// written, and nothing else is; no wave is empty; and a source waits for nothing of its own
/// wave or of a later one.
pub proof fn law_waves_come_in_order(
    sources: &Vec<String>,
    rules: &Vec<Rule>,
    r: Result<Vec<Vec<String>>, String>,
)
    requires
        call_ensures(waves::compile_main_dependency_waves, (sources, rules), r),
        r is Ok,
    ensures
        ({
            let v = (r->Ok_0)@;
            let m = makefile::rule_models(rules@);
            &&& forall|i: int| 0 <= i < v.len() ==> (#[trigger] v[i])@.len() > 0
            &&& forall|i: int, j: int, a: int, b: int|
                0 <= i <= j < v.len() && 0 <= a < v[i]@.len() && 0 <= b < v[j]@.len()
                    ==> !waits_for(m, #[trigger] v[i]@[a]@, #[trigger] v[j]@[b]@)
            &&& forall|k: int|
                0 <= k < sources@.len() ==> exists|i: int, a: int|
                    0 <= i < v.len() && 0 <= a < v[i]@.len() && same(
                        #[trigger] v[i]@[a]@,
                        #[trigger] sources@[k]@,
                    )
            &&& forall|i: int, a: int|
                0 <= i < v.len() && 0 <= a < v[i]@.len() ==> exists|k: int|
                    0 <= k < sources@.len() && #[trigger] sources@[k]@ == #[trigger] v[i]@[a]@
        }),
{
    broadcast use vstd::seq_lib::group_to_multiset_ensures;

    let v = (r->Ok_0)@;
    let m = makefile::rule_models(rules@);
    let all = text::texts(sources@);
    let pending = paths::name_set(Collation::Path, all);
    let w = lisp_jobs::text_lists(v);
    paths::law_name_set(Collation::Path, all);
    waves::law_waves(m, pending);
    let flat = lisp_jobs::flattened(w);
    assert forall|i: int| 0 <= i < v.len() implies (#[trigger] v[i])@.len() > 0 by {
        assert(w[i].len() > 0);
    }
    assert forall|i: int, j: int, a: int, b: int|
        0 <= i <= j < v.len() && 0 <= a < v[i]@.len() && 0 <= b < v[j]@.len() implies !waits_for(
        m,
        #[trigger] v[i]@[a]@,
        #[trigger] v[j]@[b]@,
    ) by {
        assert(w[i][a] == v[i]@[a]@ && w[j][b] == v[j]@[b]@);
        lemma_waits_for(m, w[i][a], w[j][b]);
        assert(!makefile::depends(m, w[i][a], w[j][b]));
    }
    assert forall|k: int| 0 <= k < sources@.len() implies exists|i: int, a: int|
        0 <= i < v.len() && 0 <= a < v[i]@.len() && same(
            #[trigger] v[i]@[a]@,
            #[trigger] sources@[k]@,
        ) by {
        let s = sources@[k]@;
        assert(all[k] == s);
        assert(same(all[k], s));
        assert(paths::has_name(Collation::Path, all, s));
        assert(paths::has_name(Collation::Path, pending, s));
        let p = choose|p: int|
            0 <= p < pending.len() && paths::same_name(Collation::Path, #[trigger] pending[p], s);
        let x = pending[p];
        assert(pending.contains(x));
        assert(pending.to_multiset().count(x) > 0);
        assert(flat.to_multiset().count(x) > 0);
        assert(flat.contains(x));
        lemma_flattened(w, x);
        let (i, a) = choose|i: int, a: int|
            0 <= i < w.len() && 0 <= a < w[i].len() && #[trigger] w[i][a] == x;
        assert(v[i]@[a]@ == x);
        assert(same(v[i]@[a]@, sources@[k]@));
    }
    assert forall|i: int, a: int| 0 <= i < v.len() && 0 <= a < v[i]@.len() implies exists|k: int|
        0 <= k < sources@.len() && #[trigger] sources@[k]@ == #[trigger] v[i]@[a]@ by {
        let x = v[i]@[a]@;
        assert(w[i][a] == x);
        lemma_flattened(w, x);
        assert(flat.to_multiset().count(x) > 0);
        assert(pending.to_multiset().count(x) > 0);
        assert(pending.contains(x));
        assert(all.contains(x));
        let k = choose|k: int| 0 <= k < all.len() && all[k] == x;
        assert(sources@[k]@ == x);
    }
}

proof fn lemma_flattened(w: Seq<Seq<Seq<char>>>, x: Seq<char>)
    ensures
        lisp_jobs::flattened(w).contains(x) <==> exists|i: int, a: int|
            0 <= i < w.len() && 0 <= a < w[i].len() && #[trigger] w[i][a] == x,
    decreases w.len(),
{
    if w.len() > 0 {
        let t = w.subrange(1, w.len() as int);
        lemma_flattened(t, x);
        let (all, rest) = (lisp_jobs::flattened(w), lisp_jobs::flattened(t));
        let n = w[0].len() as int;
        if all.contains(x) {
            let k = choose|k: int| 0 <= k < all.len() && all[k] == x;
            if k < n {
                assert(w[0][k] == x);
            } else {
                assert(rest[k - n] == x);
                assert(rest.contains(x));
                let (i, a) = choose|i: int, a: int|
                    0 <= i < t.len() && 0 <= a < t[i].len() && #[trigger] t[i][a] == x;
                assert(w[i + 1][a] == x);
            }
        }
        if exists|i: int, a: int|
            0 <= i < w.len() && 0 <= a < w[i].len() && #[trigger] w[i][a] == x {
            let (i, a) = choose|i: int, a: int|
                0 <= i < w.len() && 0 <= a < w[i].len() && #[trigger] w[i][a] == x;
            if i == 0 {
                assert(all[a] == x);
            } else {
                assert(t[i - 1][a] == x);
                let k = choose|k: int| 0 <= k < rest.len() && rest[k] == x;
                assert(all[n + k] == x);
            }
        }
    }
}

/// A source of its own is compiled where it may be and is behind.
pub proof fn law_source_is_behind(
    disk: &Disk,
    source: &str,
    r: bool,
    first: bool,
    consider: Option<bool>,
    main: bool,
)
    requires
        call_ensures(disk::bytecode_needs_rebuild, (disk, source), r),
        call_ensures(disk::compile_first_needs_rebuild, (disk, source), first),
        call_ensures(disk::compile_main_should_consider, (disk, source), consider),
        call_ensures(disk::compile_main_needs_rebuild, (disk, source), main),
    ensures
        r == is_behind(*disk, source@),
        first == r,
        consider is Some ==> consider->0 == may_be_compiled(*disk, source@),
        main == (may_be_compiled(*disk, source@) && is_behind(*disk, source@)),
{
}

/// The same with what a source is made from: it is behind where it is itself, where one of
/// those is, and where one of those was compiled after it.
pub proof fn law_source_is_behind_its_dependencies(
    disk: &Disk,
    source: &str,
    deps: &Vec<String>,
    r: bool,
)
    requires
        call_ensures(
            disk::bytecode_needs_rebuild_with_dependencies,
            (disk, source, deps),
            r,
        ),
    ensures
        is_behind(*disk, source@) ==> r,
        forall|i: int|
            0 <= i < deps@.len() && is_behind(*disk, #[trigger] deps@[i]@) ==> r,
        forall|i: int|
            0 <= i < deps@.len() && disk.time_of(
                paths::with_extension_of(#[trigger] deps@[i]@, "elc"@),
            ) is Some && disk.time_of(paths::with_extension_of(source@, "elc"@)) is Some
                && disk.time_of(paths::with_extension_of(deps@[i]@, "elc"@))->0 > disk.time_of(
                paths::with_extension_of(source@, "elc"@),
            )->0 ==> r,
        deps@.len() == 0 ==> r == is_behind(*disk, source@),
{
    let v = text::texts(deps@);
    assert forall|i: int| 0 <= i < deps@.len() implies #[trigger] v[i] == deps@[i]@ by {}
    assert forall|i: int| 0 <= i < deps@.len() && is_behind(
        *disk,
        #[trigger] deps@[i]@,
    ) implies r by {
        assert(disk::bytecode_stale(*disk, v[i]));
    }
    assert forall|i: int|
        0 <= i < deps@.len() && disk.time_of(
            paths::with_extension_of(#[trigger] deps@[i]@, "elc"@),
        ) is Some && disk.time_of(paths::with_extension_of(source@, "elc"@)) is Some
            && disk.time_of(paths::with_extension_of(deps@[i]@, "elc"@))->0 > disk.time_of(
            paths::with_extension_of(source@, "elc"@),
        )->0 implies r by {
        assert(disk::compiled_later(*disk, v[i], source@));
    }
}

/// What refuses to be compiled: a text with a line that begins with a semicolon and says
/// `no-byte-compile: t`, not as the end of another word. One such line is enough.
pub proof fn law_text_refuses(line: &str, r: bool, i: int)
    requires
        call_ensures(disk::gnu_no_byte_compile_marker_line, (line,), r),
    ensures
        line@.len() == 0 || line@[0] != ';' ==> !r,
        line@.len() > 0 && line@[0] == ';' && 0 < i && text::occurs_at(
            line@,
            "no-byte-compile: t"@,
            i,
        ) && !('a' <= line@[i - 1] <= 'z') && !('A' <= line@[i - 1] <= 'Z') ==> r,
        !text::contains(line@, "no-byte-compile:"@) ==> !r,
{
    reveal_strlit(";");
    reveal_strlit("t");
    reveal_strlit("no-byte-compile: t");
    reveal_strlit("no-byte-compile:");
    let s = line@;
    if s.len() > 0 && s[0] == ';' {
        assert(s.subrange(0, 1) =~= ";"@);
    }
    if s.len() > 0 && text::starts_with(s, ";"@) {
        assert(s.subrange(0, 1)[0] == s[0]);
    }
    if s.len() > 0 && s[0] == ';' && 0 < i && text::occurs_at(s, "no-byte-compile: t"@, i) && !('a'
        <= s[i - 1] <= 'z') && !('A' <= s[i - 1] <= 'Z') {
        let whole = s.subrange(i, i + 18);
        assert(whole == "no-byte-compile: t"@);
        assert(s.subrange(i, i + 16) =~= whole.subrange(0, 16));
        assert("no-byte-compile: t"@.subrange(0, 16) =~= "no-byte-compile:"@);
        let rest = s.subrange(i + 16, s.len() as int);
        assert(rest[0] == whole[16]);
        assert(rest[1] == whole[17]);
        assert(rest[0] == ' ' && rest[1] == 't');
        let tail = rest.subrange(1, rest.len() as int);
        reveal_with_fuel(text::trimmed_start, 3);
        assert(tail[0] == 't');
        assert(text::trimmed_start(rest) == tail);
        assert(tail.subrange(0, 1) =~= "t"@);
        assert(disk::marker_at(s, i));
    }
    if r {
        let k = choose|k: int| #[trigger] disk::marker_at(s, k);
        assert(text::occurs_at(s, "no-byte-compile:"@, k));
    }
}

} // verus!
