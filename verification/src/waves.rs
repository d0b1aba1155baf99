//! In which order Lisp sources are compiled, and which of them have to be.
use vstd::prelude::*;
use vstd::string::StringExecFns;

use crate::disk::Disk;
use crate::disk;
use crate::lisp_jobs;
use crate::makefile::{Rule, RuleModel};
use crate::makefile;
use crate::paths::Collation;
use crate::paths;
use crate::text;

verus! {

/// Whether a rule makes `source` wait for `dep`.
pub fn source_depends(rules: &Vec<Rule>, source: &str, dep: &str) -> (r: bool)
    ensures
        r == makefile::depends(makefile::rule_models(rules@), source@, dep@),
{
    let ghost all = makefile::rule_models(rules@);
    let mut i: usize = 0;
    while i < rules.len()
        invariant
            i <= rules.len(),
            all == makefile::rule_models(rules@),
            forall|k: int|
                0 <= k < i ==> !(paths::has_name(
                    Collation::Path,
                    (#[trigger] all[k]).targets,
                    source@,
                ) && paths::has_name(Collation::Path, all[k].deps, dep@)),
        decreases rules.len() - i,
    {
        proof {
            assert(all[i as int] == rules@[i as int].model());
        }
        if paths::contains_name(Collation::Path, &rules[i].targets, source)
            && paths::contains_name(Collation::Path, &rules[i].deps, dep) {
            return true;
        }
        i += 1;
    }
    false
}

/// `s` waits for one of `pending`.
pub open spec fn blocked(rules: Seq<RuleModel>, pending: Seq<Seq<char>>, s: Seq<char>) -> bool {
    exists|i: int| 0 <= i < pending.len() && makefile::depends(rules, s, #[trigger] pending[i])
}

pub open spec fn ready(rules: Seq<RuleModel>, pending: Seq<Seq<char>>) -> Seq<Seq<char>> {
    pending.filter(|s: Seq<char>| !blocked(rules, pending, s))
}

pub open spec fn waiting(rules: Seq<RuleModel>, pending: Seq<Seq<char>>) -> Seq<Seq<char>> {
    pending.filter(|s: Seq<char>| blocked(rules, pending, s))
}

pub enum Waves {
    /// Lists of sources, each of which needs only what is in the lists before it.
    Done(Seq<Seq<Seq<char>>>),
    /// So many sources wait for each other.
    Stuck(nat),
}

pub open spec fn waves(rules: Seq<RuleModel>, pending: Seq<Seq<char>>) -> Waves
    decreases pending.len(),
    when pending.len() >= 0
    via waves_decreases
{
    if pending.len() == 0 {
        Waves::Done(Seq::empty())
    } else if ready(rules, pending).len() == 0 {
        Waves::Stuck(pending.len())
    } else {
        match waves(rules, waiting(rules, pending)) {
            Waves::Stuck(n) => Waves::Stuck(n),
            Waves::Done(w) => Waves::Done(seq![ready(rules, pending)] + w),
        }
    }
}

/// A list falls into what a test accepts and what it does not.
pub proof fn lemma_partition<A>(v: Seq<A>, p: spec_fn(A) -> bool, q: spec_fn(A) -> bool)
    requires
        forall|x: A| #[trigger] q(x) == !p(x),
    ensures
        v.filter(p).len() + v.filter(q).len() == v.len(),
        v.filter(p).to_multiset().add(v.filter(q).to_multiset()) == v.to_multiset(),
    decreases v.len(),
{
    broadcast use vstd::seq_lib::group_to_multiset_ensures;
    reveal(Seq::filter);
    if v.len() > 0 {
        let w = v.drop_last();
        let x = v.last();
        lemma_partition(w, p, q);
        assert(v =~= w.push(x));
        assert(q(x) == !p(x));
        assert(v.filter(p).to_multiset().add(v.filter(q).to_multiset()) =~= v.to_multiset());
    } else {
        assert(v.filter(p) =~= v);
        assert(v.filter(q) =~= v);
        assert(v.to_multiset() =~= vstd::multiset::Multiset::empty());
        assert(v.filter(p).to_multiset().add(v.filter(q).to_multiset()) =~= v.to_multiset());
    }
}

proof fn lemma_ready_waiting(rules: Seq<RuleModel>, pending: Seq<Seq<char>>)
    ensures
        ready(rules, pending).len() + waiting(rules, pending).len() == pending.len(),
        ready(rules, pending).to_multiset().add(waiting(rules, pending).to_multiset())
            == pending.to_multiset(),
{
    lemma_partition(
        pending,
        |s: Seq<char>| !blocked(rules, pending, s),
        |s: Seq<char>| blocked(rules, pending, s),
    );
}

#[via_fn]
proof fn waves_decreases(rules: Seq<RuleModel>, pending: Seq<Seq<char>>) {
    lemma_ready_waiting(rules, pending);
}

fn is_blocked(rules: &Vec<Rule>, pending: &Vec<String>, s: &str) -> (r: bool)
    ensures
        r == blocked(makefile::rule_models(rules@), text::texts(pending@), s@),
{
    let ghost all = text::texts(pending@);
    let mut i: usize = 0;
    while i < pending.len()
        invariant
            i <= pending.len(),
            all == text::texts(pending@),
            forall|k: int|
                0 <= k < i ==> !makefile::depends(
                    makefile::rule_models(rules@),
                    s@,
                    #[trigger] all[k],
                ),
        decreases pending.len() - i,
    {
        proof {
            assert(all[i as int] == pending@[i as int]@);
        }
        if source_depends(rules, s, pending[i].as_str()) {
            return true;
        }
        i += 1;
    }
    false
}

/// Cuts `sources` into waves that can each be compiled at once.
pub fn compile_main_dependency_waves(sources: &Vec<String>, dependencies: &Vec<Rule>) -> (r: Result<
    Vec<Vec<String>>,
    String,
>)
    ensures
        match waves(
            makefile::rule_models(dependencies@),
            paths::name_set(Collation::Path, text::texts(sources@)),
        ) {
            Waves::Done(w) => r matches Ok(v) && lisp_jobs::text_lists(v@) == w,
            Waves::Stuck(n) => r matches Err(e) && e@
                == "compile-main dependency cycle or missing wave among "@ + text::decimal(n)
                + " pending files"@,
        },
{
    let ghost rules = makefile::rule_models(dependencies@);
    let mut pending: Vec<String> = paths::name_set_of(Collation::Path, sources);
    let mut out: Vec<Vec<String>> = Vec::new();
    let ghost goal = waves(rules, text::texts(pending@));
    proof {
        assert(lisp_jobs::text_lists(out@) =~= Seq::empty());
        match goal {
            Waves::Done(w) => {
                assert(lisp_jobs::text_lists(out@) + w =~= w);
            },
            Waves::Stuck(n) => {},
        }
    }
    while pending.len() > 0
        invariant
            rules == makefile::rule_models(dependencies@),
            match waves(rules, text::texts(pending@)) {
                Waves::Done(w) => goal == Waves::Done(lisp_jobs::text_lists(out@) + w),
                Waves::Stuck(n) => goal == Waves::Stuck(n),
            },
            goal == waves(
                rules,
                paths::name_set(Collation::Path, text::texts(sources@)),
            ),
        decreases pending.len(),
    {
        let ghost all = text::texts(pending@);
        let ghost p = |s: Seq<char>| !blocked(rules, all, s);
        let ghost q = |s: Seq<char>| blocked(rules, all, s);
        let mut now: Vec<String> = Vec::new();
        let mut rest: Vec<String> = Vec::new();
        let mut i: usize = 0;
        proof {
            reveal(Seq::filter);
            assert(text::texts(now@) =~= all.subrange(0, 0).filter(p));
            assert(text::texts(rest@) =~= all.subrange(0, 0).filter(q));
            lemma_ready_waiting(rules, all);
        }
        while i < pending.len()
            invariant
                i <= pending.len(),
                rules == makefile::rule_models(dependencies@),
                all == text::texts(pending@),
                p == |s: Seq<char>| !blocked(rules, all, s),
                q == |s: Seq<char>| blocked(rules, all, s),
                text::texts(now@) == all.subrange(0, i as int).filter(p),
                text::texts(rest@) == all.subrange(0, i as int).filter(q),
            decreases pending.len() - i,
        {
            proof {
                assert(all[i as int] == pending@[i as int]@);
                paths::lemma_filter_step(all, i as int, p);
                paths::lemma_filter_step(all, i as int, q);
            }
            let s: String = text::copy(pending[i].as_str());
            if is_blocked(dependencies, &pending, s.as_str()) {
                proof {
                    text::lemma_texts_push(rest@, s);
                }
                rest.push(s);
            } else {
                proof {
                    text::lemma_texts_push(now@, s);
                }
                now.push(s);
            }
            i += 1;
        }
        proof {
            assert(all.subrange(0, all.len() as int) =~= all);
            assert(text::texts(now@) == ready(rules, all));
            assert(text::texts(rest@) == waiting(rules, all));
        }
        if now.len() == 0 {
            let mut message: String = text::copy(
                "compile-main dependency cycle or missing wave among ",
            );
            message.append(text::decimal_text(pending.len() as u64).as_str());
            message.append(" pending files");
            return Err(message);
        }
        let ghost done = lisp_jobs::text_lists(out@);
        out.push(now);
        proof {
            let wave = ready(rules, all);
            assert(lisp_jobs::text_lists(out@) =~= done.push(wave));
            match waves(rules, waiting(rules, all)) {
                Waves::Done(w) => {
                    assert(done + (seq![wave] + w) =~= done.push(wave) + w);
                },
                Waves::Stuck(n) => {},
            }
        }
        pending = rest;
    }
    proof {
        assert(text::texts(pending@).len() == 0);
        assert(lisp_jobs::text_lists(out@) + Seq::<Seq<Seq<char>>>::empty()
            =~= lisp_jobs::text_lists(out@));
    }
    Ok(out)
}

/// No source of a wave depends on a source of its own or of a later wave.
pub open spec fn respects(rules: Seq<RuleModel>, w: Seq<Seq<Seq<char>>>) -> bool {
    forall|i: int, j: int, a: int, b: int|
        0 <= i <= j < w.len() && 0 <= a < w[i].len() && 0 <= b < w[j].len()
            ==> !makefile::depends(rules, #[trigger] w[i][a], #[trigger] w[j][b])
}

proof fn lemma_member_pending(v: Seq<Seq<char>>, p: spec_fn(Seq<char>) -> bool, i: int)
    requires
        0 <= i < v.filter(p).len(),
    ensures
        p(v.filter(p)[i]),
        v.contains(v.filter(p)[i]),
    decreases v.len(),
{
    reveal(Seq::filter);
    let w = v.drop_last();
    if i < w.filter(p).len() {
        lemma_member_pending(w, p, i);
        assert(v.filter(p)[i] == w.filter(p)[i]);
        let k = choose|k: int| 0 <= k < w.len() && w[k] == w.filter(p)[i];
        assert(v[k] == v.filter(p)[i]);
    } else {
        assert(v.filter(p)[i] == v.last());
        assert(v[v.len() - 1] == v.last());
    }
}

proof fn lemma_waves_members(rules: Seq<RuleModel>, pending: Seq<Seq<char>>)
    ensures
        waves(rules, pending) matches Waves::Done(w) ==> forall|j: int, b: int|
            0 <= j < w.len() && 0 <= b < w[j].len() ==> pending.contains(#[trigger] w[j][b]),
    decreases pending.len(),
{
    if pending.len() > 0 && ready(rules, pending).len() > 0 {
        lemma_ready_waiting(rules, pending);
        let rest = waiting(rules, pending);
        lemma_waves_members(rules, rest);
        match waves(rules, rest) {
            Waves::Stuck(n) => {},
            Waves::Done(t) => {
                let w = seq![ready(rules, pending)] + t;
                assert forall|j: int, b: int|
                    0 <= j < w.len() && 0 <= b < w[j].len() implies pending.contains(
                    #[trigger] w[j][b],
                ) by {
                    if j == 0 {
                        lemma_member_pending(
                            pending,
                            |s: Seq<char>| !blocked(rules, pending, s),
                            b,
                        );
                    } else {
                        assert(w[j] == t[j - 1]);
                        assert(rest.contains(t[j - 1][b]));
                        let k = choose|k: int| 0 <= k < rest.len() && rest[k] == t[j - 1][b];
                        lemma_member_pending(
                            pending,
                            |s: Seq<char>| blocked(rules, pending, s),
                            k,
                        );
                    }
                }
            },
        }
    }
}

/// A source is compiled in a later wave than everything of the list that it
/// depends on; no wave is empty; and the waves hold the list, each name as often.
pub proof fn law_waves(rules: Seq<RuleModel>, pending: Seq<Seq<char>>)
    ensures
        waves(rules, pending) matches Waves::Done(w) ==> {
            &&& respects(rules, w)
            &&& forall|i: int| 0 <= i < w.len() ==> (#[trigger] w[i]).len() > 0
            &&& lisp_jobs::flattened(w).to_multiset() == pending.to_multiset()
        },
    decreases pending.len(),
{
    broadcast use vstd::seq_lib::group_to_multiset_ensures;
    if pending.len() == 0 {
        assert(pending =~= Seq::empty());
        assert(lisp_jobs::flattened(Seq::empty()) =~= pending);
    } else if ready(rules, pending).len() > 0 {
        lemma_ready_waiting(rules, pending);
        let rest = waiting(rules, pending);
        law_waves(rules, rest);
        lemma_waves_members(rules, pending);
        match waves(rules, rest) {
            Waves::Stuck(n) => {},
            Waves::Done(t) => {
                let first = ready(rules, pending);
                let w = seq![first] + t;
                assert(w.subrange(1, w.len() as int) =~= t);
                vstd::seq_lib::lemma_multiset_commutative(first, lisp_jobs::flattened(t));
                assert(lisp_jobs::flattened(w).to_multiset() =~= pending.to_multiset());
                assert forall|i: int| 0 <= i < w.len() implies (#[trigger] w[i]).len() > 0 by {
                    if i > 0 {
                        assert(w[i] == t[i - 1]);
                    }
                }
                assert forall|i: int, j: int, a: int, b: int|
                    0 <= i <= j < w.len() && 0 <= a < w[i].len() && 0 <= b
                        < w[j].len() implies !makefile::depends(
                    rules,
                    #[trigger] w[i][a],
                    #[trigger] w[j][b],
                ) by {
                    if i == 0 {
                        lemma_member_pending(
                            pending,
                            |s: Seq<char>| !blocked(rules, pending, s),
                            a,
                        );
                        assert(!blocked(rules, pending, w[0][a]));
                        assert(pending.contains(w[j][b]));
                        let k = choose|k: int| 0 <= k < pending.len() && pending[k] == w[j][b];
                        assert(!makefile::depends(rules, w[0][a], pending[k]));
                    } else {
                        assert(w[i] == t[i - 1]);
                        assert(w[j] == t[j - 1]);
                        assert(!makefile::depends(rules, t[i - 1][a], t[j - 1][b]));
                    }
                }
            },
        }
    }
}

/// A group of sources of the list that all wait for one of the group.
pub open spec fn is_knot(rules: Seq<RuleModel>, pending: Seq<Seq<char>>, knot: Seq<Seq<char>>) -> bool {
    &&& knot.len() > 0
    &&& forall|i: int| 0 <= i < knot.len() ==> pending.contains(#[trigger] knot[i])
    &&& forall|i: int| 0 <= i < knot.len() ==> blocked(rules, knot, #[trigger] knot[i])
}

/// Cutting into waves fails only where sources wait for each other in a ring:
/// there is a group of them each of which waits for one of the group.
pub proof fn law_stuck_means_knot(rules: Seq<RuleModel>, pending: Seq<Seq<char>>)
    ensures
        waves(rules, pending) is Stuck ==> exists|knot: Seq<Seq<char>>| #[trigger]
            is_knot(rules, pending, knot) && waves(rules, pending) == Waves::Stuck(knot.len()),
    decreases pending.len(),
{
    if pending.len() > 0 {
        lemma_ready_waiting(rules, pending);
        if ready(rules, pending).len() == 0 {
            assert forall|i: int| 0 <= i < pending.len() implies blocked(
                rules,
                pending,
                #[trigger] pending[i],
            ) by {
                lemma_all_filtered(pending, |s: Seq<char>| !blocked(rules, pending, s), i);
            }
            assert(is_knot(rules, pending, pending));
        } else {
            let rest = waiting(rules, pending);
            law_stuck_means_knot(rules, rest);
            if waves(rules, rest) is Stuck {
                let knot = choose|knot: Seq<Seq<char>>| #[trigger]
                    is_knot(rules, rest, knot) && waves(rules, rest) == Waves::Stuck(knot.len());
                assert forall|i: int| 0 <= i < knot.len() implies pending.contains(
                    #[trigger] knot[i],
                ) by {
                    assert(rest.contains(knot[i]));
                    let k = choose|k: int| 0 <= k < rest.len() && rest[k] == knot[i];
                    lemma_member_pending(pending, |s: Seq<char>| blocked(rules, pending, s), k);
                }
                assert(is_knot(rules, pending, knot));
            }
        }
    }
}

proof fn lemma_all_filtered(v: Seq<Seq<char>>, p: spec_fn(Seq<char>) -> bool, i: int)
    requires
        0 <= i < v.len(),
        v.filter(p).len() == 0,
    ensures
        !p(v[i]),
    decreases v.len(),
{
    reveal(Seq::filter);
    if i < v.len() - 1 {
        lemma_all_filtered(v.drop_last(), p, i);
    }
}

/// `s` is in the list, or depends on a source that has to be compiled again, over
/// at most `n` steps.
pub open spec fn rebuilt_within(
    sources: Seq<Seq<char>>,
    rules: Seq<RuleModel>,
    initial: Seq<Seq<char>>,
    s: Seq<char>,
    n: nat,
) -> bool
    decreases n,
{
    ||| paths::has_name(Collation::Path, initial, s)
    ||| n > 0 && paths::has_name(Collation::Path, sources, s) && exists|k: int|
        0 <= k < sources.len() && makefile::depends(rules, s, #[trigger] sources[k])
            && rebuilt_within(sources, rules, initial, sources[k], (n - 1) as nat)
}

/// `s` has to be compiled again, because it is in `initial` or because something
/// that it depends on has to be.
pub open spec fn rebuilt(
    sources: Seq<Seq<char>>,
    rules: Seq<RuleModel>,
    initial: Seq<Seq<char>>,
    s: Seq<char>,
) -> bool {
    exists|n: nat| rebuilt_within(sources, rules, initial, s, n)
}


proof fn lemma_has_name_key(v: Seq<Seq<char>>, a: Seq<char>, b: Seq<char>)
    requires
        paths::same_name(Collation::Path, a, b),
        paths::has_name(Collation::Path, v, a),
    ensures
        paths::has_name(Collation::Path, v, b),
{
    let i = choose|i: int|
        0 <= i < v.len() && paths::same_name(Collation::Path, #[trigger] v[i], a);
    assert(paths::same_name(Collation::Path, v[i], b));
}

proof fn lemma_depends_key(rules: Seq<RuleModel>, a: Seq<char>, b: Seq<char>, d: Seq<char>)
    requires
        paths::same_name(Collation::Path, a, b),
        makefile::depends(rules, a, d),
    ensures
        makefile::depends(rules, b, d),
{
    let i = choose|i: int|
        0 <= i < rules.len() && paths::has_name(
            Collation::Path,
            (#[trigger] rules[i]).targets,
            a,
        ) && paths::has_name(Collation::Path, rules[i].deps, d);
    lemma_has_name_key(rules[i].targets, a, b);
}

proof fn lemma_rebuilt_key(
    sources: Seq<Seq<char>>,
    rules: Seq<RuleModel>,
    initial: Seq<Seq<char>>,
    a: Seq<char>,
    b: Seq<char>,
    n: nat,
)
    requires
        paths::same_name(Collation::Path, a, b),
        rebuilt_within(sources, rules, initial, a, n),
    ensures
        rebuilt_within(sources, rules, initial, b, n),
{
    if paths::has_name(Collation::Path, initial, a) {
        lemma_has_name_key(initial, a, b);
    } else {
        lemma_has_name_key(sources, a, b);
        let k = choose|k: int|
            0 <= k < sources.len() && makefile::depends(rules, a, #[trigger] sources[k])
                && rebuilt_within(sources, rules, initial, sources[k], (n - 1) as nat);
        lemma_depends_key(rules, a, b, sources[k]);
        assert(makefile::depends(rules, b, sources[k]));
    }
}

/// Every name of the list has to be compiled again.
pub open spec fn all_rebuilt(
    sources: Seq<Seq<char>>,
    rules: Seq<RuleModel>,
    initial: Seq<Seq<char>>,
    v: Seq<Seq<char>>,
) -> bool {
    forall|i: int| 0 <= i < v.len() ==> rebuilt(sources, rules, initial, #[trigger] v[i])
}

/// No source outside `v` depends on a source in `v`.
pub open spec fn closed_under(
    sources: Seq<Seq<char>>,
    rules: Seq<RuleModel>,
    v: Seq<Seq<char>>,
) -> bool {
    forall|i: int, k: int|
        0 <= i < sources.len() && 0 <= k < sources.len() && makefile::depends(
            rules,
            #[trigger] sources[i],
            #[trigger] sources[k],
        ) && paths::has_name(Collation::Path, v, sources[k]) ==> paths::has_name(
            Collation::Path,
            v,
            sources[i],
        )
}

proof fn lemma_closed_has(
    sources: Seq<Seq<char>>,
    rules: Seq<RuleModel>,
    initial: Seq<Seq<char>>,
    v: Seq<Seq<char>>,
    s: Seq<char>,
    n: nat,
)
    requires
        closed_under(sources, rules, v),
        forall|x: Seq<char>|
            paths::has_name(Collation::Path, initial, x) ==> #[trigger] paths::has_name(
                Collation::Path,
                v,
                x,
            ),
        rebuilt_within(sources, rules, initial, s, n),
    ensures
        paths::has_name(Collation::Path, v, s),
    decreases n,
{
    if !paths::has_name(Collation::Path, initial, s) {
        let k = choose|k: int|
            0 <= k < sources.len() && makefile::depends(rules, s, #[trigger] sources[k])
                && rebuilt_within(sources, rules, initial, sources[k], (n - 1) as nat);
        lemma_closed_has(sources, rules, initial, v, sources[k], (n - 1) as nat);
        let i = choose|i: int|
            0 <= i < sources.len() && paths::same_name(Collation::Path, #[trigger] sources[i], s);
        lemma_depends_key(rules, s, sources[i], sources[k]);
        assert(paths::has_name(Collation::Path, v, sources[i]));
        lemma_has_name_key(v, sources[i], s);
    } else {
        assert(paths::has_name(Collation::Path, v, s));
    }
}

/// How many of the sources are not in `v`.
pub open spec fn outside(sources: Seq<Seq<char>>, v: Seq<Seq<char>>) -> nat
    decreases sources.len(),
{
    if sources.len() == 0 {
        0
    } else {
        outside(sources.drop_last(), v) + if paths::has_name(
            Collation::Path,
            v,
            sources.last(),
        ) {
            0nat
        } else {
            1nat
        }
    }
}

proof fn lemma_outside_shrinks(
    sources: Seq<Seq<char>>,
    v: Seq<Seq<char>>,
    w: Seq<Seq<char>>,
    i: int,
)
    requires
        forall|x: Seq<char>|
            paths::has_name(Collation::Path, v, x) ==> #[trigger] paths::has_name(
                Collation::Path,
                w,
                x,
            ),
        0 <= i < sources.len() ==> !paths::has_name(Collation::Path, v, sources[i])
            && paths::has_name(Collation::Path, w, sources[i]),
    ensures
        outside(sources, w) <= outside(sources, v),
        0 <= i < sources.len() ==> outside(sources, w) < outside(sources, v),
    decreases sources.len(),
{
    if sources.len() > 0 {
        let d = sources.drop_last();
        if i < d.len() {
            assert(0 <= i < d.len() ==> d[i] == sources[i]);
        }
        lemma_outside_shrinks(d, v, w, i);
        if paths::has_name(Collation::Path, v, sources.last()) {
            assert(paths::has_name(Collation::Path, w, sources.last()));
        }
    }
}

/// What an insertion does to the names of a strictly ordered list.
proof fn lemma_inserted(v: Seq<Seq<char>>, s: Seq<char>)
    requires
        paths::strictly_ordered(Collation::Path, v),
    ensures
        paths::strictly_ordered(Collation::Path, paths::with_name(Collation::Path, v, s)),
        forall|x: Seq<char>| #[trigger]
            paths::has_name(Collation::Path, paths::with_name(Collation::Path, v, s), x)
                <==> paths::has_name(Collation::Path, v, x) || paths::same_name(
                Collation::Path,
                s,
                x,
            ),
        forall|i: int|
            0 <= i < paths::with_name(Collation::Path, v, s).len() ==> v.contains(
                #[trigger] paths::with_name(Collation::Path, v, s)[i],
            ) || paths::with_name(Collation::Path, v, s)[i] == s,
{
    let w = paths::with_name(Collation::Path, v, s);
    paths::lemma_set_insert(Collation::Path, v, s);
    assert forall|x: Seq<char>| #[trigger] paths::has_name(Collation::Path, w, x)
        <==> paths::has_name(Collation::Path, v, x) || paths::same_name(Collation::Path, s, x) by {
        if paths::has_name(Collation::Path, w, x) {
            let i = choose|i: int|
                0 <= i < w.len() && paths::same_name(Collation::Path, #[trigger] w[i], x);
            assert(w.contains(w[i]));
            if w[i] != s {
                let k = choose|k: int| 0 <= k < v.len() && v[k] == w[i];
                assert(paths::same_name(Collation::Path, v[k], x));
            }
        }
        if paths::has_name(Collation::Path, v, x) {
            let k = choose|k: int|
                0 <= k < v.len() && paths::same_name(Collation::Path, #[trigger] v[k], x);
            assert(w.contains(v[k]));
            let i = choose|i: int| 0 <= i < w.len() && w[i] == v[k];
            assert(paths::same_name(Collation::Path, w[i], x));
        }
        if paths::same_name(Collation::Path, s, x) {
            if paths::has_name(Collation::Path, v, s) {
                lemma_has_name_key(v, s, x);
            } else {
                assert(w.contains(s));
                let i = choose|i: int| 0 <= i < w.len() && w[i] == s;
                assert(paths::same_name(Collation::Path, w[i], x));
            }
        }
    }
    assert forall|i: int| 0 <= i < w.len() implies v.contains(#[trigger] w[i]) || w[i] == s by {
        assert(w.contains(w[i]));
    }
}

/// The sources that have to be compiled again once those of `initial` are.
pub fn compile_main_rebuild_closure(
    sources: &Vec<String>,
    dependencies: &Vec<Rule>,
    initial: &Vec<String>,
) -> (r: Vec<String>)
    ensures
        paths::strictly_ordered(Collation::Path, text::texts(r@)),
        forall|s: Seq<char>| #[trigger]
            paths::has_name(Collation::Path, text::texts(r@), s) <==> rebuilt(
                text::texts(sources@),
                makefile::rule_models(dependencies@),
                text::texts(initial@),
                s,
            ),
{
    let ghost all = text::texts(sources@);
    let ghost rules = makefile::rule_models(dependencies@);
    let ghost start = text::texts(initial@);
    let mut rebuild: Vec<String> = paths::name_set_of(Collation::Path, initial);
    proof {
        paths::law_name_set(Collation::Path, start);
        let v = text::texts(rebuild@);
        assert forall|i: int| 0 <= i < v.len() implies rebuilt(
            all,
            rules,
            start,
            #[trigger] v[i],
        ) by {
            assert(paths::same_name(Collation::Path, v[i], v[i]));
            assert(paths::has_name(Collation::Path, v, v[i]));
            assert(rebuilt_within(all, rules, start, v[i], 0));
        }
    }
    let mut changed: bool = true;
    while changed
        invariant
            all == text::texts(sources@),
            rules == makefile::rule_models(dependencies@),
            start == text::texts(initial@),
            paths::strictly_ordered(Collation::Path, text::texts(rebuild@)),
            all_rebuilt(all, rules, start, text::texts(rebuild@)),
            forall|x: Seq<char>|
                paths::has_name(Collation::Path, start, x) ==> #[trigger] paths::has_name(
                    Collation::Path,
                    text::texts(rebuild@),
                    x,
                ),
            !changed ==> closed_under(all, rules, text::texts(rebuild@)),
        decreases outside(all, text::texts(rebuild@)) + if changed {
            1nat
        } else {
            0nat
        },
    {
        changed = false;
        let ghost before = text::texts(rebuild@);
        let mut i: usize = 0;
        while i < sources.len()
            invariant
                i <= sources.len(),
                all == text::texts(sources@),
                rules == makefile::rule_models(dependencies@),
                start == text::texts(initial@),
                paths::strictly_ordered(Collation::Path, text::texts(rebuild@)),
                all_rebuilt(all, rules, start, text::texts(rebuild@)),
                forall|x: Seq<char>|
                    paths::has_name(Collation::Path, start, x) ==> #[trigger] paths::has_name(
                        Collation::Path,
                        text::texts(rebuild@),
                        x,
                    ),
                outside(all, text::texts(rebuild@)) <= outside(all, before),
                changed ==> outside(all, text::texts(rebuild@)) < outside(all, before),
                !changed ==> text::texts(rebuild@) == before,
                !changed ==> forall|a: int, k: int|
                    0 <= a < i && 0 <= k < all.len() && makefile::depends(
                        rules,
                        #[trigger] all[a],
                        #[trigger] all[k],
                    ) && paths::has_name(Collation::Path, before, all[k]) ==> paths::has_name(
                        Collation::Path,
                        before,
                        all[a],
                    ),
            decreases sources.len() - i,
        {
            proof {
                assert(all[i as int] == sources@[i as int]@);
            }
            let source: &str = sources[i].as_str();
            if !paths::contains_name(Collation::Path, &rebuild, source) {
                let ghost now = text::texts(rebuild@);
                let mut again: bool = false;
                let mut k: usize = 0;
                while k < sources.len() && !again
                    invariant
                        k <= sources.len(),
                        all == text::texts(sources@),
                        rules == makefile::rule_models(dependencies@),
                        now == text::texts(rebuild@),
                        !again ==> forall|m: int|
                            0 <= m < k && makefile::depends(rules, source@, #[trigger] all[m])
                                ==> !paths::has_name(Collation::Path, now, all[m]),
                        again ==> exists|m: int|
                            0 <= m < all.len() && makefile::depends(
                                rules,
                                source@,
                                #[trigger] all[m],
                            ) && paths::has_name(Collation::Path, now, all[m]),
                    decreases sources.len() - k,
                {
                    proof {
                        assert(all[k as int] == sources@[k as int]@);
                    }
                    if source_depends(dependencies, source, sources[k].as_str())
                        && paths::contains_name(Collation::Path, &rebuild, sources[k].as_str()) {
                        proof {
                            assert(makefile::depends(rules, source@, all[k as int]));
                        }
                        again = true;
                    }
                    k += 1;
                }
                if again {
                    proof {
                        let m = choose|m: int|
                            0 <= m < all.len() && makefile::depends(
                                rules,
                                source@,
                                #[trigger] all[m],
                            ) && paths::has_name(Collation::Path, now, all[m]);
                        let x = choose|x: int|
                            0 <= x < now.len() && paths::same_name(
                                Collation::Path,
                                #[trigger] now[x],
                                all[m],
                            );
                        assert(rebuilt(all, rules, start, now[x]));
                        let n = choose|n: nat| rebuilt_within(all, rules, start, now[x], n);
                        lemma_rebuilt_key(all, rules, start, now[x], all[m], n);
                        assert(paths::same_name(Collation::Path, all[i as int], source@));
                        assert(paths::has_name(Collation::Path, all, source@));
                        assert(rebuilt_within(all, rules, start, all[m], ((n + 1) - 1) as nat));
                        assert(rebuilt_within(all, rules, start, source@, n + 1));
                        assert(rebuilt(all, rules, start, source@));
                        lemma_inserted(now, source@);
                        let later = paths::with_name(Collation::Path, now, source@);
                        lemma_outside_shrinks(all, now, later, i as int);
                        assert forall|y: int| 0 <= y < later.len() implies rebuilt(
                            all,
                            rules,
                            start,
                            #[trigger] later[y],
                        ) by {
                            if later[y] != source@ {
                                let z = choose|z: int| 0 <= z < now.len() && now[z] == later[y];
                                assert(rebuilt(all, rules, start, now[z]));
                            }
                        }
                    }
                    paths::insert_name(Collation::Path, &mut rebuild, source);
                    changed = true;
                }
            }
            i += 1;
        }
    }
    proof {
        let v = text::texts(rebuild@);
        assert forall|s: Seq<char>| #[trigger] paths::has_name(Collation::Path, v, s) <==> rebuilt(
            all,
            rules,
            start,
            s,
        ) by {
            if paths::has_name(Collation::Path, v, s) {
                let i = choose|i: int|
                    0 <= i < v.len() && paths::same_name(Collation::Path, #[trigger] v[i], s);
                assert(rebuilt(all, rules, start, v[i]));
                let n = choose|n: nat| rebuilt_within(all, rules, start, v[i], n);
                lemma_rebuilt_key(all, rules, start, v[i], s, n);
            }
            if rebuilt(all, rules, start, s) {
                let n = choose|n: nat| rebuilt_within(all, rules, start, s, n);
                lemma_closed_has(all, rules, start, v, s, n);
            }
        }
    }
    rebuild
}

/// A source that depends on one that has to be compiled again has to be compiled
/// again itself.
pub proof fn law_rebuild_spreads(
    sources: Seq<Seq<char>>,
    rules: Seq<RuleModel>,
    initial: Seq<Seq<char>>,
    i: int,
    k: int,
)
    requires
        0 <= i < sources.len(),
        0 <= k < sources.len(),
        makefile::depends(rules, sources[i], sources[k]),
        rebuilt(sources, rules, initial, sources[k]),
    ensures
        rebuilt(sources, rules, initial, sources[i]),
{
    let n = choose|n: nat| rebuilt_within(sources, rules, initial, sources[k], n);
    assert(paths::same_name(Collation::Path, sources[i], sources[i]));
    assert(rebuilt_within(sources, rules, initial, sources[k], ((n + 1) - 1) as nat));
    assert(rebuilt_within(sources, rules, initial, sources[i], n + 1));
}

/// What is compiled again beyond `initial` is one of the sources.
pub proof fn law_rebuild_stays_in_sources(
    sources: Seq<Seq<char>>,
    rules: Seq<RuleModel>,
    initial: Seq<Seq<char>>,
    s: Seq<char>,
)
    requires
        rebuilt(sources, rules, initial, s),
    ensures
        paths::has_name(Collation::Path, initial, s) || paths::has_name(
            Collation::Path,
            sources,
            s,
        ),
{
}

/// A dependency whose compiled form is newer than `made`, or not there although
/// the source has to be compiled.
pub open spec fn dependency_newer(disk: Disk, dep: Seq<char>, made: u64) -> bool {
    match disk.time_of(disk::elc(dep)) {
        Some(d) => d > made,
        None => disk.file_at(dep) && disk::compile_main_stale(disk, dep),
    }
}

/// The compiled form of a rule's target is missing or older than that of a dependency.
pub open spec fn overtaken(disk: Disk, source: Seq<char>, rules: Seq<RuleModel>) -> bool {
    makefile::is_target(rules, source) && match disk.time_of(disk::elc(source)) {
        None => true,
        Some(t) => {
            let deps = paths::name_set(
                Collation::Path,
                makefile::listed_dependencies(rules, source),
            );
            exists|i: int| 0 <= i < deps.len() && dependency_newer(disk, #[trigger] deps[i], t)
        },
    }
}

pub fn compile_main_dependency_bytecode_newer(
    disk: &Disk,
    source: &str,
    dependencies: &Vec<Rule>,
) -> (r: bool)
    ensures
        r == overtaken(*disk, source@, makefile::rule_models(dependencies@)),
{
    let deps: Vec<String> = match makefile::dependencies_of(dependencies, source) {
        Some(v) => v,
        None => {
            return false;
        },
    };
    let target: String = paths::with_extension(source, "elc");
    let made: u64 = match disk.modified(target.as_str()) {
        Some(t) => t,
        None => {
            return true;
        },
    };
    let ghost all = text::texts(deps@);
    let mut i: usize = 0;
    while i < deps.len()
        invariant
            i <= deps.len(),
            all == text::texts(deps@),
            all == paths::name_set(
                Collation::Path,
                makefile::listed_dependencies(
                    makefile::rule_models(dependencies@),
                    source@,
                ),
            ),
            makefile::is_target(makefile::rule_models(dependencies@), source@),
            disk.time_of(disk::elc(source@)) == Some(made),
            forall|k: int| 0 <= k < i ==> !dependency_newer(*disk, #[trigger] all[k], made),
        decreases deps.len() - i,
    {
        proof {
            assert(all[i as int] == deps@[i as int]@);
        }
        let dep: &str = deps[i].as_str();
        let dep_elc: String = paths::with_extension(dep, "elc");
        let newer: bool = match disk.modified(dep_elc.as_str()) {
            Some(d) => d > made,
            None => disk.is_file(dep) && disk::compile_main_needs_rebuild(disk, dep),
        };
        if newer {
            return true;
        }
        i += 1;
    }
    false
}

pub open spec fn initially_stale(disk: Disk, rules: Seq<RuleModel>, s: Seq<char>) -> bool {
    disk::compile_main_stale(disk, s) || overtaken(disk, s, rules)
}

/// The sources that have to be compiled, in the order in which they were given.
pub open spec fn needing_rebuild(
    disk: Disk,
    sources: Seq<Seq<char>>,
    rules: Seq<RuleModel>,
) -> Seq<Seq<char>> {
    let initial = sources.filter(|s: Seq<char>| initially_stale(disk, rules, s));
    sources.filter(|s: Seq<char>| rebuilt(sources, rules, initial, s))
}

pub fn compile_main_sources_needing_rebuild(
    disk: &Disk,
    sources: &Vec<String>,
    dependencies: &Vec<Rule>,
) -> (r: Vec<String>)
    ensures
        text::texts(r@) == needing_rebuild(
            *disk,
            text::texts(sources@),
            makefile::rule_models(dependencies@),
        ),
{
    let ghost all = text::texts(sources@);
    let ghost rules = makefile::rule_models(dependencies@);
    let ghost p = |s: Seq<char>| initially_stale(*disk, rules, s);
    let mut initial: Vec<String> = Vec::new();
    let mut i: usize = 0;
    proof {
        reveal(Seq::filter);
        assert(text::texts(initial@) =~= all.subrange(0, 0).filter(p));
    }
    while i < sources.len()
        invariant
            i <= sources.len(),
            all == text::texts(sources@),
            rules == makefile::rule_models(dependencies@),
            p == |s: Seq<char>| initially_stale(*disk, rules, s),
            text::texts(initial@) == all.subrange(0, i as int).filter(p),
        decreases sources.len() - i,
    {
        proof {
            assert(all[i as int] == sources@[i as int]@);
            paths::lemma_filter_step(all, i as int, p);
        }
        let source: &str = sources[i].as_str();
        if disk::compile_main_needs_rebuild(disk, source) || compile_main_dependency_bytecode_newer(
            disk,
            source,
            dependencies,
        ) {
            let s: String = text::copy(source);
            proof {
                text::lemma_texts_push(initial@, s);
            }
            initial.push(s);
        }
        i += 1;
    }
    proof {
        assert(all.subrange(0, all.len() as int) =~= all);
    }
    let rebuild: Vec<String> = compile_main_rebuild_closure(sources, dependencies, &initial);
    let ghost start = text::texts(initial@);
    let ghost q = |s: Seq<char>| rebuilt(all, rules, start, s);
    let mut out: Vec<String> = Vec::new();
    i = 0;
    proof {
        assert(text::texts(out@) =~= all.subrange(0, 0).filter(q));
    }
    while i < sources.len()
        invariant
            i <= sources.len(),
            all == text::texts(sources@),
            q == |s: Seq<char>| rebuilt(all, rules, start, s),
            forall|s: Seq<char>| #[trigger]
                paths::has_name(Collation::Path, text::texts(rebuild@), s) <==> rebuilt(
                    all,
                    rules,
                    start,
                    s,
                ),
            text::texts(out@) == all.subrange(0, i as int).filter(q),
        decreases sources.len() - i,
    {
        proof {
            assert(all[i as int] == sources@[i as int]@);
            paths::lemma_filter_step(all, i as int, q);
        }
        if paths::contains_name(Collation::Path, &rebuild, sources[i].as_str()) {
            let s: String = text::copy(sources[i].as_str());
            proof {
                text::lemma_texts_push(out@, s);
            }
            out.push(s);
        }
        i += 1;
    }
    out
}

} // verus!
