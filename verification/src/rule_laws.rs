//! What reading rules is for: a rule is there where it is written, what depends on what is
//! what the rules say, and a text that is cut in two is put together again.
use vstd::prelude::*;

use crate::makefile;
use crate::makefile::{Rule, RuleModel};
use crate::paths;
use crate::paths::Collation;
use crate::repo_policy;
use crate::text;

verus! {

proof fn lemma_compiled_sources(words: Seq<Seq<char>>, root: Seq<char>, k: int, rel: Seq<char>)
    requires
        0 <= k < words.len(),
        words[k] == "$(lisp)/"@ + rel,
        paths::extension_of(paths::joined_path(root, rel)) == Some("elc"@),
    ensures
        makefile::compiled_sources(words, root).contains(
            paths::with_extension_of(paths::joined_path(root, rel), "el"@),
        ),
    decreases words.len(),
{
    let all = makefile::compiled_sources(words, root);
    let w = words.drop_last();
    let before = makefile::compiled_sources(w, root);
    let p = paths::with_extension_of(paths::joined_path(root, rel), "el"@);
    if k == words.len() - 1 {
        let m = "$(lisp)/"@;
        assert(words.last().subrange(0, m.len() as int) =~= m);
        assert(words.last().subrange(m.len() as int, words.last().len() as int) =~= rel);
        assert(all == before.push(p));
        assert(all[all.len() - 1] == p);
    } else {
        assert(w[k] == words[k]);
        lemma_compiled_sources(w, root, k, rel);
        let j = choose|j: int| 0 <= j < before.len() && before[j] == p;
        assert(all[j] == p);
    }
}

/// Every compiled file that a line names has its source among what the line depends on.
pub proof fn law_compiled_file_has_its_source(
    fragment: &[char],
    root: &str,
    r: Vec<String>,
    k: int,
    rel: Seq<char>,
)
    requires
        call_ensures(makefile::compile_main_dependency_paths, (fragment, root), r),
        0 <= k < makefile::tokens(fragment@).len(),
        makefile::tokens(fragment@)[k] == "$(lisp)/"@ + rel,
        paths::extension_of(paths::joined_path(root@, rel)) == Some("elc"@),
    ensures
        text::texts(r@).contains(paths::with_extension_of(paths::joined_path(root@, rel), "el"@)),
{
    lemma_compiled_sources(makefile::tokens(fragment@), root@, k, rel);
}

proof fn lemma_rules(lines: Seq<Seq<char>>, root: Seq<char>, k: int)
    requires
        0 <= k < makefile::rule_fold(lines, root).rules.len(),
    ensures
        makefile::rule_fold(lines, root).rules[k].targets.len() > 0,
        makefile::rule_fold(lines, root).rules[k].deps.len() > 0,
    decreases lines.len(),
{
    if lines.len() > 0 {
        let before = makefile::rule_fold(lines.drop_last(), root);
        if k < before.rules.len() {
            lemma_rules(lines.drop_last(), root, k);
        }
    }
}

/// A rule says of something that it depends on something.
pub proof fn law_rules_say_something(contents: &str, root: &str, r: Vec<Rule>, k: int)
    requires
        call_ensures(makefile::parse_compile_main_dependencies_from_str, (contents, root), r),
        0 <= k < r@.len(),
    ensures
        r@[k].targets@.len() > 0,
        r@[k].deps@.len() > 0,
{
    let m = makefile::rule_models(r@);
    assert(m[k] == r@[k].model());
    lemma_rules(text::lines_of(contents@), root@, k);
}

proof fn lemma_listed(rules: Seq<RuleModel>, source: Seq<char>, d: Seq<char>)
    ensures
        makefile::listed_dependencies(rules, source).contains(d) <==> exists|i: int|
            0 <= i < rules.len() && paths::has_name(
                Collation::Path,
                (#[trigger] rules[i]).targets,
                source,
            ) && rules[i].deps.contains(d),
    decreases rules.len(),
{
    if rules.len() > 0 {
        let w = rules.drop_last();
        lemma_listed(w, source, d);
        let before = makefile::listed_dependencies(w, source);
        let all = makefile::listed_dependencies(rules, source);
        let last = rules.last();
        let named = paths::has_name(Collation::Path, last.targets, source);
        if all.contains(d) {
            let k = choose|k: int| 0 <= k < all.len() && all[k] == d;
            if k < before.len() {
                assert(before[k] == d);
                assert(before.contains(d));
                let i = choose|i: int|
                    0 <= i < w.len() && paths::has_name(
                        Collation::Path,
                        (#[trigger] w[i]).targets,
                        source,
                    ) && w[i].deps.contains(d);
                assert(rules[i] == w[i]);
            } else {
                assert(last.deps[k - before.len()] == d);
                assert(rules[rules.len() - 1] == last);
            }
        }
        if exists|i: int|
            0 <= i < rules.len() && paths::has_name(
                Collation::Path,
                (#[trigger] rules[i]).targets,
                source,
            ) && rules[i].deps.contains(d) {
            let i = choose|i: int|
                0 <= i < rules.len() && paths::has_name(
                    Collation::Path,
                    (#[trigger] rules[i]).targets,
                    source,
                ) && rules[i].deps.contains(d);
            if i < w.len() {
                assert(w[i] == rules[i]);
                assert(before.contains(d));
                let k = choose|k: int| 0 <= k < before.len() && before[k] == d;
                assert(all[k] == d);
            } else {
                let k = choose|k: int| 0 <= k < last.deps.len() && last.deps[k] == d;
                assert(all[before.len() + k] == d);
            }
        }
    }
}

/// What a rule makes depends on all that the rule says it does.
pub proof fn law_all_dependencies(
    rules: &Vec<Rule>,
    source: &str,
    r: Option<Vec<String>>,
    i: int,
    t: int,
    d: int,
)
    requires
        call_ensures(makefile::dependencies_of, (rules, source), r),
        0 <= i < rules@.len(),
        0 <= t < rules@[i].targets@.len(),
        rules@[i].targets@[t]@ == source@,
        0 <= d < rules@[i].deps@.len(),
    ensures
        r is Some,
        paths::has_name(Collation::Path, text::texts((r->0)@), rules@[i].deps@[d]@),
{
    let m = makefile::rule_models(rules@);
    assert(m[i] == rules@[i].model());
    assert(m[i].targets[t] == source@);
    assert(paths::same_name(Collation::Path, m[i].targets[t], source@));
    assert(paths::has_name(Collation::Path, m[i].targets, source@));
    let x = rules@[i].deps@[d]@;
    assert(m[i].deps[d] == x);
    assert(m[i].deps.contains(x));
    let v = makefile::listed_dependencies(m, source@);
    lemma_listed(m, source@, x);
    assert(v.contains(x));
    let k = choose|k: int| 0 <= k < v.len() && v[k] == x;
    assert(paths::same_name(Collation::Path, v[k], x));
    assert(paths::has_name(Collation::Path, v, x));
    paths::law_name_set(Collation::Path, v);
}

/// What something depends on, a rule that makes it says.
pub proof fn law_no_other_dependencies(
    rules: &Vec<Rule>,
    source: &str,
    r: Option<Vec<String>>,
    k: int,
)
    requires
        call_ensures(makefile::dependencies_of, (rules, source), r),
        r is Some,
        0 <= k < (r->0)@.len(),
    ensures
        exists|i: int|
            0 <= i < rules@.len() && paths::has_name(
                Collation::Path,
                text::texts((#[trigger] rules@[i]).targets@),
                source@,
            ) && text::texts(rules@[i].deps@).contains((r->0)@[k]@),
{
    let m = makefile::rule_models(rules@);
    let v = makefile::listed_dependencies(m, source@);
    let x = (r->0)@[k]@;
    paths::law_name_set(Collation::Path, v);
    assert(text::texts((r->0)@)[k] == x);
    assert(paths::name_set(Collation::Path, v).contains(x));
    lemma_listed(m, source@, x);
    let i = choose|i: int|
        0 <= i < m.len() && paths::has_name(
            Collation::Path,
            (#[trigger] m[i]).targets,
            source@,
        ) && m[i].deps.contains(x);
    assert(m[i] == rules@[i].model());
}

proof fn lemma_first_exists(s: Seq<char>, needle: Seq<char>, i: int)
    requires
        text::occurs_at(s, needle, i),
    ensures
        exists|k: int| text::first_at(s, needle, 0, k),
    decreases i,
{
    if exists|j: int| 0 <= j < i && text::occurs_at(s, needle, j) {
        let j = choose|j: int| 0 <= j < i && text::occurs_at(s, needle, j);
        lemma_first_exists(s, needle, j);
    } else {
        assert(text::first_at(s, needle, 0, i));
    }
}

/// A text that is cut at a mark is what is before it, the mark, and what is after it; it is
/// cut at the first one, and where there is none it is not cut.
pub proof fn law_cut_in_two(s: &str, needle: &str, r: Option<(String, String)>, k: int)
    requires
        call_ensures(repo_policy::split_once, (s, needle), r),
    ensures
        r is Some <==> text::contains(s@, needle@),
        r is Some ==> s@ == (r->0).0@ + needle@ + (r->0).1@,
        r is Some && 0 <= k < (r->0).0@.len() ==> !text::occurs_at(s@, needle@, k),
{
    if text::contains(s@, needle@) {
        let j = choose|j: int| text::occurs_at(s@, needle@, j);
        lemma_first_exists(s@, needle@, j);
        let i = choose|i: int| text::first_at(s@, needle@, 0, i);
        assert(text::first_at(s@, needle@, 0, i));
        let (a, b) = ((r->0).0@, (r->0).1@);
        assert(a == s@.subrange(0, i));
        assert(b == s@.subrange(i + needle@.len(), s@.len() as int));
        assert(s@.subrange(i, i + needle@.len()) =~= needle@);
        assert forall|x: int| 0 <= x < s@.len() implies s@[x] == (a + needle@ + b)[x] by {
            if i <= x < i + needle@.len() {
                assert(s@.subrange(i, i + needle@.len())[x - i] == needle@[x - i]);
            }
        }
        assert(s@ =~= a + needle@ + b);
    }
}

/// Marks are counted from left to right, each once: a text has one more than what follows its
/// first, and one without any has none.
pub proof fn law_marks_are_counted(
    s: &str,
    needle: &str,
    r: usize,
    cut: Option<(String, String)>,
    rest: &str,
    q: usize,
)
    requires
        needle@.len() > 0,
        call_ensures(repo_policy::matches_of, (s, needle), r),
        call_ensures(repo_policy::split_once, (s, needle), cut),
        cut is Some ==> rest@ == (cut->0).1@,
        call_ensures(repo_policy::matches_of, (rest, needle), q),
    ensures
        cut is Some ==> r == q + 1,
        cut is None ==> r == 0,
{
}

/// A commit is told by forty digits to the base of sixteen.
pub proof fn law_commit(s: &str, r: bool, k: int)
    requires
        call_ensures(repo_policy::is_commit_name, (s,), r),
    ensures
        r ==> s@.len() == 40,
        r && 0 <= k < s@.len() ==> ('0' <= s@[k] && s@[k] <= '9') || ('a' <= s@[k] && s@[k] <= 'f')
            || ('A' <= s@[k] && s@[k] <= 'F'),
        s@.len() == 40 && (forall|i: int|
            0 <= i < s@.len() ==> ('0' <= #[trigger] s@[i] && s@[i] <= '9') || ('a' <= s@[i]
                && s@[i] <= 'f')) ==> r,
{
}

/// A document pins what it uses exactly where each of its lines does.
pub proof fn law_every_line_pins(document: &str, r: bool, line: &str, one: bool, k: int)
    requires
        call_ensures(repo_policy::pins_external_actions, (document,), r),
        0 <= k < text::lines_of(document@).len(),
        line@ == text::lines_of(document@)[k],
        call_ensures(repo_policy::pinned_line, (line,), one),
    ensures
        r ==> one,
        !text::starts_with(text::trimmed(line@), "uses: "@) ==> one,
{
}

/// A line that uses something from elsewhere pins it where the thing is pinned: it stands
/// before a mark that the name of a commit follows. What is here needs none.
pub proof fn law_line_pins(line: &str, one: bool, action: &str, pinned: bool)
    requires
        call_ensures(repo_policy::pinned_line, (line,), one),
        text::trimmed(line@) == "uses: "@ + action@,
        call_ensures(repo_policy::pinned_action, (action,), pinned),
    ensures
        one == (pinned || text::starts_with(action@, "./"@)),
        pinned ==> text::contains(action@, "@"@),
{
    let (t, u) = (text::trimmed(line@), "uses: "@);
    assert(t.subrange(0, u.len() as int) =~= u);
    assert(t.subrange(u.len() as int, t.len() as int) =~= action@);
}

/// What is pinned to a name is pinned where the name is that of a commit.
pub proof fn law_pinned_to(
    action: &str,
    pinned: bool,
    cut: Option<(String, String)>,
    name: &str,
    commit: bool,
)
    requires
        call_ensures(repo_policy::pinned_action, (action,), pinned),
        call_ensures(repo_policy::split_once, (action, "@"), cut),
        cut is Some ==> text::words_of((cut->0).1@).len() > 0 && name@ == text::words_of(
            (cut->0).1@,
        )[0],
        call_ensures(repo_policy::is_commit_name, (name,), commit),
    ensures
        cut is Some ==> pinned == commit,
        cut is None ==> !pinned,
{
}

proof fn lemma_job_end(s: Seq<char>, from: int, k: int)
    requires
        0 <= from <= s.len(),
    ensures
        from <= repo_policy::job_end(s, from) <= s.len(),
        from <= k < repo_policy::job_end(s, from) ==> !repo_policy::job_level_line(s, k),
        repo_policy::job_end(s, from) < s.len() ==> repo_policy::job_level_line(
            s,
            repo_policy::job_end(s, from),
        ),
    decreases s.len() - from,
{
    if from < s.len() && !repo_policy::job_level_line(s, from) {
        lemma_job_end(s, from + 1, k);
    }
}

/// A job is what follows its name up to where the next one starts: no line in it is indented
/// as jobs are, and the line after it, if there is one, is.
pub proof fn law_job(
    workflow: &str,
    name: &str,
    r: Option<String>,
    marker: &str,
    cut: Option<(String, String)>,
    k: int,
)
    requires
        call_ensures(repo_policy::github_workflow_job, (workflow, name), r),
        marker@ == "\n  "@ + name@ + ":\n"@,
        call_ensures(repo_policy::split_once, (workflow, marker), cut),
    ensures
        r is Some <==> cut is Some,
        r is Some ==> text::starts_with((cut->0).1@, (r->0)@),
        r is Some && 0 <= k < (r->0)@.len() && (k == 0 || (cut->0).1@[k - 1] == '\n') && k + 2
            < (cut->0).1@.len() && (cut->0).1@[k] == ' ' && (cut->0).1@[k + 1] == ' ' ==> (
        cut->0).1@[k + 2] == ' ',
        r is Some && (r->0)@.len() < (cut->0).1@.len() ==> (cut->0).1@[(r->0)@.len() as int] == ' '
            && ((r->0)@.len() == 0 || (r->0)@.last() == '\n'),
{
    if r is Some {
        let t = (cut->0).1@;
        lemma_job_end(t, 0, k);
        let e = repo_policy::job_end(t, 0);
        assert((r->0)@ == t.subrange(0, e));
        assert(t.subrange(0, (r->0)@.len() as int) =~= (r->0)@);
    }
}

} // verus!
