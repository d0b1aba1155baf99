//! What the makefiles and the load script of the Lisp tree say about its sources.
use vstd::prelude::*;
use vstd::slice::slice_subrange;

use crate::disk::Disk;
use crate::disk;
use crate::paths::Collation;
use crate::paths;
use crate::text;

verus! {

/// `s` behind `prefix`, where it starts with it.
pub open spec fn stripped(s: Seq<char>, prefix: Seq<char>) -> Option<Seq<char>> {
    if text::starts_with(s, prefix) {
        Some(s.subrange(prefix.len() as int, s.len() as int))
    } else {
        None
    }
}

pub fn strip_prefix<'a>(s: &'a [char], prefix: &str) -> (r: Option<&'a [char]>)
    ensures
        match r {
            Some(t) => stripped(s@, prefix@) == Some(t@),
            None => stripped(s@, prefix@) is None,
        },
{
    let p: Vec<char> = text::chars_of(prefix);
    if text::begins(s, p.as_slice()) {
        Some(slice_subrange(s, p.len(), s.len()))
    } else {
        None
    }
}

/// What a line assigns or appends to `variable`.
pub open spec fn assigned(line: Seq<char>, variable: Seq<char>) -> Option<Seq<char>> {
    match stripped(line, variable) {
        None => None,
        Some(rest) => {
            let t = text::trimmed_start(rest);
            match stripped(t, "+="@) {
                Some(v) => Some(text::trimmed_start(v)),
                None => match stripped(t, "="@) {
                    Some(v) => Some(text::trimmed_start(v)),
                    None => None,
                },
            }
        },
    }
}

pub fn strip_makefile_assignment<'a>(line: &'a [char], variable: &str) -> (r: Option<&'a [char]>)
    ensures
        match r {
            Some(t) => assigned(line@, variable@) == Some(t@),
            None => assigned(line@, variable@) is None,
        },
{
    match strip_prefix(line, variable) {
        None => None,
        Some(rest) => {
            let t: &[char] = text::trim_start(rest);
            match strip_prefix(t, "+=") {
                Some(v) => Some(text::trim_start(v)),
                None => match strip_prefix(t, "=") {
                    Some(v) => Some(text::trim_start(v)),
                    None => None,
                },
            }
        },
    }
}

pub fn strip_compile_first_assignment<'a>(line: &'a [char]) -> (r: Option<&'a [char]>)
    ensures
        match r {
            Some(t) => assigned(line@, "COMPILE_FIRST"@) == Some(t@),
            None => assigned(line@, "COMPILE_FIRST"@) is None,
        },
{
    strip_makefile_assignment(line, "COMPILE_FIRST")
}

/// The words of a line in which a backslash only separates.
pub open spec fn tokens(fragment: Seq<char>) -> Seq<Seq<char>> {
    text::words_of(text::with_char_replaced(fragment, '\\', ' '))
}

fn tokens_of(fragment: &[char]) -> (r: Vec<String>)
    ensures
        text::texts(r@) == tokens(fragment@),
{
    let plain: Vec<char> = text::replace_char(fragment, '\\', ' ');
    text::words(plain.as_slice())
}

/// The source that a token names: one under the Lisp directory, with the
/// extension of a source where it has that of a compiled file.
pub open spec fn token_source(token: Seq<char>, root: Seq<char>) -> Option<Seq<char>> {
    let rel = match stripped(token, "$(lisp)/"@) {
        Some(r) => Some(r),
        None => stripped(token, "./"@),
    };
    match rel {
        None => None,
        Some(r) => {
            let path = paths::joined_path(root, r);
            if paths::extension_of(path) == Some("elc"@) {
                Some(paths::with_extension_of(path, "el"@))
            } else {
                Some(path)
            }
        },
    }
}

fn source_of_token(token: &str, root: &str) -> (r: Option<String>)
    ensures
        match r {
            Some(p) => token_source(token@, root@) == Some(p@),
            None => token_source(token@, root@) is None,
        },
{
    let chars: Vec<char> = text::chars_of(token);
    let rel: Option<&[char]> = match strip_prefix(chars.as_slice(), "$(lisp)/") {
        Some(t) => Some(t),
        None => strip_prefix(chars.as_slice(), "./"),
    };
    match rel {
        None => None,
        Some(t) => {
            let name: String = text::string_of(t);
            let path: String = paths::join(root, name.as_str());
            if paths::has_extension(path.as_str(), "elc") {
                Some(paths::with_extension(path.as_str(), "el"))
            } else {
                Some(path)
            }
        },
    }
}

/// `out` with the sources that `words` name, each path once.
pub open spec fn with_sources(
    out: Seq<Seq<char>>,
    words: Seq<Seq<char>>,
    root: Seq<char>,
) -> Seq<Seq<char>>
    decreases words.len(),
{
    if words.len() == 0 {
        out
    } else {
        let before = with_sources(out, words.drop_last(), root);
        match token_source(words.last(), root) {
            None => before,
            Some(p) => if paths::has_name(Collation::Path, before, p) {
                before
            } else {
                before.push(p)
            },
        }
    }
}

/// Appends the sources that `fragment` names, each path once.
pub fn emit_lisp_source_paths(fragment: &[char], lisp_root: &str, out: &mut Vec<String>)
    ensures
        text::texts(final(out)@) == with_sources(
            text::texts(old(out)@),
            tokens(fragment@),
            lisp_root@,
        ),
{
    let words: Vec<String> = tokens_of(fragment);
    let ghost all = tokens(fragment@);
    let ghost start = text::texts(out@);
    let mut i: usize = 0;
    while i < words.len()
        invariant
            i <= words.len(),
            text::texts(words@) == all,
            text::texts(out@) == with_sources(start, all.subrange(0, i as int), lisp_root@),
        decreases words.len() - i,
    {
        proof {
            assert(all[i as int] == words@[i as int]@);
            assert(all.subrange(0, i + 1).drop_last() =~= all.subrange(0, i as int));
        }
        match source_of_token(words[i].as_str(), lisp_root) {
            None => {},
            Some(p) => {
                if !paths::contains_name(Collation::Path, out, p.as_str()) {
                    proof {
                        text::lemma_texts_push(out@, p);
                    }
                    out.push(p);
                }
            },
        }
        i += 1;
    }
    proof {
        assert(all.subrange(0, all.len() as int) =~= all);
    }
}

pub open spec fn continues(line: Seq<char>) -> bool {
    text::ends_with(line, "\\"@)
}

fn line_continues(line: &[char]) -> (r: bool)
    ensures
        r == continues(line@),
{
    let slash: Vec<char> = text::chars_of("\\");
    text::finishes(line, slash.as_slice())
}

/// How far the reading of a variable's value has come.
pub struct VariableState {
    pub capture: bool,
    pub native_block: bool,
    pub out: Seq<Seq<char>>,
}

/// What one line adds to the sources that `variable` lists. With `guarded`, the
/// assignments inside the native-compilation block count only where `native_comp`.
pub open spec fn variable_step(
    st: VariableState,
    raw: Seq<char>,
    variable: Seq<char>,
    guarded: bool,
    native_comp: bool,
    root: Seq<char>,
) -> VariableState {
    let line = text::trimmed_end(raw);
    if guarded && line == "ifeq ($(HAVE_NATIVE_COMP),yes)"@ {
        VariableState { native_block: true, ..st }
    } else if guarded && line == "endif"@ {
        VariableState { native_block: false, ..st }
    } else {
        match assigned(line, variable) {
            Some(rest) => if guarded && st.native_block && !native_comp {
                VariableState { capture: continues(line), ..st }
            } else {
                VariableState {
                    capture: continues(line),
                    out: with_sources(st.out, tokens(rest), root),
                    ..st
                }
            },
            None => if st.capture {
                VariableState {
                    capture: continues(line),
                    out: with_sources(st.out, tokens(line), root),
                    ..st
                }
            } else {
                st
            },
        }
    }
}

pub open spec fn variable_fold(
    lines: Seq<Seq<char>>,
    variable: Seq<char>,
    guarded: bool,
    native_comp: bool,
    root: Seq<char>,
) -> VariableState
    decreases lines.len(),
{
    if lines.len() == 0 {
        VariableState { capture: false, native_block: false, out: Seq::empty() }
    } else {
        variable_step(
            variable_fold(lines.drop_last(), variable, guarded, native_comp, root),
            lines.last(),
            variable,
            guarded,
            native_comp,
            root,
        )
    }
}

/// The sources that `variable` lists in a makefile.
pub open spec fn variable_sources(
    contents: Seq<char>,
    variable: Seq<char>,
    guarded: bool,
    native_comp: bool,
    root: Seq<char>,
) -> Seq<Seq<char>> {
    variable_fold(text::lines_of(contents), variable, guarded, native_comp, root).out
}

fn parse_variable_sources(
    contents: &str,
    variable: &str,
    guarded: bool,
    native_comp: bool,
    lisp_root: &str,
) -> (r: Vec<String>)
    ensures
        text::texts(r@) == variable_sources(
            contents@,
            variable@,
            guarded,
            native_comp,
            lisp_root@,
        ),
{
    let lines: Vec<String> = text::lines(contents);
    let ghost all = text::lines_of(contents@);
    let mut out: Vec<String> = Vec::new();
    let mut capture: bool = false;
    let mut native_block: bool = false;
    let mut i: usize = 0;
    proof {
        assert(text::texts(out@) =~= Seq::empty());
    }
    while i < lines.len()
        invariant
            i <= lines.len(),
            text::texts(lines@) == all,
            variable_fold(all.subrange(0, i as int), variable@, guarded, native_comp, lisp_root@)
                == (VariableState {
                capture: capture,
                native_block: native_block,
                out: text::texts(out@),
            }),
        decreases lines.len() - i,
    {
        proof {
            assert(all[i as int] == lines@[i as int]@);
            assert(all.subrange(0, i + 1).drop_last() =~= all.subrange(0, i as int));
        }
        let raw: Vec<char> = text::chars_of(lines[i].as_str());
        let line: &[char] = text::trim_end(raw.as_slice());
        let line_text: String = text::string_of(line);
        if guarded && text::same(line_text.as_str(), "ifeq ($(HAVE_NATIVE_COMP),yes)") {
            native_block = true;
        } else if guarded && text::same(line_text.as_str(), "endif") {
            native_block = false;
        } else {
            match strip_makefile_assignment(line, variable) {
                Some(rest) => {
                    capture = line_continues(line);
                    if !(guarded && native_block && !native_comp) {
                        emit_lisp_source_paths(rest, lisp_root, &mut out);
                    }
                },
                None => {
                    if capture {
                        emit_lisp_source_paths(line, lisp_root, &mut out);
                        capture = line_continues(line);
                    }
                },
            }
        }
        i += 1;
    }
    proof {
        assert(all.subrange(0, all.len() as int) =~= all);
    }
    out
}

/// The sources that are compiled one after the other before the general pass.
pub fn parse_main_first_sources_from_str(contents: &str, lisp_root: &str) -> (r: Vec<String>)
    ensures
        text::texts(r@) == variable_sources(contents@, "MAIN_FIRST"@, false, false, lisp_root@),
{
    parse_variable_sources(contents, "MAIN_FIRST", false, false, lisp_root)
}

/// The compiler's own sources, those of them that are files.
pub open spec fn compile_first_sources(
    disk: Disk,
    contents: Seq<char>,
    root: Seq<char>,
    native_comp: bool,
) -> Seq<Seq<char>> {
    variable_sources(contents, "COMPILE_FIRST"@, true, native_comp, root).filter(
        |p: Seq<char>| disk.file_at(p),
    )
}

pub fn parse_compile_first_sources_from_str(
    disk: &Disk,
    contents: &str,
    lisp_root: &str,
    native_comp: bool,
) -> (r: Vec<String>)
    ensures
        text::texts(r@) == compile_first_sources(*disk, contents@, lisp_root@, native_comp),
{
    let found: Vec<String> = parse_variable_sources(
        contents,
        "COMPILE_FIRST",
        true,
        native_comp,
        lisp_root,
    );
    let keep = |s: &str| -> (b: bool)
        ensures
            b == disk.file_at(s@),
        { disk.is_file(s) };
    paths::kept(&found, keep, Ghost(|p: Seq<char>| disk.file_at(p)))
}

/// A rule of a makefile between compiled Lisp files, told by their sources:
/// each target is compiled after each of the dependencies.
#[derive(Debug, Clone)]
pub struct Rule {
    pub targets: Vec<String>,
    pub deps: Vec<String>,
}

pub struct RuleModel {
    pub targets: Seq<Seq<char>>,
    pub deps: Seq<Seq<char>>,
}

impl Rule {
    pub open spec fn model(self) -> RuleModel {
        RuleModel { targets: text::texts(self.targets@), deps: text::texts(self.deps@) }
    }
}

pub open spec fn rule_models(v: Seq<Rule>) -> Seq<RuleModel> {
    Seq::new(v.len(), |i: int| v[i].model())
}

/// The source of a compiled file that a token names.
pub open spec fn compiled_source(token: Seq<char>, root: Seq<char>) -> Option<Seq<char>> {
    match stripped(token, "$(lisp)/"@) {
        None => None,
        Some(r) => {
            let path = paths::joined_path(root, r);
            if paths::extension_of(path) == Some("elc"@) {
                Some(paths::with_extension_of(path, "el"@))
            } else {
                None
            }
        },
    }
}

/// The sources of the compiled files that `words` name.
pub open spec fn compiled_sources(words: Seq<Seq<char>>, root: Seq<char>) -> Seq<Seq<char>>
    decreases words.len(),
{
    if words.len() == 0 {
        Seq::empty()
    } else {
        let before = compiled_sources(words.drop_last(), root);
        match compiled_source(words.last(), root) {
            None => before,
            Some(p) => before.push(p),
        }
    }
}

pub fn compile_main_dependency_paths(fragment: &[char], lisp_root: &str) -> (r: Vec<String>)
    ensures
        text::texts(r@) == compiled_sources(tokens(fragment@), lisp_root@),
{
    let words: Vec<String> = tokens_of(fragment);
    let ghost all = tokens(fragment@);
    let mut out: Vec<String> = Vec::new();
    let mut i: usize = 0;
    proof {
        assert(text::texts(out@) =~= Seq::empty());
    }
    while i < words.len()
        invariant
            i <= words.len(),
            text::texts(words@) == all,
            text::texts(out@) == compiled_sources(all.subrange(0, i as int), lisp_root@),
        decreases words.len() - i,
    {
        proof {
            assert(all[i as int] == words@[i as int]@);
            assert(all.subrange(0, i + 1).drop_last() =~= all.subrange(0, i as int));
        }
        let token: Vec<char> = text::chars_of(words[i].as_str());
        match strip_prefix(token.as_slice(), "$(lisp)/") {
            None => {},
            Some(t) => {
                let name: String = text::string_of(t);
                let path: String = paths::join(lisp_root, name.as_str());
                if paths::has_extension(path.as_str(), "elc") {
                    let source: String = paths::with_extension(path.as_str(), "el");
                    proof {
                        text::lemma_texts_push(out@, source);
                    }
                    out.push(source);
                }
            },
        }
        i += 1;
    }
    proof {
        assert(all.subrange(0, all.len() as int) =~= all);
    }
    out
}

/// A line without the backslash that continues it.
pub open spec fn without_slash(line: Seq<char>) -> Seq<char> {
    if continues(line) {
        line.subrange(0, line.len() - 1)
    } else {
        line
    }
}

/// How far the reading of a makefile's rules has come.
pub struct RuleState {
    pub logical: Seq<char>,
    pub rules: Seq<RuleModel>,
}

/// The rule that a whole line states, if it relates compiled Lisp files.
pub open spec fn rule_of(logical: Seq<char>, root: Seq<char>) -> Option<RuleModel> {
    let colon = text::index_of_char(logical, ':');
    if colon >= logical.len() {
        None
    } else {
        let targets = compiled_sources(tokens(logical.subrange(0, colon)), root);
        let deps = compiled_sources(
            tokens(logical.subrange(colon + 1, logical.len() as int)),
            root,
        );
        if targets.len() == 0 || deps.len() == 0 {
            None
        } else {
            Some(RuleModel { targets, deps })
        }
    }
}

pub open spec fn rule_step(st: RuleState, raw: Seq<char>, root: Seq<char>) -> RuleState {
    let line = text::trimmed_end(raw);
    let logical = (st.logical + without_slash(line)).push(' ');
    if continues(line) {
        RuleState { logical, ..st }
    } else {
        RuleState {
            logical: Seq::empty(),
            rules: match rule_of(logical, root) {
                Some(rule) => st.rules.push(rule),
                None => st.rules,
            },
        }
    }
}

pub open spec fn rule_fold(lines: Seq<Seq<char>>, root: Seq<char>) -> RuleState
    decreases lines.len(),
{
    if lines.len() == 0 {
        RuleState { logical: Seq::empty(), rules: Seq::empty() }
    } else {
        rule_step(rule_fold(lines.drop_last(), root), lines.last(), root)
    }
}

/// The rules of a makefile between compiled Lisp files.
pub open spec fn rules_of(contents: Seq<char>, root: Seq<char>) -> Seq<RuleModel> {
    rule_fold(text::lines_of(contents), root).rules
}

fn parse_rule(logical: &[char], lisp_root: &str) -> (r: Option<Rule>)
    ensures
        match r {
            Some(rule) => rule_of(logical@, lisp_root@) == Some(rule.model()),
            None => rule_of(logical@, lisp_root@) is None,
        },
{
    let colon: usize = text::char_index(logical, ':');
    if colon >= logical.len() {
        return None;
    }
    let targets: Vec<String> = compile_main_dependency_paths(
        slice_subrange(logical, 0, colon),
        lisp_root,
    );
    let deps: Vec<String> = compile_main_dependency_paths(
        slice_subrange(logical, colon + 1, logical.len()),
        lisp_root,
    );
    if targets.len() == 0 || deps.len() == 0 {
        None
    } else {
        Some(Rule { targets: targets, deps: deps })
    }
}

pub fn parse_compile_main_dependencies_from_str(contents: &str, lisp_root: &str) -> (r: Vec<Rule>)
    ensures
        rule_models(r@) == rules_of(contents@, lisp_root@),
{
    let lines: Vec<String> = text::lines(contents);
    let ghost all = text::lines_of(contents@);
    let mut rules: Vec<Rule> = Vec::new();
    let mut logical: Vec<char> = Vec::new();
    let mut i: usize = 0;
    proof {
        assert(rule_models(rules@) =~= Seq::empty());
        assert(logical@ =~= Seq::empty());
    }
    while i < lines.len()
        invariant
            i <= lines.len(),
            text::texts(lines@) == all,
            rule_fold(all.subrange(0, i as int), lisp_root@) == (RuleState {
                logical: logical@,
                rules: rule_models(rules@),
            }),
        decreases lines.len() - i,
    {
        proof {
            assert(all[i as int] == lines@[i as int]@);
            assert(all.subrange(0, i + 1).drop_last() =~= all.subrange(0, i as int));
            reveal_strlit("\\");
        }
        let raw: Vec<char> = text::chars_of(lines[i].as_str());
        let line: &[char] = text::trim_end(raw.as_slice());
        let continuation: bool = line_continues(line);
        let fragment: &[char] = if continuation {
            slice_subrange(line, 0, line.len() - 1)
        } else {
            line
        };
        let ghost so_far = logical@;
        let ghost known = rule_models(rules@);
        let mut j: usize = 0;
        proof {
            assert(so_far + fragment@.subrange(0, 0) =~= so_far);
        }
        while j < fragment.len()
            invariant
                j <= fragment.len(),
                logical@ == so_far + fragment@.subrange(0, j as int),
            decreases fragment.len() - j,
        {
            proof {
                assert((so_far + fragment@.subrange(0, j as int)).push(fragment@[j as int])
                    =~= so_far + fragment@.subrange(0, j + 1));
            }
            logical.push(fragment[j]);
            j += 1;
        }
        proof {
            assert(fragment@.subrange(0, fragment@.len() as int) =~= fragment@);
        }
        logical.push(' ');
        if !continuation {
            match parse_rule(logical.as_slice(), lisp_root) {
                Some(rule) => {
                    let ghost m = rule.model();
                    rules.push(rule);
                    proof {
                        assert(rule_models(rules@) =~= known.push(m));
                    }
                },
                None => {},
            }
            logical = Vec::new();
            proof {
                assert(logical@ =~= Seq::empty());
            }
        }
        i += 1;
    }
    proof {
        assert(all.subrange(0, all.len() as int) =~= all);
    }
    rules
}

/// `source` has to wait for `dep`.
pub open spec fn depends(rules: Seq<RuleModel>, source: Seq<char>, dep: Seq<char>) -> bool {
    exists|i: int|
        0 <= i < rules.len() && paths::has_name(
            Collation::Path,
            (#[trigger] rules[i]).targets,
            source,
        ) && paths::has_name(Collation::Path, rules[i].deps, dep)
}

/// Some rule is about `source`.
pub open spec fn is_target(rules: Seq<RuleModel>, source: Seq<char>) -> bool {
    exists|i: int|
        0 <= i < rules.len() && paths::has_name(
            Collation::Path,
            (#[trigger] rules[i]).targets,
            source,
        )
}

/// All that the rules about `source` list as dependencies, in the order of the rules.
pub open spec fn listed_dependencies(rules: Seq<RuleModel>, source: Seq<char>) -> Seq<Seq<char>>
    decreases rules.len(),
{
    if rules.len() == 0 {
        Seq::empty()
    } else {
        let before = listed_dependencies(rules.drop_last(), source);
        if paths::has_name(Collation::Path, rules.last().targets, source) {
            before + rules.last().deps
        } else {
            before
        }
    }
}

/// The dependencies of `source` in order, each once; `None` where no rule is about it.
pub fn dependencies_of(rules: &Vec<Rule>, source: &str) -> (r: Option<Vec<String>>)
    ensures
        r is Some == is_target(rule_models(rules@), source@),
        r matches Some(v) ==> text::texts(v@) == paths::name_set(
            Collation::Path,
            listed_dependencies(rule_models(rules@), source@),
        ),
{
    let ghost all = rule_models(rules@);
    let mut found: bool = false;
    let mut listed: Vec<String> = Vec::new();
    let mut i: usize = 0;
    proof {
        assert(text::texts(listed@) =~= Seq::empty());
    }
    while i < rules.len()
        invariant
            i <= rules.len(),
            all == rule_models(rules@),
            found == exists|k: int|
                0 <= k < i && paths::has_name(
                    Collation::Path,
                    (#[trigger] all[k]).targets,
                    source@,
                ),
            text::texts(listed@) == listed_dependencies(all.subrange(0, i as int), source@),
        decreases rules.len() - i,
    {
        proof {
            assert(all[i as int] == rules@[i as int].model());
            assert(all.subrange(0, i + 1).drop_last() =~= all.subrange(0, i as int));
        }
        if paths::contains_name(Collation::Path, &rules[i].targets, source) {
            found = true;
            let deps: &Vec<String> = &rules[i].deps;
            let ghost start = text::texts(listed@);
            let ghost more = text::texts(deps@);
            let mut j: usize = 0;
            proof {
                assert(start + more.subrange(0, 0) =~= start);
            }
            while j < deps.len()
                invariant
                    j <= deps.len(),
                    more == text::texts(deps@),
                    text::texts(listed@) == start + more.subrange(0, j as int),
                decreases deps.len() - j,
            {
                let d: String = text::copy(deps[j].as_str());
                proof {
                    assert(more[j as int] == deps@[j as int]@);
                    text::lemma_texts_push(listed@, d);
                    assert((start + more.subrange(0, j as int)).push(more[j as int]) =~= start
                        + more.subrange(0, j + 1));
                }
                listed.push(d);
                j += 1;
            }
            proof {
                assert(more.subrange(0, more.len() as int) =~= more);
            }
        }
        i += 1;
    }
    proof {
        assert(all.subrange(0, all.len() as int) =~= all);
    }
    if found {
        Some(paths::name_set_of(Collation::Path, &listed))
    } else {
        None
    }
}

proof fn lemma_listed_has(rules: Seq<RuleModel>, source: Seq<char>, dep: Seq<char>)
    ensures
        paths::has_name(Collation::Path, listed_dependencies(rules, source), dep) == depends(
            rules,
            source,
            dep,
        ),
    decreases rules.len(),
{
    if rules.len() > 0 {
        let w = rules.drop_last();
        let before = listed_dependencies(w, source);
        let last = rules.last();
        lemma_listed_has(w, source, dep);
        let all = listed_dependencies(rules, source);
        if depends(rules, source, dep) {
            let i = choose|i: int|
                0 <= i < rules.len() && paths::has_name(
                    Collation::Path,
                    (#[trigger] rules[i]).targets,
                    source,
                ) && paths::has_name(Collation::Path, rules[i].deps, dep);
            if i < w.len() {
                assert(w[i] == rules[i]);
                assert(depends(w, source, dep));
                let k = choose|k: int|
                    0 <= k < before.len() && paths::same_name(
                        Collation::Path,
                        #[trigger] before[k],
                        dep,
                    );
                assert(all[k] == before[k]);
            } else {
                let k = choose|k: int|
                    0 <= k < last.deps.len() && paths::same_name(
                        Collation::Path,
                        #[trigger] last.deps[k],
                        dep,
                    );
                assert(all[before.len() + k] == last.deps[k]);
            }
        }
        if paths::has_name(Collation::Path, all, dep) {
            let k = choose|k: int|
                0 <= k < all.len() && paths::same_name(Collation::Path, #[trigger] all[k], dep);
            if k < before.len() {
                assert(before[k] == all[k]);
                assert(depends(w, source, dep));
                let i = choose|i: int|
                    0 <= i < w.len() && paths::has_name(
                        Collation::Path,
                        (#[trigger] w[i]).targets,
                        source,
                    ) && paths::has_name(Collation::Path, w[i].deps, dep);
                assert(rules[i] == w[i]);
            } else {
                assert(last.deps[k - before.len()] == all[k]);
                assert(rules[rules.len() - 1] == last);
            }
        }
    }
}

/// A source's list of dependencies has exactly what it depends on.
pub proof fn law_dependencies(rules: Seq<RuleModel>, source: Seq<char>, dep: Seq<char>)
    ensures
        paths::has_name(
            Collation::Path,
            paths::name_set(Collation::Path, listed_dependencies(rules, source)),
            dep,
        ) <==> depends(rules, source, dep),
{
    paths::law_name_set(Collation::Path, listed_dependencies(rules, source));
    lemma_listed_has(rules, source, dep);
}

/// Leading spaces and tabs off.
pub open spec fn without_indent(s: Seq<char>) -> Seq<char>
    decreases s.len(),
{
    if s.len() > 0 && (s[0] == ' ' || s[0] == '\t') {
        without_indent(s.subrange(1, s.len() as int))
    } else {
        s
    }
}

fn skip_indent(s: &[char]) -> (r: &[char])
    ensures
        r@ == without_indent(s@),
{
    let mut i: usize = 0;
    proof {
        assert(s@.subrange(0, s@.len() as int) =~= s@);
    }
    while i < s.len() && (s[i] == ' ' || s[i] == '\t')
        invariant
            i <= s.len(),
            without_indent(s@.subrange(i as int, s@.len() as int)) == without_indent(s@),
        decreases s.len() - i,
    {
        proof {
            let t = s@.subrange(i as int, s@.len() as int);
            assert(t.subrange(1, t.len() as int) =~= s@.subrange(i + 1, s@.len() as int));
        }
        i += 1;
    }
    slice_subrange(s, i, s.len())
}

/// The text between the mark `open` and the next double quote.
pub open spec fn quoted_after(s: Seq<char>, open: Seq<char>) -> Option<Seq<char>> {
    match stripped(s, open) {
        None => None,
        Some(rest) => {
            let q = text::index_of_char(rest, '"');
            if q >= rest.len() {
                None
            } else {
                Some(rest.subrange(0, q))
            }
        },
    }
}

fn text_quoted_after(s: &[char], open: &str) -> (r: Option<String>)
    ensures
        match r {
            Some(t) => quoted_after(s@, open@) == Some(t@),
            None => quoted_after(s@, open@) is None,
        },
{
    match strip_prefix(s, open) {
        None => None,
        Some(rest) => {
            let q: usize = text::char_index(rest, '"');
            if q >= rest.len() {
                None
            } else {
                Some(text::string_of(slice_subrange(rest, 0, q)))
            }
        },
    }
}

/// What one line of the load script loads: a source by its name, or the compiled
/// form of a library.
pub open spec fn load_target(line: Seq<char>) -> Option<Seq<char>> {
    match quoted_after(without_indent(line), "(load \""@) {
        None => None,
        Some(library) => if text::ends_with(library, ".el"@) {
            Some(library)
        } else {
            Some(library + ".elc"@)
        },
    }
}

/// What the load script loads, in order, each once.
pub open spec fn load_targets(lines: Seq<Seq<char>>) -> Seq<Seq<char>>
    decreases lines.len(),
{
    if lines.len() == 0 {
        Seq::empty()
    } else {
        let before = load_targets(lines.drop_last());
        match load_target(lines.last()) {
            None => before,
            Some(t) => paths::with_name(Collation::Text, before, t),
        }
    }
}

/// Targets that are not compiled with the preloaded set, or not in their turn.
pub open spec fn out_of_turn(t: Seq<char>) -> bool {
    t == "leim/leim-list.el"@ || t == "site-load.elc"@ || t == "site-init.elc"@ || t
        == "loaddefs.elc"@
}

/// The source to compile for a target, if it is a file that may be compiled.
pub open spec fn preloaded_source(disk: Disk, target: Seq<char>, root: Seq<char>) -> Option<
    Seq<char>,
> {
    if !text::ends_with(target, ".elc"@) {
        None
    } else {
        let stem = target.subrange(0, target.len() - 4);
        let source = paths::joined_path(root, stem + ".el"@);
        if disk.file_at(source) && !disk::marked(disk, source) {
            Some(source)
        } else {
            None
        }
    }
}

pub open spec fn preloaded_of(disk: Disk, targets: Seq<Seq<char>>, root: Seq<char>) -> Seq<
    Seq<char>,
>
    decreases targets.len(),
{
    if targets.len() == 0 {
        Seq::empty()
    } else {
        let before = preloaded_of(disk, targets.drop_last(), root);
        match preloaded_source(disk, targets.last(), root) {
            None => before,
            Some(p) => before.push(p),
        }
    }
}

/// The preloaded sources: the autoloads first, then what the load script loads.
pub open spec fn preloaded_sources(disk: Disk, contents: Seq<char>, root: Seq<char>) -> Seq<
    Seq<char>,
> {
    preloaded_of(
        disk,
        seq!["loaddefs.elc"@] + load_targets(text::lines_of(contents)).filter(
            |t: Seq<char>| !out_of_turn(t),
        ),
        root,
    )
}

fn push_preloaded_lisp_source(disk: &Disk, target: &str, lisp_root: &str, out: &mut Vec<String>)
    ensures
        text::texts(final(out)@) == match preloaded_source(*disk, target@, lisp_root@) {
            None => text::texts(old(out)@),
            Some(p) => text::texts(old(out)@).push(p),
        },
{
    let chars: Vec<char> = text::chars_of(target);
    let ext: Vec<char> = text::chars_of(".elc");
    if !text::finishes(chars.as_slice(), ext.as_slice()) {
        return ;
    }
    proof {
        reveal_strlit(".elc");
    }
    let stem: String = text::string_of(slice_subrange(chars.as_slice(), 0, chars.len() - 4));
    let name: String = text::concat(stem.as_str(), ".el");
    let source: String = paths::join(lisp_root, name.as_str());
    let marked: bool = match disk::source_has_no_byte_compile_marker(disk, source.as_str()) {
        Some(b) => b,
        None => false,
    };
    if disk.is_file(source.as_str()) && !marked {
        proof {
            text::lemma_texts_push(out@, source);
        }
        out.push(source);
    }
}

fn load_script_targets(contents: &str) -> (r: Vec<String>)
    ensures
        text::texts(r@) == load_targets(text::lines_of(contents@)),
{
    let lines: Vec<String> = text::lines(contents);
    let ghost all = text::lines_of(contents@);
    let mut targets: Vec<String> = Vec::new();
    let mut i: usize = 0;
    proof {
        assert(text::texts(targets@) =~= Seq::empty());
    }
    while i < lines.len()
        invariant
            i <= lines.len(),
            text::texts(lines@) == all,
            text::texts(targets@) == load_targets(all.subrange(0, i as int)),
        decreases lines.len() - i,
    {
        proof {
            assert(all[i as int] == lines@[i as int]@);
            assert(all.subrange(0, i + 1).drop_last() =~= all.subrange(0, i as int));
        }
        let line: Vec<char> = text::chars_of(lines[i].as_str());
        match text_quoted_after(skip_indent(line.as_slice()), "(load \"") {
            None => {},
            Some(library) => {
                let target: String = if text::finishes_with(library.as_str(), ".el") {
                    library
                } else {
                    text::concat(library.as_str(), ".elc")
                };
                paths::insert_name(Collation::Text, &mut targets, target.as_str());
            },
        }
        i += 1;
    }
    proof {
        assert(all.subrange(0, all.len() as int) =~= all);
    }
    targets
}

/// The sources of the libraries that the load script `contents` preloads.
pub fn parse_preloaded_lisp_sources_from_str(disk: &Disk, contents: &str, lisp_root: &str) -> (r:
    Vec<String>)
    ensures
        text::texts(r@) == preloaded_sources(*disk, contents@, lisp_root@),
{
    let targets: Vec<String> = load_script_targets(contents);
    let ghost all = text::texts(targets@);
    let ghost keep = |t: Seq<char>| !out_of_turn(t);
    let ghost head = seq!["loaddefs.elc"@];
    let mut out: Vec<String> = Vec::new();
    let mut i: usize = 0;
    proof {
        assert(text::texts(out@) =~= Seq::empty());
        assert(head.drop_last() =~= Seq::empty());
        reveal_with_fuel(preloaded_of, 2);
    }
    push_preloaded_lisp_source(disk, "loaddefs.elc", lisp_root, &mut out);
    proof {
        reveal(Seq::filter);
        assert(head + all.subrange(0, 0).filter(keep) =~= head);
        assert(head.last() == "loaddefs.elc"@);
        assert(text::texts(out@) == preloaded_of(*disk, head, lisp_root@));
    }
    while i < targets.len()
        invariant
            i <= targets.len(),
            all == text::texts(targets@),
            keep == |t: Seq<char>| !out_of_turn(t),
            head == seq!["loaddefs.elc"@],
            text::texts(out@) == preloaded_of(
                *disk,
                head + all.subrange(0, i as int).filter(keep),
                lisp_root@,
            ),
        decreases targets.len() - i,
    {
        proof {
            assert(all[i as int] == targets@[i as int]@);
            paths::lemma_filter_step(all, i as int, keep);
        }
        let t: &str = targets[i].as_str();
        if !(text::same(t, "leim/leim-list.el") || text::same(t, "site-load.elc") || text::same(
            t,
            "site-init.elc",
        ) || text::same(t, "loaddefs.elc")) {
            proof {
                let f = all.subrange(0, i as int).filter(keep);
                let longer = head + f.push(t@);
                assert(longer.drop_last() =~= head + f);
                assert(longer.last() == t@);
            }
            push_preloaded_lisp_source(disk, t, lisp_root, &mut out);
        }
        i += 1;
    }
    proof {
        assert(all.subrange(0, all.len() as int) =~= all);
    }
    out
}

/// The file name that a line of the Unicode generator's table gives.
pub open spec fn unidata_name(line: Seq<char>) -> Option<Seq<char>> {
    match quoted_after(text::trimmed_start(line), "(\"uni-"@) {
        None => None,
        Some(rest) => if text::ends_with("uni-"@ + rest, ".el"@) {
            Some("uni-"@ + rest)
        } else {
            None
        },
    }
}

/// The file names that the Unicode generator's table gives, in order, each once.
pub open spec fn unidata_names(lines: Seq<Seq<char>>) -> Seq<Seq<char>>
    decreases lines.len(),
{
    if lines.len() == 0 {
        Seq::empty()
    } else {
        let before = unidata_names(lines.drop_last());
        match unidata_name(lines.last()) {
            None => before,
            Some(n) => paths::with_name(Collation::Text, before, n),
        }
    }
}

pub fn unidata_generated_lisp_file_names_from_str(contents: &str) -> (r: Vec<String>)
    ensures
        text::texts(r@) == unidata_names(text::lines_of(contents@)),
{
    let lines: Vec<String> = text::lines(contents);
    let ghost all = text::lines_of(contents@);
    let mut names: Vec<String> = Vec::new();
    let mut i: usize = 0;
    proof {
        assert(text::texts(names@) =~= Seq::empty());
    }
    while i < lines.len()
        invariant
            i <= lines.len(),
            text::texts(lines@) == all,
            text::texts(names@) == unidata_names(all.subrange(0, i as int)),
        decreases lines.len() - i,
    {
        proof {
            assert(all[i as int] == lines@[i as int]@);
            assert(all.subrange(0, i + 1).drop_last() =~= all.subrange(0, i as int));
        }
        let line: Vec<char> = text::chars_of(lines[i].as_str());
        match text_quoted_after(text::trim_start(line.as_slice()), "(\"uni-") {
            None => {},
            Some(rest) => {
                let name: String = text::concat("uni-", rest.as_str());
                if text::finishes_with(name.as_str(), ".el") {
                    paths::insert_name(Collation::Text, &mut names, name.as_str());
                }
            },
        }
        i += 1;
    }
    proof {
        assert(all.subrange(0, all.len() as int) =~= all);
    }
    names
}

} // verus!
