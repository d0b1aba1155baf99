//! The files of the Lisp tree that a build makes, removes or rewrites.
use vstd::prelude::*;
use vstd::slice::slice_subrange;
use vstd::string::StringExecFns;

use crate::disk::Disk;
use crate::disk;
use crate::lisp_jobs::{LeimGenerationKind, PipelinePaths, SemanticGrammarKind};
use crate::makefile;
use crate::paths::Collation;
use crate::paths;
use crate::text;

verus! {

/// Appends one name to a list.
fn name(v: &mut Vec<String>, s: &str)
    ensures
        text::texts(final(v)@) == text::texts(old(v)@).push(s@),
{
    let a: String = text::copy(s);
    proof {
        text::lemma_texts_push(v@, a);
    }
    v.push(a);
}

fn no_names() -> (r: Vec<String>)
    ensures
        text::texts(r@) == Seq::<Seq<char>>::empty(),
{
    let v: Vec<String> = Vec::new();
    proof {
        assert(text::texts(v@) =~= Seq::empty());
    }
    v
}

/// One input method source and what is made of it.
#[derive(Debug, Clone)]
pub struct LeimGenerationRule {
    pub kind: LeimGenerationKind,
    pub source_rel: String,
    pub output_rels: Vec<String>,
}

pub struct LeimRuleModel {
    pub kind: LeimGenerationKind,
    pub source: Seq<char>,
    pub outputs: Seq<Seq<char>>,
}

impl LeimGenerationRule {
    pub open spec fn model(self) -> LeimRuleModel {
        LeimRuleModel {
            kind: self.kind,
            source: self.source_rel@,
            outputs: text::texts(self.output_rels@),
        }
    }
}

pub open spec fn leim_models(v: Seq<LeimGenerationRule>) -> Seq<LeimRuleModel> {
    Seq::new(v.len(), |i: int| v[i].model())
}

pub open spec fn tit(source: Seq<char>, output: Seq<char>) -> LeimRuleModel {
    LeimRuleModel { kind: LeimGenerationKind::TitDic, source, outputs: seq![output] }
}

pub open spec fn misc(source: Seq<char>, output: Seq<char>) -> LeimRuleModel {
    LeimRuleModel { kind: LeimGenerationKind::MiscDic, source, outputs: seq![output] }
}

pub open spec fn misc_pair(source: Seq<char>, first: Seq<char>, second: Seq<char>) -> LeimRuleModel {
    LeimRuleModel { kind: LeimGenerationKind::MiscDic, source, outputs: seq![first, second] }
}

/// The input method sources, in the order in which they are converted.
pub open spec fn leim_table() -> Seq<LeimRuleModel> {
    seq![
        tit("CXTERM-DIC/CCDOSPY.tit"@, "leim/quail/CCDOSPY.el"@),
        tit("CXTERM-DIC/Punct.tit"@, "leim/quail/Punct.el"@),
        tit("CXTERM-DIC/QJ.tit"@, "leim/quail/QJ.el"@),
        tit("CXTERM-DIC/SW.tit"@, "leim/quail/SW.el"@),
        tit("CXTERM-DIC/TONEPY.tit"@, "leim/quail/TONEPY.el"@),
        tit("CXTERM-DIC/4Corner.tit"@, "leim/quail/4Corner.el"@),
        tit("CXTERM-DIC/ARRAY30.tit"@, "leim/quail/ARRAY30.el"@),
        tit("CXTERM-DIC/ECDICT.tit"@, "leim/quail/ECDICT.el"@),
        tit("CXTERM-DIC/ETZY.tit"@, "leim/quail/ETZY.el"@),
        tit("CXTERM-DIC/Punct-b5.tit"@, "leim/quail/Punct-b5.el"@),
        tit("CXTERM-DIC/PY-b5.tit"@, "leim/quail/PY-b5.el"@),
        tit("CXTERM-DIC/QJ-b5.tit"@, "leim/quail/QJ-b5.el"@),
        tit("CXTERM-DIC/ZOZY.tit"@, "leim/quail/ZOZY.el"@),
        misc_pair(
            "MISC-DIC/cangjie-table.b5"@,
            "leim/quail/tsang-b5.el"@,
            "leim/quail/quick-b5.el"@,
        ),
        misc_pair(
            "MISC-DIC/cangjie-table.cns"@,
            "leim/quail/tsang-cns.el"@,
            "leim/quail/quick-cns.el"@,
        ),
        misc("MISC-DIC/pinyin.map"@, "leim/quail/PY.el"@),
        misc("MISC-DIC/ziranma.cin"@, "leim/quail/ZIRANMA.el"@),
        misc("MISC-DIC/CTLau.html"@, "leim/quail/CTLau.el"@),
        misc("MISC-DIC/CTLau-b5.html"@, "leim/quail/CTLau-b5.el"@),
        LeimRuleModel {
            kind: LeimGenerationKind::Pinyin,
            source: "MISC-DIC/pinyin.map"@,
            outputs: seq!["language/pinyin.el"@],
        },
    ]
}

fn add_rule(
    v: &mut Vec<LeimGenerationRule>,
    kind: LeimGenerationKind,
    source: &str,
    first: &str,
    second: Option<&str>,
)
    ensures
        leim_models(final(v)@) == leim_models(old(v)@).push(
            LeimRuleModel {
                kind: kind,
                source: source@,
                outputs: match second {
                    None => seq![first@],
                    Some(s) => seq![first@, s@],
                },
            },
        ),
{
    let ghost start = v@;
    let mut outputs: Vec<String> = no_names();
    name(&mut outputs, first);
    match second {
        None => {
            proof {
                assert(text::texts(outputs@) =~= seq![first@]);
            }
        },
        Some(s) => {
            name(&mut outputs, s);
            proof {
                assert(text::texts(outputs@) =~= seq![first@, s@]);
            }
        },
    }
    v.push(
        LeimGenerationRule { kind: kind, source_rel: text::copy(source), output_rels: outputs },
    );
    proof {
        assert(leim_models(v@) =~= leim_models(start).push(v@.last().model()));
    }
}

/// The input method sources and what is made of them.
pub fn leim_generation_rules() -> (r: Vec<LeimGenerationRule>)
    ensures
        leim_models(r@) == leim_table(),
{
    let t: LeimGenerationKind = LeimGenerationKind::TitDic;
    let m: LeimGenerationKind = LeimGenerationKind::MiscDic;
    let mut v: Vec<LeimGenerationRule> = Vec::new();
    proof {
        assert(leim_models(v@) =~= Seq::empty());
    }
    add_rule(&mut v, t, "CXTERM-DIC/CCDOSPY.tit", "leim/quail/CCDOSPY.el", None);
    add_rule(&mut v, t, "CXTERM-DIC/Punct.tit", "leim/quail/Punct.el", None);
    add_rule(&mut v, t, "CXTERM-DIC/QJ.tit", "leim/quail/QJ.el", None);
    add_rule(&mut v, t, "CXTERM-DIC/SW.tit", "leim/quail/SW.el", None);
    add_rule(&mut v, t, "CXTERM-DIC/TONEPY.tit", "leim/quail/TONEPY.el", None);
    add_rule(&mut v, t, "CXTERM-DIC/4Corner.tit", "leim/quail/4Corner.el", None);
    add_rule(&mut v, t, "CXTERM-DIC/ARRAY30.tit", "leim/quail/ARRAY30.el", None);
    add_rule(&mut v, t, "CXTERM-DIC/ECDICT.tit", "leim/quail/ECDICT.el", None);
    add_rule(&mut v, t, "CXTERM-DIC/ETZY.tit", "leim/quail/ETZY.el", None);
    add_rule(&mut v, t, "CXTERM-DIC/Punct-b5.tit", "leim/quail/Punct-b5.el", None);
    add_rule(&mut v, t, "CXTERM-DIC/PY-b5.tit", "leim/quail/PY-b5.el", None);
    add_rule(&mut v, t, "CXTERM-DIC/QJ-b5.tit", "leim/quail/QJ-b5.el", None);
    add_rule(&mut v, t, "CXTERM-DIC/ZOZY.tit", "leim/quail/ZOZY.el", None);
    add_rule(
        &mut v,
        m,
        "MISC-DIC/cangjie-table.b5",
        "leim/quail/tsang-b5.el",
        Some("leim/quail/quick-b5.el"),
    );
    add_rule(
        &mut v,
        m,
        "MISC-DIC/cangjie-table.cns",
        "leim/quail/tsang-cns.el",
        Some("leim/quail/quick-cns.el"),
    );
    add_rule(&mut v, m, "MISC-DIC/pinyin.map", "leim/quail/PY.el", None);
    add_rule(&mut v, m, "MISC-DIC/ziranma.cin", "leim/quail/ZIRANMA.el", None);
    add_rule(&mut v, m, "MISC-DIC/CTLau.html", "leim/quail/CTLau.el", None);
    add_rule(&mut v, m, "MISC-DIC/CTLau-b5.html", "leim/quail/CTLau-b5.el", None);
    add_rule(
        &mut v,
        LeimGenerationKind::Pinyin,
        "MISC-DIC/pinyin.map",
        "language/pinyin.el",
        None,
    );
    proof {
        assert(leim_models(v@) =~= leim_table());
    }
    v
}

/// Each of `rels` seen from `base`.
pub open spec fn all_joined(base: Seq<char>, rels: Seq<Seq<char>>) -> Seq<Seq<char>> {
    rels.map_values(|r: Seq<char>| paths::joined_path(base, r))
}

pub fn join_all(base: &str, rels: &Vec<String>) -> (r: Vec<String>)
    ensures
        text::texts(r@) == all_joined(base@, text::texts(rels@)),
{
    let mut out: Vec<String> = Vec::new();
    let mut i: usize = 0;
    while i < rels.len()
        invariant
            i <= rels.len(),
            out@.len() == i,
            forall|k: int|
                0 <= k < i ==> (#[trigger] out@[k])@ == paths::joined_path(base@, rels@[k]@),
        decreases rels.len() - i,
    {
        out.push(paths::join(base, rels[i].as_str()));
        i += 1;
    }
    proof {
        assert(text::texts(out@) =~= all_joined(base@, text::texts(rels@)));
    }
    out
}

/// What the rules make, rule by rule.
pub open spec fn leim_outputs(rules: Seq<LeimRuleModel>, lisp_root: Seq<char>) -> Seq<Seq<char>>
    decreases rules.len(),
{
    if rules.len() == 0 {
        Seq::empty()
    } else {
        leim_outputs(rules.drop_last(), lisp_root) + all_joined(lisp_root, rules.last().outputs)
    }
}

pub fn leim_generated_output_paths(p: &PipelinePaths) -> (r: Vec<String>)
    ensures
        text::texts(r@) == leim_outputs(leim_table(), p.lisp_root@),
{
    let rules: Vec<LeimGenerationRule> = leim_generation_rules();
    let ghost all = leim_table();
    let mut out: Vec<String> = no_names();
    let mut i: usize = 0;
    while i < rules.len()
        invariant
            i <= rules.len(),
            leim_models(rules@) == all,
            text::texts(out@) == leim_outputs(all.subrange(0, i as int), p.lisp_root@),
        decreases rules.len() - i,
    {
        proof {
            assert(all[i as int] == rules@[i as int].model());
            assert(all.subrange(0, i + 1).drop_last() =~= all.subrange(0, i as int));
        }
        let mut more: Vec<String> = join_all(p.lisp_root.as_str(), &rules[i].output_rels);
        let ghost a = out@;
        let ghost b = more@;
        out.append(&mut more);
        proof {
            assert(text::texts(out@) =~= text::texts(a) + text::texts(b));
        }
        i += 1;
    }
    proof {
        assert(all.subrange(0, all.len() as int) =~= all);
    }
    out
}

/// All files of the input method tree that a build makes, in order, each once.
pub fn generated_leim_source_files(p: &PipelinePaths) -> (r: Vec<String>)
    ensures
        text::texts(r@) == paths::name_set(
            Collation::Path,
            leim_outputs(leim_table(), p.lisp_root@).push(
                paths::joined_path(p.lisp_root@, "leim/leim-list.el"@),
            ),
        ),
{
    let mut files: Vec<String> = leim_generated_output_paths(p);
    name(&mut files, paths::join(p.lisp_root.as_str(), "leim/leim-list.el").as_str());
    paths::name_set_of(Collation::Path, &files)
}

pub fn generated_custom_finder_source_files(p: &PipelinePaths) -> (r: Vec<String>)
    ensures
        text::texts(r@) == seq![
            paths::joined_path(p.lisp_root@, "cus-load.el"@),
            paths::joined_path(p.lisp_root@, "finder-inf.el"@),
        ],
{
    let mut v: Vec<String> = no_names();
    name(&mut v, paths::join(p.lisp_root.as_str(), "cus-load.el").as_str());
    name(&mut v, paths::join(p.lisp_root.as_str(), "finder-inf.el").as_str());
    v
}

/// A grammar, what is made of it, and the generator that does so.
#[derive(Debug, Clone)]
pub struct SemanticGrammarJob {
    pub kind: SemanticGrammarKind,
    pub source: String,
    pub output: String,
    pub grammar: String,
}

pub struct GrammarModel {
    pub kind: SemanticGrammarKind,
    pub source: Seq<char>,
    pub output: Seq<char>,
    pub grammar: Seq<char>,
}

impl SemanticGrammarJob {
    pub open spec fn model(self) -> GrammarModel {
        GrammarModel {
            kind: self.kind,
            source: self.source@,
            output: self.output@,
            grammar: self.grammar@,
        }
    }
}

pub open spec fn grammar_models(v: Seq<SemanticGrammarJob>) -> Seq<GrammarModel> {
    Seq::new(v.len(), |i: int| v[i].model())
}

pub open spec fn bovine(source: Seq<char>, output: Seq<char>) -> GrammarModel {
    GrammarModel {
        kind: SemanticGrammarKind::Bovine,
        source,
        output,
        grammar: "cedet/semantic/bovine/grammar.el"@,
    }
}

pub open spec fn wisent(source: Seq<char>, output: Seq<char>) -> GrammarModel {
    GrammarModel {
        kind: SemanticGrammarKind::Wisent,
        source,
        output,
        grammar: "cedet/semantic/wisent/grammar.el"@,
    }
}

/// The grammars by their names in the tree.
pub open spec fn grammar_table() -> Seq<GrammarModel> {
    seq![
        bovine("c.by"@, "cedet/semantic/bovine/c-by.el"@),
        bovine("make.by"@, "cedet/semantic/bovine/make-by.el"@),
        bovine("scheme.by"@, "cedet/semantic/bovine/scm-by.el"@),
        wisent("grammar.wy"@, "cedet/semantic/grammar-wy.el"@),
        wisent("java-tags.wy"@, "cedet/semantic/wisent/javat-wy.el"@),
        wisent("js.wy"@, "cedet/semantic/wisent/js-wy.el"@),
        wisent("python.wy"@, "cedet/semantic/wisent/python-wy.el"@),
        wisent("srecode-template.wy"@, "cedet/srecode/srt-wy.el"@),
    ]
}

fn add_grammar(
    v: &mut Vec<SemanticGrammarJob>,
    kind: SemanticGrammarKind,
    source: &str,
    output: &str,
    grammar: &str,
)
    ensures
        grammar_models(final(v)@) == grammar_models(old(v)@).push(
            GrammarModel {
                kind: kind,
                source: source@,
                output: output@,
                grammar: grammar@,
            },
        ),
{
    let ghost start = v@;
    v.push(
        SemanticGrammarJob {
            kind: kind,
            source: text::copy(source),
            output: text::copy(output),
            grammar: text::copy(grammar),
        },
    );
    proof {
        assert(grammar_models(v@) =~= grammar_models(start).push(v@.last().model()));
    }
}

/// The grammars by their names in the tree.
pub fn semantic_grammar_rules() -> (r: Vec<SemanticGrammarJob>)
    ensures
        grammar_models(r@) == grammar_table(),
{
    let b: SemanticGrammarKind = SemanticGrammarKind::Bovine;
    let w: SemanticGrammarKind = SemanticGrammarKind::Wisent;
    let bg: &str = "cedet/semantic/bovine/grammar.el";
    let wg: &str = "cedet/semantic/wisent/grammar.el";
    let mut v: Vec<SemanticGrammarJob> = Vec::new();
    proof {
        assert(grammar_models(v@) =~= Seq::empty());
    }
    add_grammar(&mut v, b, "c.by", "cedet/semantic/bovine/c-by.el", bg);
    add_grammar(&mut v, b, "make.by", "cedet/semantic/bovine/make-by.el", bg);
    add_grammar(&mut v, b, "scheme.by", "cedet/semantic/bovine/scm-by.el", bg);
    add_grammar(&mut v, w, "grammar.wy", "cedet/semantic/grammar-wy.el", wg);
    add_grammar(&mut v, w, "java-tags.wy", "cedet/semantic/wisent/javat-wy.el", wg);
    add_grammar(&mut v, w, "js.wy", "cedet/semantic/wisent/js-wy.el", wg);
    add_grammar(&mut v, w, "python.wy", "cedet/semantic/wisent/python-wy.el", wg);
    add_grammar(&mut v, w, "srecode-template.wy", "cedet/srecode/srt-wy.el", wg);
    proof {
        assert(grammar_models(v@) =~= grammar_table());
    }
    v
}

/// A grammar where a build finds it.
pub open spec fn placed_grammar(p: PipelinePaths, g: GrammarModel) -> GrammarModel {
    GrammarModel {
        kind: g.kind,
        source: paths::joined_path(p.admin_grammars_root@, g.source),
        output: paths::joined_path(p.lisp_root@, g.output),
        grammar: paths::joined_path(p.lisp_root@, g.grammar),
    }
}

pub fn semantic_grammar_targets(p: &PipelinePaths) -> (r: Vec<SemanticGrammarJob>)
    ensures
        grammar_models(r@) == grammar_table().map_values(|g: GrammarModel| placed_grammar(*p, g)),
{
    let rules: Vec<SemanticGrammarJob> = semantic_grammar_rules();
    let ghost all = grammar_table();
    let ghost goal = all.map_values(|g: GrammarModel| placed_grammar(*p, g));
    let mut out: Vec<SemanticGrammarJob> = Vec::new();
    let mut i: usize = 0;
    proof {
        assert(grammar_models(out@) =~= goal.subrange(0, 0));
    }
    while i < rules.len()
        invariant
            i <= rules.len(),
            grammar_models(rules@) == all,
            goal == all.map_values(|g: GrammarModel| placed_grammar(*p, g)),
            grammar_models(out@) == goal.subrange(0, i as int),
        decreases rules.len() - i,
    {
        let g: &SemanticGrammarJob = &rules[i];
        proof {
            assert(all[i as int] == rules@[i as int].model());
            assert(goal.subrange(0, i + 1) =~= goal.subrange(0, i as int).push(goal[i as int]));
        }
        add_grammar(
            &mut out,
            g.kind,
            paths::join(p.admin_grammars_root.as_str(), g.source.as_str()).as_str(),
            paths::join(p.lisp_root.as_str(), g.output.as_str()).as_str(),
            paths::join(p.lisp_root.as_str(), g.grammar.as_str()).as_str(),
        );
        i += 1;
    }
    proof {
        assert(goal.subrange(0, goal.len() as int) =~= goal);
    }
    out
}

/// The Unicode property files that the generator's table names.
pub fn unidata_generated_lisp_files(p: &PipelinePaths, generator: &str) -> (r: Vec<String>)
    ensures
        text::texts(r@) == all_joined(
            paths::joined_path(p.lisp_root@, "international"@),
            makefile::unidata_names(text::lines_of(generator@)),
        ),
{
    let names: Vec<String> = makefile::unidata_generated_lisp_file_names_from_str(generator);
    let dir: String = paths::join(p.lisp_root.as_str(), "international");
    join_all(dir.as_str(), &names)
}

pub open spec fn unidata_fixed(lisp_root: Seq<char>) -> Seq<Seq<char>> {
    seq![
        paths::joined_path(lisp_root, "international/charscript.el"@),
        paths::joined_path(lisp_root, "international/emoji-zwj.el"@),
        paths::joined_path(lisp_root, "international/charprop.el"@),
        paths::joined_path(lisp_root, "international/emoji-labels.el"@),
        paths::joined_path(lisp_root, "international/idna-mapping.el"@),
        paths::joined_path(lisp_root, "international/uni-confusable.el"@),
        paths::joined_path(lisp_root, "international/uni-scripts.el"@),
    ]
}

/// All Unicode data files that a build makes, in order, each once.
pub fn generated_unidata_source_files(p: &PipelinePaths, generator: &str) -> (r: Vec<String>)
    ensures
        text::texts(r@) == paths::name_set(
            Collation::Path,
            unidata_fixed(p.lisp_root@) + all_joined(
                paths::joined_path(p.lisp_root@, "international"@),
                makefile::unidata_names(text::lines_of(generator@)),
            ),
        ),
{
    let root: &str = p.lisp_root.as_str();
    let mut v: Vec<String> = no_names();
    name(&mut v, paths::join(root, "international/charscript.el").as_str());
    name(&mut v, paths::join(root, "international/emoji-zwj.el").as_str());
    name(&mut v, paths::join(root, "international/charprop.el").as_str());
    name(&mut v, paths::join(root, "international/emoji-labels.el").as_str());
    name(&mut v, paths::join(root, "international/idna-mapping.el").as_str());
    name(&mut v, paths::join(root, "international/uni-confusable.el").as_str());
    name(&mut v, paths::join(root, "international/uni-scripts.el").as_str());
    let mut more: Vec<String> = unidata_generated_lisp_files(p, generator);
    proof {
        assert(text::texts(v@) =~= unidata_fixed(p.lisp_root@));
    }
    let ghost a = v@;
    let ghost b = more@;
    v.append(&mut more);
    proof {
        assert(text::texts(v@) =~= text::texts(a) + text::texts(b));
    }
    paths::name_set_of(Collation::Path, &v)
}

pub fn generated_unidata_admin_files(p: &PipelinePaths) -> (r: Vec<String>)
    ensures
        text::texts(r@) == seq![
            paths::joined_path(p.admin_unidata_root@, "unidata.txt"@),
            paths::joined_path(p.admin_unidata_root@, "unidata-gen.elc"@),
            paths::joined_path(p.admin_unidata_root@, "uvs.elc"@),
        ],
{
    let root: &str = p.admin_unidata_root.as_str();
    let mut v: Vec<String> = no_names();
    name(&mut v, paths::join(root, "unidata.txt").as_str());
    name(&mut v, paths::join(root, "unidata-gen.elc").as_str());
    name(&mut v, paths::join(root, "uvs.elc").as_str());
    v
}

/// The primary autoload files, which are not removed with the secondary ones.
pub open spec fn is_primary_loaddefs(rel: Seq<Seq<char>>) -> bool {
    ||| rel =~= seq!["loaddefs.el"@]
    ||| rel =~= seq!["ldefs-boot.el"@]
    ||| rel =~= seq!["theme-loaddefs.el"@]
    ||| rel =~= seq!["emacs-lisp"@, "cl-loaddefs.el"@]
}

pub open spec fn is_secondary_loaddefs(lisp_root: Seq<char>, path: Seq<char>) -> bool {
    match (paths::relative_components(lisp_root, path), paths::file_name_of(path)) {
        (Some(rel), Some(file)) => !is_primary_loaddefs(rel) && (file == "loaddefs.el"@
            || text::ends_with(file, "-loaddefs.el"@)),
        _ => false,
    }
}

pub fn is_generated_secondary_loaddefs_file(lisp_root: &str, path: &str) -> (r: bool)
    ensures
        r == is_secondary_loaddefs(lisp_root@, path@),
{
    let rel: Vec<String> = match paths::relative_to(lisp_root, path) {
        Some(v) => v,
        None => {
            return false;
        },
    };
    let primary: bool = if rel.len() == 1 {
        text::same(rel[0].as_str(), "loaddefs.el") || text::same(rel[0].as_str(), "ldefs-boot.el")
            || text::same(rel[0].as_str(), "theme-loaddefs.el")
    } else if rel.len() == 2 {
        text::same(rel[0].as_str(), "emacs-lisp") && text::same(rel[1].as_str(), "cl-loaddefs.el")
    } else {
        false
    };
    proof {
        let t = text::texts(rel@);
        assert(forall|i: int| 0 <= i < t.len() ==> t[i] == #[trigger] rel@[i]@);
        assert(primary == is_primary_loaddefs(t));
    }
    if primary {
        return false;
    }
    match paths::file_name(path) {
        None => false,
        Some(file) => text::same(file.as_str(), "loaddefs.el") || text::finishes_with(
            file.as_str(),
            "-loaddefs.el",
        ),
    }
}

/// The secondary autoload files among `files`, in order.
pub fn generated_secondary_loaddefs_files(lisp_root: &str, files: &Vec<String>) -> (r: Vec<String>)
    ensures
        text::texts(r@) == paths::in_order(
            Collation::Path,
            text::texts(files@).filter(|f: Seq<char>| is_secondary_loaddefs(lisp_root@, f)),
        ),
{
    let keep = |f: &str| -> (b: bool)
        ensures
            b == is_secondary_loaddefs(lisp_root@, f@),
        { is_generated_secondary_loaddefs_file(lisp_root, f) };
    let found: Vec<String> = paths::kept(
        files,
        keep,
        Ghost(|f: Seq<char>| is_secondary_loaddefs(lisp_root@, f)),
    );
    paths::sorted(Collation::Path, &found)
}

/// The compiled files among `files`, in order.
pub fn generated_lisp_bytecode_files(files: &Vec<String>) -> (r: Vec<String>)
    ensures
        text::texts(r@) == paths::in_order(
            Collation::Path,
            text::texts(files@).filter(|f: Seq<char>| paths::extension_of(f) == Some("elc"@)),
        ),
{
    let keep = |f: &str| -> (b: bool)
        ensures
            b == (paths::extension_of(f@) == Some("elc"@)),
        { paths::has_extension(f, "elc") };
    let found: Vec<String> = paths::kept(
        files,
        keep,
        Ghost(|f: Seq<char>| paths::extension_of(f) == Some("elc"@)),
    );
    paths::sorted(Collation::Path, &found)
}

/// What a scan of the Lisp directories is for.
#[derive(Debug, Clone, Copy, PartialEq, Eq, Structural)]
pub enum DirScan {
    Loaddefs,
    CustomDependencies,
    FinderData,
    SubdirsUpdate,
}

pub open spec fn is_obsolete_or_term(rel: Seq<Seq<char>>) -> bool {
    rel =~= seq!["obsolete"@] || rel =~= seq!["term"@]
}

/// A directory, told by its components below the Lisp directory, that a scan takes in.
pub open spec fn scans_relative(scan: DirScan, rel: Seq<Seq<char>>) -> bool {
    match scan {
        DirScan::Loaddefs => !is_obsolete_or_term(rel),
        DirScan::CustomDependencies => !is_obsolete_or_term(rel),
        DirScan::FinderData => !is_obsolete_or_term(rel) && !(rel.len() > 0 && rel[0] == "leim"@),
        DirScan::SubdirsUpdate => !(rel.len() > 0 && (text::starts_with(rel[0], "cedet"@)
            || text::starts_with(rel[0], "leim"@))),
    }
}

pub open spec fn scans(scan: DirScan, lisp_root: Seq<char>, dir: Seq<char>) -> bool {
    match paths::relative_components(lisp_root, dir) {
        Some(rel) => scans_relative(scan, rel),
        None => true,
    }
}

fn dir_is_scanned(scan: DirScan, lisp_root: &str, dir: &str) -> (r: bool)
    ensures
        r == scans(scan, lisp_root@, dir@),
{
    let rel: Vec<String> = match paths::relative_to(lisp_root, dir) {
        Some(v) => v,
        None => {
            return true;
        },
    };
    proof {
        let t = text::texts(rel@);
        assert(forall|i: int| 0 <= i < t.len() ==> t[i] == #[trigger] rel@[i]@);
    }
    let out: bool = rel.len() == 1 && (text::same(rel[0].as_str(), "obsolete") || text::same(
        rel[0].as_str(),
        "term",
    ));
    match scan {
        DirScan::Loaddefs => !out,
        DirScan::CustomDependencies => !out,
        DirScan::FinderData => !out && !(rel.len() > 0 && text::same(rel[0].as_str(), "leim")),
        DirScan::SubdirsUpdate => !(rel.len() > 0 && (text::begins_with(rel[0].as_str(), "cedet")
            || text::begins_with(rel[0].as_str(), "leim"))),
    }
}

/// The directories of `dirs` that a scan takes in, in order.
pub open spec fn scanned(scan: DirScan, lisp_root: Seq<char>, dirs: Seq<Seq<char>>) -> Seq<Seq<char>> {
    paths::in_order(
        Collation::Path,
        dirs.filter(|d: Seq<char>| scans(scan, lisp_root, d)),
    )
}

pub fn lisp_dirs_matching_gnu_subdirs(scan: DirScan, lisp_root: &str, dirs: &Vec<String>) -> (r:
    Vec<String>)
    ensures
        text::texts(r@) == scanned(scan, lisp_root@, text::texts(dirs@)),
{
    let keep = |d: &str| -> (b: bool)
        ensures
            b == scans(scan, lisp_root@, d@),
        { dir_is_scanned(scan, lisp_root, d) };
    let found: Vec<String> = paths::kept(
        dirs,
        keep,
        Ghost(|d: Seq<char>| scans(scan, lisp_root@, d)),
    );
    paths::sorted(Collation::Path, &found)
}

/// A subdirectory that a load path leaves out.
pub open spec fn ignored_name(n: Seq<char>) -> bool {
    ||| text::starts_with(n, "."@)
    ||| text::ends_with(n, ".elc"@)
    ||| text::ends_with(n, ".el"@)
    ||| n == "term"@
    ||| n == "RCS"@
    ||| n == "CVS"@
    ||| n == "Old"@
    ||| text::starts_with(n, "="@)
    ||| text::ends_with(n, "~"@)
    ||| text::ends_with(n, ".orig"@)
    ||| text::ends_with(n, ".rej"@)
}

pub fn update_subdirs_ignores_name(n: &str) -> (r: bool)
    ensures
        r == ignored_name(n@),
{
    text::begins_with(n, ".") || text::finishes_with(n, ".elc") || text::finishes_with(n, ".el")
        || text::same(n, "term") || text::same(n, "RCS") || text::same(n, "CVS") || text::same(
        n,
        "Old",
    ) || text::begins_with(n, "=") || text::finishes_with(n, "~") || text::finishes_with(n, ".orig")
        || text::finishes_with(n, ".rej")
}

/// The load path entries for the subdirectories, read in order: each goes before
/// those read so far, but `obsolete` goes behind them.
pub open spec fn subdirs_list(names: Seq<Seq<char>>) -> Seq<char>
    decreases names.len(),
{
    if names.len() == 0 {
        Seq::empty()
    } else {
        let before = subdirs_list(names.drop_last());
        let n = names.last();
        if ignored_name(n) {
            before
        } else if n == "obsolete"@ {
            before + (" \""@ + n + "\""@)
        } else {
            "\""@ + n + "\" "@ + before
        }
    }
}

/// The load path entries for the subdirectories `dirs` of a directory.
pub fn update_subdirs_expression(dirs: &Vec<String>) -> (r: String)
    ensures
        r@ == subdirs_list(paths::in_order(Collation::Text, text::texts(dirs@))),
{
    let names: Vec<String> = paths::sorted(Collation::Text, dirs);
    let ghost all = text::texts(names@);
    let mut out: String = String::new();
    let mut i: usize = 0;
    while i < names.len()
        invariant
            i <= names.len(),
            all == text::texts(names@),
            out@ == subdirs_list(all.subrange(0, i as int)),
        decreases names.len() - i,
    {
        proof {
            assert(all[i as int] == names@[i as int]@);
            assert(all.subrange(0, i + 1).drop_last() =~= all.subrange(0, i as int));
        }
        let n: &str = names[i].as_str();
        if !update_subdirs_ignores_name(n) {
            let ghost before = out@;
            if text::same(n, "obsolete") {
                out.append(" \"");
                out.append(n);
                out.append("\"");
                proof {
                    assert(out@ =~= before + (" \""@ + n@ + "\""@));
                }
            } else {
                let mut front: String = text::copy("\"");
                front.append(n);
                front.append("\" ");
                front.append(out.as_str());
                out = front;
            }
        }
        i += 1;
    }
    proof {
        assert(all.subrange(0, all.len() as int) =~= all);
    }
    out
}

pub open spec fn subdirs_head() -> Seq<char> {
    ";; In load-path, after this directory should come  -*- lexical-binding: t -*-\n;; certain of its subdirectories.  Here we specify them.\n(normal-top-level-add-to-load-path '("@
}

pub open spec fn subdirs_tail() -> Seq<char> {
    "))\n;; Local Variables:\n;; version-control: never\n;; no-byte-compile: t\n;; no-update-autoloads: t\n;; End:\n"@
}

/// The text of a `subdirs.el` with the given entries.
pub fn update_subdirs_contents(subdirs: &str) -> (r: String)
    ensures
        r@ == subdirs_head() + subdirs@ + subdirs_tail(),
{
    let mut out: String = text::copy(
        ";; In load-path, after this directory should come  -*- lexical-binding: t -*-\n;; certain of its subdirectories.  Here we specify them.\n(normal-top-level-add-to-load-path '(",
    );
    out.append(subdirs);
    out.append(
        "))\n;; Local Variables:\n;; version-control: never\n;; no-byte-compile: t\n;; no-update-autoloads: t\n;; End:\n",
    );
    out
}

/// What is to be done about a `subdirs.el`.
pub enum SubdirsAction {
    Keep,
    Remove,
    Write(String),
}

#[derive(Debug, Clone, Copy, PartialEq, Eq, Structural)]
pub enum UpdateSubdirsChange {
    Unchanged,
    Written,
    Removed,
}

/// What is to be done about the `subdirs.el` of a directory with the
/// subdirectories `dirs`; `existing` is its text, where it is there.
pub fn update_subdirs_file(dirs: &Vec<String>, existing: Option<&str>) -> (r: SubdirsAction)
    ensures
        ({
            let list = subdirs_list(paths::in_order(Collation::Text, text::texts(dirs@)));
            let wanted = subdirs_head() + list + subdirs_tail();
            if list.len() == 0 {
                if existing is Some {
                    r is Remove
                } else {
                    r is Keep
                }
            } else if existing matches Some(e) && e@ == wanted {
                r is Keep
            } else {
                r matches SubdirsAction::Write(t) && t@ == wanted
            }
        }),
{
    let list: String = update_subdirs_expression(dirs);
    if list.as_str().is_empty() {
        return match existing {
            Some(_) => SubdirsAction::Remove,
            None => SubdirsAction::Keep,
        };
    }
    let wanted: String = update_subdirs_contents(list.as_str());
    match existing {
        Some(e) => if text::same(e, wanted.as_str()) {
            SubdirsAction::Keep
        } else {
            SubdirsAction::Write(wanted)
        },
        None => SubdirsAction::Write(wanted),
    }
}

/// What an action is counted as.
pub fn subdirs_change(action: &SubdirsAction) -> (r: UpdateSubdirsChange)
    ensures
        r == match *action {
            SubdirsAction::Keep => UpdateSubdirsChange::Unchanged,
            SubdirsAction::Remove => UpdateSubdirsChange::Removed,
            SubdirsAction::Write(_) => UpdateSubdirsChange::Written,
        },
{
    match action {
        SubdirsAction::Keep => UpdateSubdirsChange::Unchanged,
        SubdirsAction::Remove => UpdateSubdirsChange::Removed,
        SubdirsAction::Write(_) => UpdateSubdirsChange::Written,
    }
}

/// How many semicolons a line starts with.
pub open spec fn leading_semicolons(s: Seq<char>) -> int
    decreases s.len(),
{
    if s.len() == 0 || s[0] != ';' {
        0
    } else {
        1 + leading_semicolons(s.subrange(1, s.len() as int))
    }
}

pub proof fn lemma_leading_semicolons(s: Seq<char>, k: int)
    requires
        0 <= k <= s.len(),
        forall|j: int| 0 <= j < k ==> s[j] == ';',
        k < s.len() ==> s[k] != ';',
    ensures
        leading_semicolons(s) == k,
    decreases s.len(),
{
    if k > 0 {
        let t = s.subrange(1, s.len() as int);
        assert forall|j: int| 0 <= j < k - 1 implies t[j] == ';' by {
            assert(t[j] == s[j + 1]);
        }
        if k < s.len() {
            assert(t[k - 1] == s[k]);
        }
        lemma_leading_semicolons(t, k - 1);
    }
}

/// What a line of the input method supplement adds: itself, or, for a comment that
/// says so, the rest of it behind its semicolons.
pub open spec fn supplement_line(line: Seq<char>) -> Seq<char> {
    let n = leading_semicolons(line);
    let rest = line.subrange(n, line.len() as int);
    if n == 0 {
        line.push('\n')
    } else {
        match makefile::stripped(rest, "inc "@) {
            Some(payload) => (line.subrange(0, n).push(' ') + payload).push('\n'),
            None => Seq::empty(),
        }
    }
}

pub open spec fn supplement(lines: Seq<Seq<char>>) -> Seq<char>
    decreases lines.len(),
{
    if lines.len() == 0 {
        Seq::empty()
    } else {
        supplement(lines.drop_last()) + supplement_line(lines.last())
    }
}

/// What the input method supplement `contents` adds to the list of input methods.
pub fn leim_ext_append_contents(contents: &str) -> (r: String)
    ensures
        r@ == supplement(text::lines_of(contents@)),
{
    let lines: Vec<String> = text::lines(contents);
    let ghost all = text::lines_of(contents@);
    let mut out: String = String::new();
    let mut i: usize = 0;
    while i < lines.len()
        invariant
            i <= lines.len(),
            text::texts(lines@) == all,
            out@ == supplement(all.subrange(0, i as int)),
        decreases lines.len() - i,
    {
        let line: Vec<char> = text::chars_of(lines[i].as_str());
        let ghost before = out@;
        proof {
            assert(all[i as int] == lines@[i as int]@);
            assert(all.subrange(0, i + 1).drop_last() =~= all.subrange(0, i as int));
        }
        let mut n: usize = 0;
        while n < line.len() && line[n] == ';'
            invariant
                n <= line.len(),
                forall|j: int| 0 <= j < n ==> line@[j] == ';',
            decreases line.len() - n,
        {
            n += 1;
        }
        proof {
            lemma_leading_semicolons(line@, n as int);
        }
        if n == 0 {
            out.append(lines[i].as_str());
            out.push('\n');
            proof {
                assert(out@ =~= before + line@.push('\n'));
            }
        } else {
            let rest: &[char] = slice_subrange(line.as_slice(), n, line.len());
            match makefile::strip_prefix(rest, "inc ") {
                Some(payload) => {
                    out.append(text::string_of(slice_subrange(line.as_slice(), 0, n)).as_str());
                    out.push(' ');
                    out.append(text::string_of(payload).as_str());
                    out.push('\n');
                    proof {
                        assert(out@ =~= before + (line@.subrange(0, n as int).push(' ')
                            + payload@).push('\n'));
                    }
                },
                None => {
                    proof {
                        assert(out@ =~= before + Seq::empty());
                    }
                },
            }
        }
        i += 1;
    }
    proof {
        assert(all.subrange(0, all.len() as int) =~= all);
    }
    out
}

/// `s` with every carriage return before a newline left out.
pub open spec fn unix_lines(s: Seq<char>) -> Seq<char>
    decreases s.len(),
{
    if s.len() == 0 {
        Seq::empty()
    } else if s.len() > 1 && s[0] == '\r' && s[1] == '\n' {
        seq!['\n'] + unix_lines(s.subrange(2, s.len() as int))
    } else {
        seq![s[0]] + unix_lines(s.subrange(1, s.len() as int))
    }
}

/// The text with newlines in place of carriage return and newline; `None` where it
/// is that already.
pub fn normalize_lisp_line_endings(contents: &str) -> (r: Option<String>)
    ensures
        match r {
            Some(t) => text::contains(contents@, "\r\n"@) && t@ == unix_lines(contents@),
            None => !text::contains(contents@, "\r\n"@),
        },
{
    if !text::has(contents, "\r\n") {
        return None;
    }
    let chars: Vec<char> = text::chars_of(contents);
    let mut out: String = String::new();
    let mut i: usize = 0;
    proof {
        assert(chars@.subrange(0, chars@.len() as int) =~= chars@);
        assert(out@ + unix_lines(chars@) =~= unix_lines(chars@));
    }
    while i < chars.len()
        invariant
            i <= chars.len(),
            chars@ == contents@,
            out@ + unix_lines(chars@.subrange(i as int, chars@.len() as int)) == unix_lines(
                contents@,
            ),
        decreases chars.len() - i,
    {
        let ghost rest = chars@.subrange(i as int, chars@.len() as int);
        let ghost before = out@;
        if chars[i] == '\r' && i + 1 < chars.len() && chars[i + 1] == '\n' {
            out.push('\n');
            proof {
                let tail = rest.subrange(2, rest.len() as int);
                assert(tail =~= chars@.subrange(i + 2, chars@.len() as int));
                assert(before.push('\n') + unix_lines(tail) =~= before + (seq!['\n'] + unix_lines(
                    tail,
                )));
            }
            i += 2;
        } else {
            out.push(chars[i]);
            proof {
                let tail = rest.subrange(1, rest.len() as int);
                assert(tail =~= chars@.subrange(i + 1, chars@.len() as int));
                assert(before.push(rest[0]) + unix_lines(tail) =~= before + (seq![rest[0]]
                    + unix_lines(tail)));
            }
            i += 1;
        }
    }
    proof {
        assert(out@ + unix_lines(chars@.subrange(i as int, chars@.len() as int)) =~= out@);
    }
    Some(out)
}

/// Text in which no carriage return stands before a newline is left as it is.
pub proof fn law_unix_text_is_kept(s: Seq<char>)
    requires
        forall|i: int| 0 <= i < s.len() - 1 ==> !(s[i] == '\r' && #[trigger] s[i + 1] == '\n'),
    ensures
        unix_lines(s) == s,
    decreases s.len(),
{
    if s.len() > 0 {
        let t = s.subrange(1, s.len() as int);
        assert(s.len() > 1 ==> !(s[0] == '\r' && s[0int + 1] == '\n'));
        assert forall|i: int| 0 <= i < t.len() - 1 implies !(t[i] == '\r' && #[trigger] t[i + 1]
            == '\n') by {
            assert(t[i] == s[i + 1]);
            assert(t[i + 1] == s[(i + 1) + 1]);
        }
        law_unix_text_is_kept(t);
        assert(seq![s[0]] + t =~= s);
    } else {
        assert(unix_lines(s) =~= s);
    }
}

/// The first place of `needle`, or a negative number.
pub open spec fn place_of(s: Seq<char>, needle: Seq<char>) -> Option<int> {
    if text::contains(s, needle) {
        Some(choose|i: int| text::first_at(s, needle, 0, i))
    } else {
        None
    }
}

pub open spec fn marked_not_compiled(s: Seq<char>) -> Seq<char> {
    let needle = ";; Local Variables:"@;
    match place_of(s, needle) {
        Some(i) => s.subrange(0, i + needle.len()).push('\n') + ";; no-byte-compile: t"@
            + s.subrange(i + needle.len(), s.len() as int),
        None => (if text::ends_with(s, "\n"@) {
            s
        } else {
            s.push('\n')
        }) + ";; Local Variables:\n"@ + ";; no-byte-compile: t\n"@ + ";; End:\n"@,
    }
}

/// Says in the local variables of `contents` that it is not to be compiled.
pub fn inject_no_byte_compile(contents: &str) -> (r: String)
    ensures
        r@ == marked_not_compiled(contents@),
{
    let chars: Vec<char> = text::chars_of(contents);
    let needle: Vec<char> = text::chars_of(";; Local Variables:");
    match text::find_from(chars.as_slice(), needle.as_slice(), 0) {
        Some(i) => {
            proof {
                assert(text::contains(contents@, needle@));
                let j = choose|j: int| text::first_at(contents@, needle@, 0, j);
                assert(text::first_at(contents@, needle@, 0, i as int));
                assert(i == j);
                assert(i + needle.len() <= chars.len());
            }
            let cut: usize = i + needle.len();
            let mut out: String = text::string_of(slice_subrange(chars.as_slice(), 0, cut));
            out.push('\n');
            out.append(";; no-byte-compile: t");
            out.append(
                text::string_of(slice_subrange(chars.as_slice(), cut, chars.len())).as_str(),
            );
            out
        },
        None => {
            proof {
                assert(!text::contains(contents@, needle@)) by {
                    if text::contains(contents@, needle@) {
                        let j = choose|j: int| text::occurs_at(contents@, needle@, j);
                        assert(0 <= j);
                    }
                }
            }
            let mut out: String = text::copy(contents);
            if !text::finishes_with(contents, "\n") {
                out.push('\n');
            }
            out.append(";; Local Variables:\n");
            out.append(";; no-byte-compile: t\n");
            out.append(";; End:\n");
            out
        },
    }
}

/// What ends the scraped part of the autoloads: a page break before its comment.
pub const LOADDEFS_END_BOUNDARY: &'static str = "\n\u{c}\n;;; End of scraped data";

/// An autoload whose documentation stands on a line of its own.
pub const GNU_EBROWSE_DECLARATION_AUTOLOAD: &'static str =
    "(autoload 'ebrowse-tags-find-declaration \"ebrowse\"\n\"Find declaration of member at point.\" t)";

/// A documentation string that slipped to the end of the scraped part.
pub const MISPLACED_EBROWSE_DECLARATION_DOCSTRING: &'static str =
    "Find declaration of member at point.\"\u{c}\n;;; End of scraped data";

/// Checks the autoloads that were just made.
pub fn validate_primary_loaddefs_contents(contents: &str) -> (r: Result<(), String>)
    ensures
        if text::contains(contents@, MISPLACED_EBROWSE_DECLARATION_DOCSTRING@) {
            r matches Err(e) && e@
                == "generated loaddefs.el moved an ebrowse docstring to the final page"@
        } else if !text::contains(contents@, LOADDEFS_END_BOUNDARY@) {
            r matches Err(e) && e@
                == "generated loaddefs.el is missing GNU end boundary \"\\n\\u{c}\\n;;; End of scraped data\""@
        } else if !text::contains(contents@, GNU_EBROWSE_DECLARATION_AUTOLOAD@) {
            r matches Err(e) && e@
                == "generated loaddefs.el is missing GNU ebrowse autoload docstring layout"@
        } else {
            r is Ok
        },
{
    if text::has(contents, MISPLACED_EBROWSE_DECLARATION_DOCSTRING) {
        return Err(
            text::copy("generated loaddefs.el moved an ebrowse docstring to the final page"),
        );
    }
    if !text::has(contents, LOADDEFS_END_BOUNDARY) {
        return Err(
            text::copy(
                "generated loaddefs.el is missing GNU end boundary \"\\n\\u{c}\\n;;; End of scraped data\"",
            ),
        );
    }
    if !text::has(contents, GNU_EBROWSE_DECLARATION_AUTOLOAD) {
        return Err(
            text::copy("generated loaddefs.el is missing GNU ebrowse autoload docstring layout"),
        );
    }
    Ok(())
}

/// One directory of the Lisp tree and the paths of the files in it.
#[derive(Debug, Clone)]
pub struct DirListing {
    pub dir: String,
    pub files: Vec<String>,
}

/// A Lisp source by its name: no hidden file.
pub open spec fn is_source_name(path: Seq<char>) -> bool {
    &&& paths::extension_of(path) == Some("el"@)
    &&& !(paths::file_name_of(path) matches Some(n) && text::starts_with(n, "."@))
}

fn names_source(path: &str) -> (r: bool)
    ensures
        r == is_source_name(path@),
{
    if !paths::has_extension(path, "el") {
        return false;
    }
    match paths::file_name(path) {
        Some(n) => !text::begins_with(n.as_str(), "."),
        None => true,
    }
}

/// The sources in one directory that may be compiled, in order. A source that is
/// not compiled and cannot be read is an error.
pub open spec fn dir_sources(disk: Disk, files: Seq<Seq<char>>) -> Option<Seq<Seq<char>>>
    decreases files.len(),
{
    if files.len() == 0 {
        Some(Seq::empty())
    } else {
        match dir_sources(disk, files.drop_last()) {
            None => None,
            Some(before) => {
                let f = files.last();
                if !is_source_name(f) {
                    Some(before)
                } else if !disk.file_at(disk::elc(f)) && disk.text_of(f) is None {
                    None
                } else if disk::considered(disk, f) {
                    Some(before.push(f))
                } else {
                    Some(before)
                }
            },
        }
    }
}

/// Appends the sources of one directory that may be compiled; false where one
/// cannot be read.
fn push_dir_sources(disk: &Disk, files: &Vec<String>, out: &mut Vec<String>) -> (r: bool)
    ensures
        match dir_sources(*disk, paths::in_order(Collation::Path, text::texts(files@))) {
            None => !r,
            Some(s) => r && text::texts(final(out)@) == text::texts(old(out)@) + s,
        },
{
    let ordered: Vec<String> = paths::sorted(Collation::Path, files);
    let ghost all = text::texts(ordered@);
    let ghost start = text::texts(out@);
    let mut i: usize = 0;
    proof {
        assert(start + Seq::<Seq<char>>::empty() =~= start);
    }
    while i < ordered.len()
        invariant
            i <= ordered.len(),
            all == text::texts(ordered@),
            dir_sources(*disk, all.subrange(0, i as int)) is Some,
            text::texts(out@) == start + dir_sources(*disk, all.subrange(0, i as int))->0,
            all == paths::in_order(Collation::Path, text::texts(files@)),
        decreases ordered.len() - i,
    {
        proof {
            assert(all[i as int] == ordered@[i as int]@);
            assert(all.subrange(0, i + 1).drop_last() =~= all.subrange(0, i as int));
        }
        let f: &str = ordered[i].as_str();
        if names_source(f) {
            match disk::compile_main_should_consider(disk, f) {
                None => {
                    proof {
                        lemma_unreadable_stays(*disk, all, i + 1);
                    }
                    return false;
                },
                Some(b) => {
                    if b {
                        proof {
                            let s = dir_sources(*disk, all.subrange(0, i as int))->0;
                            assert((start + s).push(f@) =~= start + s.push(f@));
                        }
                        name(out, f);
                    }
                },
            }
        }
        i += 1;
    }
    proof {
        assert(all.subrange(0, all.len() as int) =~= all);
    }
    true
}

proof fn lemma_unreadable_stays(disk: Disk, files: Seq<Seq<char>>, n: int)
    requires
        0 <= n <= files.len(),
        dir_sources(disk, files.subrange(0, n)) is None,
    ensures
        dir_sources(disk, files) is None,
    decreases files.len() - n,
{
    if n < files.len() {
        assert(files.subrange(0, n + 1).drop_last() =~= files.subrange(0, n));
        lemma_unreadable_stays(disk, files, n + 1);
    } else {
        assert(files.subrange(0, n) =~= files);
    }
}

/// The files of the first listing for `dir`.
pub open spec fn listed_files(v: Seq<DirListing>, dir: Seq<char>) -> Seq<Seq<char>>
    decreases v.len(),
{
    if v.len() == 0 {
        Seq::empty()
    } else if v[0].dir@ == dir {
        text::texts(v[0].files@)
    } else {
        listed_files(v.subrange(1, v.len() as int), dir)
    }
}

fn files_in(listings: &Vec<DirListing>, dir: &str) -> (r: Option<usize>)
    ensures
        match r {
            Some(i) => i < listings@.len() && listed_files(listings@, dir@) == text::texts(
                listings@[i as int].files@,
            ),
            None => listed_files(listings@, dir@) == Seq::<Seq<char>>::empty(),
        },
{
    let mut i: usize = 0;
    proof {
        assert(listings@.subrange(0, listings@.len() as int) =~= listings@);
    }
    while i < listings.len()
        invariant
            i <= listings.len(),
            listed_files(listings@, dir@) == listed_files(
                listings@.subrange(i as int, listings@.len() as int),
                dir@,
            ),
        decreases listings.len() - i,
    {
        if text::same(listings[i].dir.as_str(), dir) {
            return Some(i);
        }
        proof {
            let rest = listings@.subrange(i as int, listings@.len() as int);
            assert(rest.subrange(1, rest.len() as int) =~= listings@.subrange(
                i + 1,
                listings@.len() as int,
            ));
        }
        i += 1;
    }
    None
}

/// The sources that may be compiled: directory by directory in order, and in each
/// directory in order.
pub open spec fn tree_sources(disk: Disk, listings: Seq<DirListing>, dirs: Seq<Seq<char>>) -> Option<
    Seq<Seq<char>>,
>
    decreases dirs.len(),
{
    if dirs.len() == 0 {
        Some(Seq::empty())
    } else {
        match tree_sources(disk, listings, dirs.drop_last()) {
            None => None,
            Some(before) => match dir_sources(
                disk,
                paths::in_order(Collation::Path, listed_files(listings, dirs.last())),
            ) {
                None => None,
                Some(s) => Some(before + s),
            },
        }
    }
}

pub open spec fn listing_dirs(v: Seq<DirListing>) -> Seq<Seq<char>> {
    Seq::new(v.len(), |i: int| v[i].dir@)
}

proof fn lemma_tree_unreadable(
    disk: Disk,
    listings: Seq<DirListing>,
    dirs: Seq<Seq<char>>,
    n: int,
)
    requires
        0 <= n <= dirs.len(),
        tree_sources(disk, listings, dirs.subrange(0, n)) is None,
    ensures
        tree_sources(disk, listings, dirs) is None,
    decreases dirs.len() - n,
{
    if n < dirs.len() {
        assert(dirs.subrange(0, n + 1).drop_last() =~= dirs.subrange(0, n));
        lemma_tree_unreadable(disk, listings, dirs, n + 1);
    } else {
        assert(dirs.subrange(0, n) =~= dirs);
    }
}

/// The sources of the tree that may be compiled; `None` where one that is not
/// compiled cannot be read.
pub fn compile_main_sources(disk: &Disk, listings: &Vec<DirListing>) -> (r: Option<Vec<String>>)
    ensures
        match tree_sources(
            *disk,
            listings@,
            paths::in_order(Collation::Path, listing_dirs(listings@)),
        ) {
            None => r is None,
            Some(s) => r matches Some(v) && text::texts(v@) == s,
        },
{
    let mut dirs: Vec<String> = no_names();
    let mut i: usize = 0;
    proof {
        assert(text::texts(dirs@) =~= listing_dirs(listings@).subrange(0, 0));
    }
    while i < listings.len()
        invariant
            i <= listings.len(),
            text::texts(dirs@) == listing_dirs(listings@).subrange(0, i as int),
        decreases listings.len() - i,
    {
        proof {
            let d = listing_dirs(listings@);
            assert(d.subrange(0, i + 1) =~= d.subrange(0, i as int).push(d[i as int]));
        }
        name(&mut dirs, listings[i].dir.as_str());
        i += 1;
    }
    proof {
        let d = listing_dirs(listings@);
        assert(d.subrange(0, d.len() as int) =~= d);
    }
    let ordered: Vec<String> = paths::sorted(Collation::Path, &dirs);
    let ghost all = text::texts(ordered@);
    let mut out: Vec<String> = no_names();
    i = 0;
    while i < ordered.len()
        invariant
            i <= ordered.len(),
            all == text::texts(ordered@),
            all == paths::in_order(Collation::Path, listing_dirs(listings@)),
            tree_sources(*disk, listings@, all.subrange(0, i as int)) is Some,
            text::texts(out@) == tree_sources(*disk, listings@, all.subrange(0, i as int))->0,
        decreases ordered.len() - i,
    {
        proof {
            assert(all[i as int] == ordered@[i as int]@);
            assert(all.subrange(0, i + 1).drop_last() =~= all.subrange(0, i as int));
        }
        match files_in(listings, ordered[i].as_str()) {
            Some(k) => {
                if !push_dir_sources(disk, &listings[k].files, &mut out) {
                    proof {
                        lemma_tree_unreadable(*disk, listings@, all, i + 1);
                    }
                    return None;
                }
            },
            None => {
                proof {
                    assert(paths::in_order(Collation::Path, Seq::<Seq<char>>::empty())
                        =~= Seq::empty());
                    assert(text::texts(out@) + Seq::<Seq<char>>::empty() =~= text::texts(out@));
                }
            },
        }
        i += 1;
    }
    proof {
        assert(all.subrange(0, all.len() as int) =~= all);
    }
    Some(out)
}

/// A generated helper that may be compiled.
pub open spec fn compilable(disk: Disk, source: Seq<char>) -> bool {
    disk.file_at(source) && !disk::marked(disk, source)
}

/// The helpers that the preloaded character tables need, those that are there.
pub fn preloaded_characters_dependency_sources(disk: &Disk, lisp_root: &str) -> (r: Vec<String>)
    ensures
        text::texts(r@) == seq![
            paths::joined_path(lisp_root@, "international/charscript.el"@),
            paths::joined_path(lisp_root@, "international/emoji-zwj.el"@),
        ].filter(|s: Seq<char>| compilable(*disk, s)),
{
    let mut found: Vec<String> = no_names();
    name(&mut found, paths::join(lisp_root, "international/charscript.el").as_str());
    name(&mut found, paths::join(lisp_root, "international/emoji-zwj.el").as_str());
    proof {
        assert(text::texts(found@) =~= seq![
            paths::joined_path(lisp_root@, "international/charscript.el"@),
            paths::joined_path(lisp_root@, "international/emoji-zwj.el"@),
        ]);
    }
    let keep = |f: &str| -> (b: bool)
        ensures
            b == compilable(*disk, f@),
        {
            let refused: bool = match disk::source_has_no_byte_compile_marker(disk, f) {
                Some(b) => b,
                None => false,
            };
            disk.is_file(f) && !refused
        };
    paths::kept(&found, keep, Ghost(|s: Seq<char>| compilable(*disk, s)))
}

} // verus!
