//! The programs that the build driver runs: where they are, what they are
//! handed, and which files they make.
use vstd::prelude::*;
use vstd::string::StringExecFns;

use crate::build_options::FreshBuildOptions;
use crate::paths;
use crate::text;

verus! {

/// Appends one argument.
fn arg(v: &mut Vec<String>, s: &str)
    ensures
        text::texts(final(v)@) == text::texts(old(v)@).push(s@),
{
    let a: String = text::copy(s);
    proof {
        text::lemma_texts_push(v@, a);
    }
    v.push(a);
}

/// Appends the arguments `more`.
fn args(v: &mut Vec<String>, more: &Vec<String>)
    ensures
        text::texts(final(v)@) == text::texts(old(v)@) + text::texts(more@),
{
    let ghost start = text::texts(v@);
    let mut i: usize = 0;
    proof {
        assert(start + text::texts(more@).subrange(0, 0) =~= start);
    }
    while i < more.len()
        invariant
            i <= more.len(),
            text::texts(v@) == start + text::texts(more@).subrange(0, i as int),
        decreases more.len() - i,
    {
        proof {
            let m = text::texts(more@);
            assert((start + m.subrange(0, i as int)).push(m[i as int]) =~= start + m.subrange(
                0,
                i + 1,
            ));
            assert(m[i as int] == more@[i as int]@);
        }
        arg(v, more[i].as_str());
        i += 1;
    }
    proof {
        assert(text::texts(more@).subrange(0, more@.len() as int) =~= text::texts(more@));
    }
}

/// No arguments yet.
fn none() -> (r: Vec<String>)
    ensures
        text::texts(r@) == Seq::<Seq<char>>::empty(),
{
    let v: Vec<String> = Vec::new();
    proof {
        assert(text::texts(v@) =~= Seq::empty());
    }
    v
}

/// The places that a build reads and writes.
#[derive(Debug, Clone)]
pub struct PipelinePaths {
    pub temacs: String,
    pub bootstrap: String,
    pub final_bin: String,
    pub etc_root: String,
    pub lisp_root: String,
    pub leim_root: String,
    pub admin_charsets_root: String,
    pub admin_grammars_root: String,
    pub admin_unidata_root: String,
    pub makefile_in: String,
}

/// A program's file name; `suffix` is what the system ends program names with.
pub fn executable_name(stem: &str, suffix: &str) -> (r: String)
    ensures
        r@ == stem@ + suffix@,
{
    text::concat(stem, suffix)
}

pub fn pipeline_paths(options: &FreshBuildOptions, suffix: &str) -> (r: PipelinePaths)
    ensures
        r.temacs@ == paths::joined_path(options.bin_dir@, "neomacs-temacs"@ + suffix@),
        r.bootstrap@ == paths::joined_path(options.bin_dir@, "bootstrap-neomacs"@ + suffix@),
        r.final_bin@ == paths::joined_path(options.bin_dir@, "neomacs"@ + suffix@),
        r.etc_root@ == paths::joined_path(options.runtime_root@, "etc"@),
        r.lisp_root@ == paths::joined_path(options.runtime_root@, "lisp"@),
        r.makefile_in@ == paths::joined_path(r.lisp_root@, "Makefile.in"@),
        r.leim_root@ == paths::joined_path(options.repo_root@, "leim"@),
        r.admin_charsets_root@ == paths::joined_path(options.repo_root@, "admin/charsets"@),
        r.admin_grammars_root@ == paths::joined_path(options.repo_root@, "admin/grammars"@),
        r.admin_unidata_root@ == paths::joined_path(options.repo_root@, "admin/unidata"@),
{
    let lisp_root: String = paths::join(options.runtime_root.as_str(), "lisp");
    let repo: &str = options.repo_root.as_str();
    let bin: &str = options.bin_dir.as_str();
    PipelinePaths {
        temacs: paths::join(bin, executable_name("neomacs-temacs", suffix).as_str()),
        bootstrap: paths::join(bin, executable_name("bootstrap-neomacs", suffix).as_str()),
        final_bin: paths::join(bin, executable_name("neomacs", suffix).as_str()),
        etc_root: paths::join(options.runtime_root.as_str(), "etc"),
        makefile_in: paths::join(lisp_root.as_str(), "Makefile.in"),
        leim_root: paths::join(repo, "leim"),
        admin_charsets_root: paths::join(repo, "admin/charsets"),
        admin_grammars_root: paths::join(repo, "admin/grammars"),
        admin_unidata_root: paths::join(repo, "admin/unidata"),
        lisp_root: lisp_root,
    }
}

/// Where a profile-guided build keeps its raw counters and the merged profile.
pub fn pgo_dirs(options: &FreshBuildOptions) -> (r: (String, String))
    ensures
        r.0@ == paths::joined_path(
            paths::joined_path(paths::joined_path(options.repo_root@, "target"@), "pgo"@),
            "raw"@,
        ),
        r.1@ == paths::joined_path(
            paths::joined_path(paths::joined_path(options.repo_root@, "target"@), "pgo"@),
            "merged.profdata"@,
        ),
{
    let target: String = paths::join(options.repo_root.as_str(), "target");
    let base: String = paths::join(target.as_str(), "pgo");
    (paths::join(base.as_str(), "raw"), paths::join(base.as_str(), "merged.profdata"))
}

/// The files that must be there before a build starts, in the order in which a
/// missing one is reported.
pub open spec fn required_inputs(p: PipelinePaths) -> Seq<Seq<char>> {
    seq![
        paths::joined_path(p.lisp_root@, "loadup.el"@),
        p.makefile_in@,
        paths::joined_path(p.lisp_root@, "emacs-lisp/loaddefs-gen.el"@),
        paths::joined_path(p.leim_root@, "Makefile.in"@),
        paths::joined_path(p.admin_charsets_root@, "Makefile.in"@),
        paths::joined_path(p.admin_grammars_root@, "Makefile.in"@),
        paths::joined_path(p.admin_unidata_root@, "Makefile.in"@),
    ]
}

pub fn runtime_inputs(p: &PipelinePaths) -> (r: Vec<String>)
    ensures
        text::texts(r@) == required_inputs(*p),
{
    let mut v: Vec<String> = none();
    arg(&mut v, paths::join(p.lisp_root.as_str(), "loadup.el").as_str());
    arg(&mut v, p.makefile_in.as_str());
    arg(&mut v, paths::join(p.lisp_root.as_str(), "emacs-lisp/loaddefs-gen.el").as_str());
    arg(&mut v, paths::join(p.leim_root.as_str(), "Makefile.in").as_str());
    arg(&mut v, paths::join(p.admin_charsets_root.as_str(), "Makefile.in").as_str());
    arg(&mut v, paths::join(p.admin_grammars_root.as_str(), "Makefile.in").as_str());
    arg(&mut v, paths::join(p.admin_unidata_root.as_str(), "Makefile.in").as_str());
    proof {
        assert(text::texts(v@) =~= required_inputs(*p));
    }
    v
}

/// The arguments of the first `cargo build`.
pub open spec fn cargo_build_args(options: FreshBuildOptions) -> Seq<Seq<char>> {
    seq!["build"@, "--verbose"@, "-p"@, "neomacs"@] + (if options.features@.len() > 0 {
        seq!["--features"@, text::joined(text::texts(options.features@), ","@)]
    } else {
        Seq::empty()
    }) + seq!["--profile"@, options.profile.name()]
}

pub fn initial_cargo_build_args(options: &FreshBuildOptions) -> (r: Vec<String>)
    ensures
        text::texts(r@) == cargo_build_args(*options),
{
    let mut v: Vec<String> = none();
    arg(&mut v, "build");
    arg(&mut v, "--verbose");
    arg(&mut v, "-p");
    arg(&mut v, "neomacs");
    if options.features.len() > 0 {
        arg(&mut v, "--features");
        arg(&mut v, text::join(&options.features, ",").as_str());
    }
    arg(&mut v, "--profile");
    arg(&mut v, options.profile.as_name());
    proof {
        assert(text::texts(v@) =~= cargo_build_args(*options));
    }
    v
}

pub fn loaddefs_generation_args(loaddefs_gen: &str, loaddefs_dirs: &Vec<String>) -> (r: Vec<String>)
    ensures
        text::texts(r@) == seq![
            "--batch"@,
            "-l"@,
            loaddefs_gen@,
            "-f"@,
            "loaddefs-generate--emacs-batch"@,
        ] + text::texts(loaddefs_dirs@),
{
    let mut v: Vec<String> = none();
    arg(&mut v, "--batch");
    arg(&mut v, "-l");
    arg(&mut v, loaddefs_gen);
    arg(&mut v, "-f");
    arg(&mut v, "loaddefs-generate--emacs-batch");
    args(&mut v, loaddefs_dirs);
    v
}

/// Arguments that start every generator.
pub open spec fn batch_head() -> Seq<Seq<char>> {
    seq!["--batch"@, "--no-site-file"@, "--no-site-lisp"@]
}

fn batch() -> (r: Vec<String>)
    ensures
        text::texts(r@) == batch_head(),
{
    let mut v: Vec<String> = none();
    arg(&mut v, "--batch");
    arg(&mut v, "--no-site-file");
    arg(&mut v, "--no-site-lisp");
    proof {
        assert(text::texts(v@) =~= batch_head());
    }
    v
}

pub open spec fn generator_args(
    admin_dir: Seq<char>,
    unidata_gen: Seq<char>,
    function: Seq<char>,
) -> Seq<Seq<char>> {
    batch_head() + seq!["-L"@, admin_dir, "-l"@, unidata_gen, "-f"@, function]
}

pub fn unidata_generator_args(admin_dir: &str, unidata_gen: &str, function: &str) -> (r: Vec<
    String,
>)
    ensures
        text::texts(r@) == generator_args(admin_dir@, unidata_gen@, function@),
{
    let mut v: Vec<String> = batch();
    arg(&mut v, "-L");
    arg(&mut v, admin_dir);
    arg(&mut v, "-l");
    arg(&mut v, unidata_gen);
    arg(&mut v, "-f");
    arg(&mut v, function);
    proof {
        assert(text::texts(v@) =~= generator_args(admin_dir@, unidata_gen@, function@));
    }
    v
}

pub fn unidata_gen_file_args(p: &PipelinePaths, output: &str, unidata_txt: &str) -> (r: Vec<String>)
    ensures
        text::texts(r@) == generator_args(
            p.admin_unidata_root@,
            paths::joined_path(p.admin_unidata_root@, "unidata-gen.el"@),
            "unidata-gen-file"@,
        ) + seq![output@, p.admin_unidata_root@, unidata_txt@],
{
    let gen: String = paths::join(p.admin_unidata_root.as_str(), "unidata-gen.el");
    let mut v: Vec<String> = unidata_generator_args(
        p.admin_unidata_root.as_str(),
        gen.as_str(),
        "unidata-gen-file",
    );
    arg(&mut v, output);
    arg(&mut v, p.admin_unidata_root.as_str());
    arg(&mut v, unidata_txt);
    v
}

/// What the generator is handed to make the property index.
pub fn charprop_args(p: &PipelinePaths, output: &str) -> (r: Vec<String>)
    ensures
        text::texts(r@) == generator_args(
            p.admin_unidata_root@,
            paths::joined_path(p.admin_unidata_root@, "unidata-gen.el"@),
            "unidata-gen-charprop"@,
        ).push(output@),
{
    let gen: String = paths::join(p.admin_unidata_root.as_str(), "unidata-gen.el");
    let mut v: Vec<String> = unidata_generator_args(
        p.admin_unidata_root.as_str(),
        gen.as_str(),
        "unidata-gen-charprop",
    );
    arg(&mut v, output);
    v
}

/// What compiles the Unicode generator itself.
pub fn generator_compile_args(source: &str) -> (r: Vec<String>)
    ensures
        text::texts(r@) == batch_head() + seq!["-f"@, "batch-byte-compile"@, source@],
{
    let mut v: Vec<String> = batch();
    arg(&mut v, "-f");
    arg(&mut v, "batch-byte-compile");
    arg(&mut v, source);
    v
}

/// What loads the Lisp image and dumps it; `mode` says which dump.
pub fn dump_args(mode: &str) -> (r: Vec<String>)
    ensures
        text::texts(r@) == seq!["--batch"@, "-l"@, "loadup"@, "--temacs="@ + mode@],
{
    let mut v: Vec<String> = none();
    arg(&mut v, "--batch");
    arg(&mut v, "-l");
    arg(&mut v, "loadup");
    arg(&mut v, text::concat("--temacs=", mode).as_str());
    v
}

/// One character of a Lisp string literal.
pub open spec fn escaped(c: char) -> Seq<char> {
    if c == '\\' {
        seq!['\\', '\\']
    } else if c == '"' {
        seq!['\\', '"']
    } else {
        seq![c]
    }
}

/// `s` with quotes and backslashes escaped.
pub open spec fn escaped_text(s: Seq<char>) -> Seq<char>
    decreases s.len(),
{
    if s.len() == 0 {
        Seq::empty()
    } else {
        escaped_text(s.drop_last()) + escaped(s.last())
    }
}

/// `s` as a Lisp string.
pub open spec fn lisp_literal(s: Seq<char>) -> Seq<char> {
    seq!['"'] + escaped_text(s) + seq!['"']
}

pub fn elisp_string_literal(s: &str) -> (r: String)
    ensures
        r@ == lisp_literal(s@),
{
    let chars: Vec<char> = text::chars_of(s);
    let mut out: String = String::new();
    out.push('"');
    let mut i: usize = 0;
    proof {
        assert(out@ =~= seq!['"'] + escaped_text(s@.subrange(0, 0)));
    }
    while i < chars.len()
        invariant
            i <= chars.len(),
            chars@ == s@,
            out@ == seq!['"'] + escaped_text(s@.subrange(0, i as int)),
        decreases chars.len() - i,
    {
        let c: char = chars[i];
        let ghost start = out@;
        if c == '\\' {
            out.push('\\');
            out.push('\\');
        } else if c == '"' {
            out.push('\\');
            out.push('"');
        } else {
            out.push(c);
        }
        proof {
            assert(s@.subrange(0, i + 1).drop_last() =~= s@.subrange(0, i as int));
            assert(out@ =~= seq!['"'] + (escaped_text(s@.subrange(0, i as int)) + escaped(c)));
        }
        i += 1;
    }
    out.push('"');
    proof {
        assert(s@.subrange(0, s@.len() as int) =~= s@);
        assert(out@ =~= lisp_literal(s@));
    }
    out
}

/// The directories of `dirs` that are `root` or under it.
pub open spec fn dirs_under(root: Seq<char>, dirs: Seq<Seq<char>>) -> Seq<Seq<char>> {
    dirs.filter(|d: Seq<char>| paths::relative_components(root, d) is Some)
}

fn append_dirs_under(v: &mut Vec<String>, root: &str, dirs: &Vec<String>)
    ensures
        text::texts(final(v)@) == text::texts(old(v)@) + dirs_under(root@, text::texts(dirs@)),
{
    let ghost start = text::texts(v@);
    let ghost all = text::texts(dirs@);
    let ghost p = |d: Seq<char>| paths::relative_components(root@, d) is Some;
    let mut i: usize = 0;
    proof {
        reveal(Seq::filter);
        assert(start + all.subrange(0, 0).filter(p) =~= start);
    }
    while i < dirs.len()
        invariant
            i <= dirs.len(),
            all == text::texts(dirs@),
            p == |d: Seq<char>| paths::relative_components(root@, d) is Some,
            text::texts(v@) == start + all.subrange(0, i as int).filter(p),
        decreases dirs.len() - i,
    {
        proof {
            assert(all[i as int] == dirs@[i as int]@);
            paths::lemma_filter_step(all, i as int, p);
        }
        if paths::relative_to(root, dirs[i].as_str()).is_some() {
            proof {
                let f = all.subrange(0, i as int).filter(p);
                assert((start + f).push(all[i as int]) =~= start + f.push(all[i as int]));
            }
            arg(v, dirs[i].as_str());
        }
        i += 1;
    }
    proof {
        assert(all.subrange(0, all.len() as int) =~= all);
    }
}

pub open spec fn data_file_args(
    library: Seq<char>,
    variable: Seq<char>,
    function: Seq<char>,
    lisp_root: Seq<char>,
    output: Seq<char>,
    dirs: Seq<Seq<char>>,
) -> Seq<Seq<char>> {
    batch_head() + seq![
        "-l"@,
        library,
        "--eval"@,
        "(setq "@ + variable + " (unmsys--file-name "@ + lisp_literal(output) + "))"@,
        "-f"@,
        function,
    ] + dirs_under(lisp_root, dirs)
}

/// What makes a data file out of the Lisp directories.
fn data_file_command(
    library: &str,
    variable: &str,
    function: &str,
    lisp_root: &str,
    output: &str,
    dirs: &Vec<String>,
) -> (r: Vec<String>)
    ensures
        text::texts(r@) == data_file_args(
            library@,
            variable@,
            function@,
            lisp_root@,
            output@,
            text::texts(dirs@),
        ),
{
    let mut v: Vec<String> = batch();
    arg(&mut v, "-l");
    arg(&mut v, library);
    arg(&mut v, "--eval");
    let mut form: String = text::copy("(setq ");
    form.append(variable);
    form.append(" (unmsys--file-name ");
    form.append(elisp_string_literal(output).as_str());
    form.append("))");
    arg(&mut v, form.as_str());
    arg(&mut v, "-f");
    arg(&mut v, function);
    proof {
        assert(text::texts(v@) =~= batch_head() + seq![
            "-l"@,
            library@,
            "--eval"@,
            form@,
            "-f"@,
            function@,
        ]);
    }
    append_dirs_under(&mut v, lisp_root, dirs);
    v
}

pub fn custom_dependencies_generation_args(
    lisp_root: &str,
    output: &str,
    dirs: &Vec<String>,
) -> (r: Vec<String>)
    ensures
        text::texts(r@) == data_file_args(
            "cus-dep"@,
            "generated-custom-dependencies-file"@,
            "custom-make-dependencies"@,
            lisp_root@,
            output@,
            text::texts(dirs@),
        ),
{
    data_file_command(
        "cus-dep",
        "generated-custom-dependencies-file",
        "custom-make-dependencies",
        lisp_root,
        output,
        dirs,
    )
}

pub fn finder_data_generation_args(lisp_root: &str, output: &str, dirs: &Vec<String>) -> (r: Vec<
    String,
>)
    ensures
        text::texts(r@) == data_file_args(
            "finder"@,
            "generated-finder-keywords-file"@,
            "finder-compile-keywords-make-dist"@,
            lisp_root@,
            output@,
            text::texts(dirs@),
        ),
{
    data_file_command(
        "finder",
        "generated-finder-keywords-file",
        "finder-compile-keywords-make-dist",
        lisp_root,
        output,
        dirs,
    )
}

/// Which converter an input method source goes through.
#[derive(Debug, Clone, Copy, PartialEq, Eq, Structural)]
pub enum LeimGenerationKind {
    TitDic,
    MiscDic,
    Pinyin,
}

pub open spec fn leim_args(
    kind: LeimGenerationKind,
    quail_dir: Seq<char>,
    source: Seq<char>,
    output: Seq<char>,
) -> Seq<Seq<char>> {
    batch_head() + seq!["-l"@, "titdic-cnv"@, "-f"@] + match kind {
        LeimGenerationKind::TitDic => seq!["batch-tit-dic-convert"@, "-dir"@, quail_dir, source],
        LeimGenerationKind::MiscDic => seq![
            "batch-tit-miscdic-convert"@,
            "-dir"@,
            quail_dir,
            source,
        ],
        LeimGenerationKind::Pinyin => seq!["tit-pinyin-convert"@, source, output],
    }
}

pub fn leim_generation_args(
    kind: LeimGenerationKind,
    quail_dir: &str,
    source: &str,
    output: &str,
) -> (r: Vec<String>)
    ensures
        text::texts(r@) == leim_args(kind, quail_dir@, source@, output@),
{
    let mut v: Vec<String> = batch();
    arg(&mut v, "-l");
    arg(&mut v, "titdic-cnv");
    arg(&mut v, "-f");
    match kind {
        LeimGenerationKind::TitDic => {
            arg(&mut v, "batch-tit-dic-convert");
            arg(&mut v, "-dir");
            arg(&mut v, quail_dir);
            arg(&mut v, source);
        },
        LeimGenerationKind::MiscDic => {
            arg(&mut v, "batch-tit-miscdic-convert");
            arg(&mut v, "-dir");
            arg(&mut v, quail_dir);
            arg(&mut v, source);
        },
        LeimGenerationKind::Pinyin => {
            arg(&mut v, "tit-pinyin-convert");
            arg(&mut v, source);
            arg(&mut v, output);
        },
    }
    proof {
        assert(text::texts(v@) =~= leim_args(kind, quail_dir@, source@, output@));
    }
    v
}

pub fn leim_list_generation_args(leim_dir: &str) -> (r: Vec<String>)
    ensures
        text::texts(r@) == batch_head() + seq![
            "-l"@,
            "international/quail"@,
            "--eval"@,
            "(update-leim-list-file (unmsys--file-name "@ + lisp_literal(leim_dir@) + "))"@,
        ],
{
    let mut v: Vec<String> = batch();
    arg(&mut v, "-l");
    arg(&mut v, "international/quail");
    arg(&mut v, "--eval");
    let mut form: String = text::copy("(update-leim-list-file (unmsys--file-name ");
    form.append(elisp_string_literal(leim_dir).as_str());
    form.append("))");
    arg(&mut v, form.as_str());
    v
}

/// Which parser generator a grammar is for.
#[derive(Debug, Clone, Copy, PartialEq, Eq, Structural)]
pub enum SemanticGrammarKind {
    Bovine,
    Wisent,
}

pub open spec fn grammar_args(
    kind: SemanticGrammarKind,
    output: Seq<char>,
    source: Seq<char>,
) -> Seq<Seq<char>> {
    batch_head() + seq![
        "--eval"@,
        "(setq load-prefer-newer t)"@,
        "-l"@,
        "cl-extra"@,
        "-l"@,
        match kind {
            SemanticGrammarKind::Bovine => "semantic/bovine/grammar"@,
            SemanticGrammarKind::Wisent => "semantic/wisent/grammar"@,
        },
        "-f"@,
        match kind {
            SemanticGrammarKind::Bovine => "bovine-batch-make-parser"@,
            SemanticGrammarKind::Wisent => "wisent-batch-make-parser"@,
        },
        "-o"@,
        output,
        source,
    ]
}

/// `cl-extra` is loaded by hand: the bootstrap image has no autoload for it.
pub fn semantic_grammar_args(kind: SemanticGrammarKind, output: &str, source: &str) -> (r: Vec<
    String,
>)
    ensures
        text::texts(r@) == grammar_args(kind, output@, source@),
{
    let mut v: Vec<String> = batch();
    arg(&mut v, "--eval");
    arg(&mut v, "(setq load-prefer-newer t)");
    arg(&mut v, "-l");
    arg(&mut v, "cl-extra");
    arg(&mut v, "-l");
    match kind {
        SemanticGrammarKind::Bovine => {
            arg(&mut v, "semantic/bovine/grammar");
            arg(&mut v, "-f");
            arg(&mut v, "bovine-batch-make-parser");
        },
        SemanticGrammarKind::Wisent => {
            arg(&mut v, "semantic/wisent/grammar");
            arg(&mut v, "-f");
            arg(&mut v, "wisent-batch-make-parser");
        },
    }
    arg(&mut v, "-o");
    arg(&mut v, output);
    arg(&mut v, source);
    proof {
        assert(text::texts(v@) =~= grammar_args(kind, output@, source@));
    }
    v
}

/// What every compilation of Lisp sources starts with.
pub open spec fn compile_head() -> Seq<Seq<char>> {
    batch_head() + seq![
        "--eval"@,
        "(setq load-prefer-newer t byte-compile-warnings 'all)"@,
        "--eval"@,
        "(setq org--inhibit-version-check t)"@,
    ]
}

fn compile_start() -> (r: Vec<String>)
    ensures
        text::texts(r@) == compile_head(),
{
    let mut v: Vec<String> = batch();
    arg(&mut v, "--eval");
    arg(&mut v, "(setq load-prefer-newer t byte-compile-warnings 'all)");
    arg(&mut v, "--eval");
    arg(&mut v, "(setq org--inhibit-version-check t)");
    proof {
        assert(text::texts(v@) =~= compile_head());
    }
    v
}

pub open spec fn compile_main_args(native_comp: bool, sources: Seq<Seq<char>>) -> Seq<Seq<char>> {
    compile_head() + (if native_comp {
        seq!["-l"@, "comp"@, "-f"@, "batch-byte+native-compile"@]
    } else {
        seq!["-f"@, "batch-byte-compile"@]
    }) + sources
}

pub fn compile_main_args_for_sources(native_comp: bool, sources: &Vec<String>) -> (r: Vec<String>)
    ensures
        text::texts(r@) == compile_main_args(native_comp, text::texts(sources@)),
{
    let mut v: Vec<String> = compile_start();
    if native_comp {
        arg(&mut v, "-l");
        arg(&mut v, "comp");
        arg(&mut v, "-f");
        arg(&mut v, "batch-byte+native-compile");
    } else {
        arg(&mut v, "-f");
        arg(&mut v, "batch-byte-compile");
    }
    args(&mut v, sources);
    proof {
        assert(text::texts(v@) =~= compile_main_args(native_comp, text::texts(sources@)));
    }
    v
}

pub open spec fn preloaded_args(native_comp: bool, source: Seq<char>) -> Seq<Seq<char>> {
    compile_head() + (if native_comp {
        seq![
            "-l"@,
            "comp"@,
            "-f"@,
            "byte-compile-refresh-preloaded"@,
            "-f"@,
            "batch-byte+native-compile"@,
        ]
    } else {
        seq![
            "-l"@,
            "bytecomp"@,
            "-f"@,
            "byte-compile-refresh-preloaded"@,
            "-f"@,
            "batch-byte-compile"@,
        ]
    }) + seq![source]
}

pub fn preloaded_lisp_args_for_source(native_comp: bool, source: &str) -> (r: Vec<String>)
    ensures
        text::texts(r@) == preloaded_args(native_comp, source@),
{
    let mut v: Vec<String> = compile_start();
    if native_comp {
        arg(&mut v, "-l");
        arg(&mut v, "comp");
        arg(&mut v, "-f");
        arg(&mut v, "byte-compile-refresh-preloaded");
        arg(&mut v, "-f");
        arg(&mut v, "batch-byte+native-compile");
    } else {
        arg(&mut v, "-l");
        arg(&mut v, "bytecomp");
        arg(&mut v, "-f");
        arg(&mut v, "byte-compile-refresh-preloaded");
        arg(&mut v, "-f");
        arg(&mut v, "batch-byte-compile");
    }
    arg(&mut v, source);
    proof {
        assert(text::texts(v@) =~= preloaded_args(native_comp, source@));
    }
    v
}

pub open spec fn compile_first_args(native_comp: bool, sources: Seq<Seq<char>>) -> Seq<Seq<char>> {
    seq!["--batch"@] + (if native_comp {
        seq!["-l"@, "comp"@]
    } else {
        Seq::empty()
    }) + seq!["-f"@, "batch-byte-compile"@] + sources
}

pub fn compile_first_args_for_sources(native_comp: bool, sources: &Vec<String>) -> (r: Vec<String>)
    ensures
        text::texts(r@) == compile_first_args(native_comp, text::texts(sources@)),
{
    let mut v: Vec<String> = none();
    arg(&mut v, "--batch");
    if native_comp {
        arg(&mut v, "-l");
        arg(&mut v, "comp");
    }
    arg(&mut v, "-f");
    arg(&mut v, "batch-byte-compile");
    args(&mut v, sources);
    proof {
        assert(text::texts(v@) =~= compile_first_args(native_comp, text::texts(sources@)));
    }
    v
}

pub fn compile_first_args_for_source(native_comp: bool, source: &str) -> (r: Vec<String>)
    ensures
        text::texts(r@) == compile_first_args(native_comp, seq![source@]),
{
    let mut one: Vec<String> = none();
    arg(&mut one, source);
    proof {
        assert(text::texts(one@) =~= seq![source@]);
    }
    compile_first_args_for_sources(native_comp, &one)
}

/// The arguments that compile one source of the main set.
pub fn compile_main_args_for_source(native_comp: bool, source: &str) -> (r: Vec<String>)
    ensures
        text::texts(r@) == compile_main_args(native_comp, seq![source@]),
{
    let mut one: Vec<String> = none();
    arg(&mut one, source);
    proof {
        assert(text::texts(one@) =~= seq![source@]);
    }
    compile_main_args_for_sources(native_comp, &one)
}

/// The program that compiles the main set: the final, dumped one.
pub fn compile_main_emacs(p: &PipelinePaths) -> (r: &str)
    ensures
        r@ == p.final_bin@,
{
    p.final_bin.as_str()
}

/// The program that compiles Lisp before the final dump.
pub fn bootstrap_byte_compile_emacs(p: &PipelinePaths) -> (r: &str)
    ensures
        r@ == p.bootstrap@,
{
    p.bootstrap.as_str()
}

/// Names and values of environment variables.
pub open spec fn env_texts(v: Seq<(String, String)>) -> Seq<(Seq<char>, Seq<char>)> {
    Seq::new(v.len(), |i: int| (v[i].0@, v[i].1@))
}

fn env(v: &mut Vec<(String, String)>, name: &str, value: &str)
    ensures
        env_texts(final(v)@) == env_texts(old(v)@).push((name@, value@)),
{
    let ghost start = v@;
    v.push((text::copy(name), text::copy(value)));
    proof {
        assert(env_texts(v@) =~= env_texts(start).push((name@, value@)));
    }
}

fn copy_envs(base: &Vec<(String, String)>) -> (r: Vec<(String, String)>)
    ensures
        env_texts(r@) == env_texts(base@),
{
    let mut out: Vec<(String, String)> = Vec::new();
    let mut i: usize = 0;
    proof {
        assert(env_texts(out@) =~= env_texts(base@).subrange(0, 0));
    }
    while i < base.len()
        invariant
            i <= base.len(),
            env_texts(out@) == env_texts(base@).subrange(0, i as int),
        decreases base.len() - i,
    {
        env(&mut out, base[i].0.as_str(), base[i].1.as_str());
        proof {
            assert(env_texts(base@).subrange(0, i + 1) =~= env_texts(base@).subrange(
                0,
                i as int,
            ).push(env_texts(base@)[i as int]));
        }
        i += 1;
    }
    proof {
        assert(env_texts(base@).subrange(0, base@.len() as int) =~= env_texts(base@));
    }
    out
}

/// The environment of every Lisp program that the driver runs.
pub fn runtime_envs(options: &FreshBuildOptions) -> (r: Vec<(String, String)>)
    ensures
        env_texts(r@) == seq![("NEOMACS_RUNTIME_ROOT"@, options.runtime_root@)],
{
    let mut v: Vec<(String, String)> = Vec::new();
    proof {
        assert(env_texts(v@) =~= Seq::empty());
    }
    env(&mut v, "NEOMACS_RUNTIME_ROOT", options.runtime_root.as_str());
    v
}

/// The environment of the dump step: the preload producer runs inside it.
pub fn aot_preload_dump_envs(options: &FreshBuildOptions, base: &Vec<(String, String)>) -> (r: Vec<
    (String, String),
>)
    ensures
        env_texts(r@) == if options.aot_preload {
            env_texts(base@).push(("NEOVM_AOT_PRELOAD"@, "1"@))
        } else {
            env_texts(base@)
        },
{
    let mut v: Vec<(String, String)> = copy_envs(base);
    if options.aot_preload {
        env(&mut v, "NEOVM_AOT_PRELOAD", "1");
    }
    v
}

/// The environment in which the preload producer only lists what it would do.
pub fn aot_preload_dry_run_envs(base: &Vec<(String, String)>) -> (r: Vec<(String, String)>)
    ensures
        env_texts(r@) == env_texts(base@).push(("NEOVM_AOT_PRELOAD"@, "1"@)).push(
            ("NEOVM_AOT_PRELOAD_DRY_RUN"@, "1"@),
        ),
{
    let mut v: Vec<(String, String)> = copy_envs(base);
    env(&mut v, "NEOVM_AOT_PRELOAD", "1");
    env(&mut v, "NEOVM_AOT_PRELOAD_DRY_RUN", "1");
    v
}

/// How many sources one compiler process is handed.
pub const COMPILE_MAIN_BATCH_SIZE: usize = 16;

pub open spec fn batch_size(native_comp: bool) -> int {
    if native_comp {
        1
    } else {
        COMPILE_MAIN_BATCH_SIZE as int
    }
}

/// The lists of texts in a list of lists of strings.
pub open spec fn text_lists(v: Seq<Vec<String>>) -> Seq<Seq<Seq<char>>> {
    Seq::new(v.len(), |i: int| text::texts(v[i]@))
}

/// `v` cut into pieces of `n`; the last one may be shorter.
pub open spec fn chunks(v: Seq<Seq<char>>, n: int) -> Seq<Seq<Seq<char>>>
    decreases v.len(),
{
    if n <= 0 || v.len() == 0 {
        Seq::empty()
    } else if v.len() <= n {
        seq![v]
    } else {
        seq![v.subrange(0, n)] + chunks(v.subrange(n, v.len() as int), n)
    }
}

/// The sources that go to one compiler process each: native compilation takes
/// one at a time.
pub fn compile_main_batches(native_comp: bool, sources: &Vec<String>) -> (r: Vec<Vec<String>>)
    ensures
        text_lists(r@) == chunks(text::texts(sources@), batch_size(native_comp)),
{
    let size: usize = if native_comp {
        1
    } else {
        COMPILE_MAIN_BATCH_SIZE
    };
    let ghost all = text::texts(sources@);
    let mut out: Vec<Vec<String>> = Vec::new();
    let mut at: usize = 0;
    proof {
        assert(all.subrange(0, all.len() as int) =~= all);
        assert(text_lists(out@) + chunks(all, size as int) =~= chunks(all, size as int));
    }
    while at < sources.len()
        invariant
            at <= sources.len(),
            size >= 1,
            all == text::texts(sources@),
            text_lists(out@) + chunks(all.subrange(at as int, all.len() as int), size as int)
                == chunks(all, size as int),
        decreases sources.len() - at,
    {
        let ghost rest = all.subrange(at as int, all.len() as int);
        let end: usize = if sources.len() - at <= size {
            sources.len()
        } else {
            at + size
        };
        let mut piece: Vec<String> = none();
        let mut i: usize = at;
        proof {
            assert(all.subrange(at as int, at as int) =~= Seq::empty());
        }
        while i < end
            invariant
                at <= i <= end <= sources.len(),
                all == text::texts(sources@),
                text::texts(piece@) == all.subrange(at as int, i as int),
            decreases end - i,
        {
            arg(&mut piece, sources[i].as_str());
            proof {
                assert(all.subrange(at as int, i + 1) =~= all.subrange(at as int, i as int).push(
                    all[i as int],
                ));
            }
            i += 1;
        }
        let ghost done = text_lists(out@);
        out.push(piece);
        proof {
            assert(text_lists(out@) =~= done.push(all.subrange(at as int, end as int)));
            let tail = all.subrange(end as int, all.len() as int);
            if rest.len() <= size {
                assert(all.subrange(at as int, end as int) =~= rest);
                assert(tail.len() == 0);
                assert(done.push(rest) + chunks(tail, size as int) =~= done + seq![rest]);
            } else {
                assert(rest.subrange(0, size as int) =~= all.subrange(at as int, end as int));
                assert(rest.subrange(size as int, rest.len() as int) =~= tail);
                assert(done.push(all.subrange(at as int, end as int)) + chunks(tail, size as int)
                    =~= done + (seq![all.subrange(at as int, end as int)] + chunks(
                    tail,
                    size as int,
                )));
            }
        }
        at = end;
    }
    proof {
        assert(all.subrange(at as int, all.len() as int).len() == 0);
        assert(text_lists(out@) + Seq::<Seq<Seq<char>>>::empty() =~= text_lists(out@));
    }
    out
}

/// All the pieces one after the other.
pub open spec fn flattened(v: Seq<Seq<Seq<char>>>) -> Seq<Seq<char>>
    decreases v.len(),
{
    if v.len() == 0 {
        Seq::empty()
    } else {
        v[0] + flattened(v.subrange(1, v.len() as int))
    }
}

/// Cutting a list into batches loses nothing, keeps the order, and no batch is
/// empty or larger than the batch size.
pub proof fn law_batches(v: Seq<Seq<char>>, n: int)
    requires
        n >= 1,
    ensures
        flattened(chunks(v, n)) == v,
        forall|i: int| 0 <= i < chunks(v, n).len() ==> 1 <= #[trigger] chunks(v, n)[i].len() <= n,
    decreases v.len(),
{
    if v.len() == 0 {
        assert(flattened(chunks(v, n)) =~= v);
    } else if v.len() <= n {
        let c = chunks(v, n);
        assert(c[0] == v);
        assert(flattened(c.subrange(1, c.len() as int)) =~= Seq::empty());
        assert(flattened(c) =~= v);
    } else {
        let head = v.subrange(0, n);
        let tail = v.subrange(n, v.len() as int);
        let c = chunks(v, n);
        law_batches(tail, n);
        assert(c.subrange(1, c.len() as int) =~= chunks(tail, n));
        assert(flattened(c) =~= v);
        assert forall|i: int| 0 <= i < c.len() implies 1 <= #[trigger] c[i].len() <= n by {
            if i > 0 {
                assert(c[i] == chunks(tail, n)[i - 1]);
            }
        }
    }
}

pub fn compile_main_batch_label(sources: &Vec<String>) -> (r: String)
    ensures
        r@ == text::joined(text::texts(sources@), ", "@),
{
    text::join(sources, ", ")
}

/// Whether the cargo that runs the driver set `key` for itself; a cargo that the
/// driver starts must not see it.
pub open spec fn is_outer_cargo_key(key: Seq<char>) -> bool {
    ||| key == "CARGO"@
    ||| key == "CARGO_CRATE_NAME"@
    ||| key == "CARGO_MANIFEST_DIR"@
    ||| key == "CARGO_MANIFEST_LINKS"@
    ||| key == "CARGO_MANIFEST_PATH"@
    ||| key == "CARGO_PRIMARY_PACKAGE"@
    ||| key == "OUT_DIR"@
    ||| text::starts_with(key, "CARGO_BIN_EXE_"@)
    ||| text::starts_with(key, "CARGO_CFG_"@)
    ||| text::starts_with(key, "CARGO_FEATURE_"@)
    ||| text::starts_with(key, "CARGO_PKG_"@)
}

/// `None` stands for a key that is no Unicode text: it is left alone.
pub fn should_remove_outer_cargo_env(key: Option<&str>) -> (r: bool)
    ensures
        r == match key {
            Some(k) => is_outer_cargo_key(k@),
            None => false,
        },
{
    match key {
        None => false,
        Some(k) => text::same(k, "CARGO") || text::same(k, "CARGO_CRATE_NAME") || text::same(
            k,
            "CARGO_MANIFEST_DIR",
        ) || text::same(k, "CARGO_MANIFEST_LINKS") || text::same(k, "CARGO_MANIFEST_PATH")
            || text::same(k, "CARGO_PRIMARY_PACKAGE") || text::same(k, "OUT_DIR")
            || text::begins_with(k, "CARGO_BIN_EXE_") || text::begins_with(k, "CARGO_CFG_")
            || text::begins_with(k, "CARGO_FEATURE_") || text::begins_with(k, "CARGO_PKG_"),
    }
}

/// The variables that would make a build see the user's own Lisp packages.
pub fn build_time_emacs_env_vars() -> (r: Vec<String>)
    ensures
        text::texts(r@) == seq!["EMACSLOADPATH"@, "EMACSNATIVELOADPATH"@],
{
    let mut v: Vec<String> = none();
    arg(&mut v, "EMACSLOADPATH");
    arg(&mut v, "EMACSNATIVELOADPATH");
    v
}

/// A character that a shell would not take for itself.
pub open spec fn needs_quote(c: char) -> bool {
    ||| text::is_space(c)
    ||| c == '\''
    ||| c == '"'
    ||| c == '\\'
    ||| c == '$'
    ||| c == '`'
    ||| c == '('
    ||| c == ')'
    ||| c == '['
    ||| c == ']'
    ||| c == '{'
    ||| c == '}'
    ||| c == '*'
    ||| c == '?'
    ||| c == '&'
    ||| c == ';'
    ||| c == '<'
    ||| c == '>'
    ||| c == '|'
    ||| c == '!'
}

/// One character inside single quotes.
pub open spec fn quoted_char(c: char) -> Seq<char> {
    if c == '\'' {
        seq!['\'', '"', '\'', '"', '\'']
    } else {
        seq![c]
    }
}

pub open spec fn quoted_chars(s: Seq<char>) -> Seq<char>
    decreases s.len(),
{
    if s.len() == 0 {
        Seq::empty()
    } else {
        quoted_chars(s.drop_last()) + quoted_char(s.last())
    }
}

/// `s` as one word of a shell command.
pub open spec fn shell_word(s: Seq<char>) -> Seq<char> {
    if s.len() == 0 || exists|i: int| 0 <= i < s.len() && needs_quote(#[trigger] s[i]) {
        seq!['\''] + quoted_chars(s) + seq!['\'']
    } else {
        s
    }
}

fn char_needs_quote(c: char) -> (r: bool)
    ensures
        r == needs_quote(c),
{
    text::is_whitespace(c) || c == '\'' || c == '"' || c == '\\' || c == '$' || c == '`' || c == '('
        || c == ')' || c == '[' || c == ']' || c == '{' || c == '}' || c == '*' || c == '?' || c
        == '&' || c == ';' || c == '<' || c == '>' || c == '|' || c == '!'
}

pub fn shell_quote(value: &str) -> (r: String)
    ensures
        r@ == shell_word(value@),
{
    let chars: Vec<char> = text::chars_of(value);
    let mut quote: bool = chars.len() == 0;
    let mut i: usize = 0;
    while i < chars.len()
        invariant
            i <= chars.len(),
            chars@ == value@,
            quote == (chars@.len() == 0 || exists|k: int|
                0 <= k < i && needs_quote(#[trigger] chars@[k])),
        decreases chars.len() - i,
    {
        if char_needs_quote(chars[i]) {
            quote = true;
        }
        i += 1;
    }
    if !quote {
        return text::copy(value);
    }
    let mut out: String = String::new();
    out.push('\'');
    i = 0;
    proof {
        assert(out@ =~= seq!['\''] + quoted_chars(value@.subrange(0, 0)));
    }
    while i < chars.len()
        invariant
            i <= chars.len(),
            chars@ == value@,
            out@ == seq!['\''] + quoted_chars(value@.subrange(0, i as int)),
        decreases chars.len() - i,
    {
        let c: char = chars[i];
        if c == '\'' {
            out.push('\'');
            out.push('"');
            out.push('\'');
            out.push('"');
            out.push('\'');
        } else {
            out.push(c);
        }
        proof {
            assert(value@.subrange(0, i + 1).drop_last() =~= value@.subrange(0, i as int));
            assert(out@ =~= seq!['\''] + (quoted_chars(value@.subrange(0, i as int))
                + quoted_char(c)));
        }
        i += 1;
    }
    out.push('\'');
    proof {
        assert(value@.subrange(0, value@.len() as int) =~= value@);
        assert(out@ =~= seq!['\''] + quoted_chars(value@) + seq!['\'']);
    }
    out
}

/// Each argument behind a space.
pub open spec fn spaced_words(v: Seq<Seq<char>>) -> Seq<char>
    decreases v.len(),
{
    if v.len() == 0 {
        Seq::empty()
    } else {
        spaced_words(v.drop_last()) + seq![' '] + shell_word(v.last())
    }
}

/// A command as a shell would read it.
pub open spec fn command_line(program: Seq<char>, v: Seq<Seq<char>>) -> Seq<char> {
    shell_word(program) + spaced_words(v)
}

pub fn command_text(program: &str, arguments: &Vec<String>) -> (r: String)
    ensures
        r@ == command_line(program@, text::texts(arguments@)),
{
    let ghost all = text::texts(arguments@);
    let mut out: String = shell_quote(program);
    let mut i: usize = 0;
    proof {
        assert(out@ =~= shell_word(program@) + spaced_words(all.subrange(0, 0)));
    }
    while i < arguments.len()
        invariant
            i <= arguments.len(),
            all == text::texts(arguments@),
            out@ == shell_word(program@) + spaced_words(all.subrange(0, i as int)),
        decreases arguments.len() - i,
    {
        out.push(' ');
        out.append(shell_quote(arguments[i].as_str()).as_str());
        proof {
            assert(all.subrange(0, i + 1).drop_last() =~= all.subrange(0, i as int));
            assert(all[i as int] == arguments@[i as int]@);
            assert(out@ =~= shell_word(program@) + (spaced_words(all.subrange(0, i as int)) + seq![
                ' ',
            ] + shell_word(all[i as int])));
        }
        i += 1;
    }
    proof {
        assert(all.subrange(0, all.len() as int) =~= all);
    }
    out
}

pub open spec fn redirected_line(
    program: Seq<char>,
    v: Seq<Seq<char>>,
    input: Option<Seq<char>>,
    output: Seq<char>,
) -> Seq<char> {
    command_line(program, v) + (match input {
        Some(i) => " < "@ + shell_word(i),
        None => Seq::empty(),
    }) + (" > "@ + shell_word(output))
}

/// The command, with where it reads from and where it writes to.
pub fn redirected_command_string(
    program: &str,
    arguments: &Vec<String>,
    input: Option<&str>,
    output: &str,
) -> (r: String)
    ensures
        r@ == redirected_line(
            program@,
            text::texts(arguments@),
            crate::build_options::opt_text(input),
            output@,
        ),
{
    let mut out: String = command_text(program, arguments);
    let ghost start = out@;
    match input {
        Some(i) => {
            out.append(" < ");
            out.append(shell_quote(i).as_str());
        },
        None => {},
    }
    out.append(" > ");
    out.append(shell_quote(output).as_str());
    proof {
        assert(out@ =~= redirected_line(
            program@,
            text::texts(arguments@),
            crate::build_options::opt_text(input),
            output@,
        ));
    }
    out
}

/// What a failed command is reported as; `status` is the system's word for it.
pub fn command_failure(program: &str, arguments: &Vec<String>, status: &str) -> (r: String)
    ensures
        r@ == "command failed with status "@ + status@ + ": "@ + command_line(
            program@,
            text::texts(arguments@),
        ),
{
    let mut out: String = text::copy("command failed with status ");
    out.append(status);
    out.append(": ");
    out.append(command_text(program, arguments).as_str());
    out
}

pub fn redirected_command_failure(
    program: &str,
    arguments: &Vec<String>,
    input: Option<&str>,
    output: &str,
    status: &str,
) -> (r: String)
    ensures
        r@ == "command failed with status "@ + status@ + ": "@ + redirected_line(
            program@,
            text::texts(arguments@),
            crate::build_options::opt_text(input),
            output@,
        ),
{
    let mut out: String = text::copy("command failed with status ");
    out.append(status);
    out.append(": ");
    out.append(redirected_command_string(program, arguments, input, output).as_str());
    out
}

pub open spec fn plural(n: nat) -> Seq<char> {
    if n == 1 {
        Seq::empty()
    } else {
        "s"@
    }
}

/// `before`, the number of errors, `noun`, and an `s` unless there is one.
fn counted(before: &str, errors: &Vec<String>, noun: &str) -> (r: String)
    ensures
        r@ == before@ + text::decimal(errors@.len()) + noun@ + plural(errors@.len()),
{
    let mut out: String = text::copy(before);
    out.append(text::decimal_text(errors.len() as u64).as_str());
    out.append(noun);
    if errors.len() != 1 {
        out.append("s");
    }
    proof {
        assert(out@ =~= before@ + text::decimal(errors@.len()) + noun@ + plural(errors@.len()));
    }
    out
}

pub fn generated_lisp_failure_summary(errors: &Vec<String>) -> (r: String)
    ensures
        r@ == "generated Lisp data failed for "@ + text::decimal(errors@.len()) + " target"@
            + plural(errors@.len()),
{
    counted("generated Lisp data failed for ", errors, " target")
}

pub fn leim_generation_failure_summary(errors: &Vec<String>) -> (r: String)
    ensures
        r@ == "LEIM generation failed for "@ + text::decimal(errors@.len()) + " source rule"@
            + plural(errors@.len()),
{
    counted("LEIM generation failed for ", errors, " source rule")
}

pub fn compile_main_failure_summary(errors: &Vec<String>) -> (r: String)
    ensures
        r@ == "compile-main failed to byte-compile "@ + text::decimal(errors@.len()) + " file"@
            + plural(errors@.len()),
{
    counted("compile-main failed to byte-compile ", errors, " file")
}

pub fn preloaded_failure_summary(errors: &Vec<String>) -> (r: String)
    ensures
        r@ == text::decimal(errors@.len()) + " preloaded file"@ + plural(errors@.len())
            + " failed to byte-compile"@,
{
    let mut out: String = counted("", errors, " preloaded file");
    proof {
        reveal_strlit("");
        assert(out@ =~= text::decimal(errors@.len()) + " preloaded file"@ + plural(errors@.len()));
    }
    out.append(" failed to byte-compile");
    out
}

} // verus!
