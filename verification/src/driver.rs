//! The build driver around its stages: which command it was given, what single stages
//! work on, and what it says when it is done.
use vstd::prelude::*;

use crate::build_options::FreshBuildOptions;
use crate::disk;
use crate::disk::Disk;
use crate::lisp_jobs::PipelinePaths;
use crate::paths;
use crate::text;

verus! {

/// A command of the driver.
#[derive(Debug, Clone, Copy, PartialEq, Eq, Structural)]
pub enum DriverCommand {
    /// Measures performance; the first argument is used up.
    Perf,
    /// Runs the shipped program under a stressed collector; the first argument is used
    /// up.
    GcStress,
    /// Builds; all arguments are options.
    FreshBuild,
}

/// The command that the arguments begin with.
pub open spec fn command_of(args: Seq<Seq<char>>) -> DriverCommand {
    if args.len() > 0 && args[0] == "perf"@ {
        DriverCommand::Perf
    } else if args.len() > 0 && args[0] == "gc-stress"@ {
        DriverCommand::GcStress
    } else {
        DriverCommand::FreshBuild
    }
}

pub fn driver_command(args: &Vec<String>) -> (r: DriverCommand)
    ensures
        r == command_of(text::texts(args@)),
{
    if args.len() == 0 {
        return DriverCommand::FreshBuild;
    }
    assert(text::texts(args@)[0] == args@[0]@);
    if text::same(args[0].as_str(), "perf") {
        DriverCommand::Perf
    } else if text::same(args[0].as_str(), "gc-stress") {
        DriverCommand::GcStress
    } else {
        DriverCommand::FreshBuild
    }
}

/// The bytecode whose source is gone.
pub open spec fn has_no_source(disk: Disk, file: Seq<char>) -> bool {
    !disk.file_at(paths::with_extension_of(file, "el"@))
}

/// The bytecode files among `files` that have no source any more.
pub fn lisp_bytecode_without_source(disk: &Disk, files: &Vec<String>) -> (r: Vec<String>)
    ensures
        text::texts(r@) == text::texts(files@).filter(|s: Seq<char>| has_no_source(*disk, s)),
{
    let keep = |f: &str| -> (b: bool)
        ensures
            b == has_no_source(*disk, f@),
        { !disk.is_file(paths::with_extension(f, "el").as_str()) };
    paths::kept(files, keep, Ghost(|s: Seq<char>| has_no_source(*disk, s)))
}

/// A source of the compiler that has to be compiled; a dry run shows all of them.
pub open spec fn compile_first_due(disk: Disk, dry_run: bool, source: Seq<char>) -> bool {
    dry_run || disk::bytecode_stale(disk, source)
}

/// The sources of the compiler that have to be compiled, in their order.
pub fn compile_first_sources_to_compile(disk: &Disk, dry_run: bool, sources: &Vec<String>) -> (r: Vec<
    String,
>)
    ensures
        text::texts(r@) == text::texts(sources@).filter(
            |s: Seq<char>| compile_first_due(*disk, dry_run, s),
        ),
{
    let keep = |s: &str| -> (b: bool)
        ensures
            b == compile_first_due(*disk, dry_run, s@),
        { dry_run || disk::compile_first_needs_rebuild(disk, s) };
    paths::kept(sources, keep, Ghost(|s: Seq<char>| compile_first_due(*disk, dry_run, s)))
}

/// Each file and its compiled form.
pub open spec fn with_bytecode(files: Seq<Seq<char>>) -> Seq<Seq<char>>
    decreases files.len(),
{
    if files.len() == 0 {
        Seq::empty()
    } else {
        with_bytecode(files.drop_last()).push(files.last()).push(
            paths::with_extension_of(files.last(), "elc"@),
        )
    }
}

/// What is removed with the secondary autoloads: each file and its compiled form.
pub fn secondary_loaddefs_artifacts(files: &Vec<String>) -> (r: Vec<String>)
    ensures
        text::texts(r@) == with_bytecode(text::texts(files@)),
{
    let ghost all = text::texts(files@);
    let mut out: Vec<String> = Vec::new();
    let mut i: usize = 0;
    proof {
        assert(text::texts(out@) =~= with_bytecode(all.subrange(0, 0)));
    }
    while i < files.len()
        invariant
            i <= files.len(),
            all == text::texts(files@),
            text::texts(out@) == with_bytecode(all.subrange(0, i as int)),
        decreases files.len() - i,
    {
        proof {
            assert(all[i as int] == files@[i as int]@);
            assert(all.subrange(0, i + 1).drop_last() =~= all.subrange(0, i as int));
        }
        let source: String = text::copy(files[i].as_str());
        proof {
            text::lemma_texts_push(out@, source);
        }
        out.push(source);
        let compiled: String = paths::with_extension(files[i].as_str(), "elc");
        proof {
            text::lemma_texts_push(out@, compiled);
        }
        out.push(compiled);
        i += 1;
    }
    proof {
        assert(all.subrange(0, all.len() as int) =~= all);
    }
    out
}

/// The autoload files whose line ends are normalized: the secondary ones, the two
/// primary ones, and those of the compatibility library.
pub fn generated_loaddefs_files(p: &PipelinePaths, secondary: &Vec<String>) -> (r: Vec<String>)
    ensures
        text::texts(r@) == text::texts(secondary@) + seq![
            paths::joined_path(p.lisp_root@, "loaddefs.el"@),
            paths::joined_path(p.lisp_root@, "theme-loaddefs.el"@),
            paths::joined_path(p.lisp_root@, "emacs-lisp/cl-loaddefs.el"@),
        ],
{
    let mut out: Vec<String> = crate::pipeline::copy_names(secondary);
    let ghost start = text::texts(secondary@);
    let primary: String = paths::join(p.lisp_root.as_str(), "loaddefs.el");
    let themes: String = paths::join(p.lisp_root.as_str(), "theme-loaddefs.el");
    let library: String = paths::join(p.lisp_root.as_str(), "emacs-lisp/cl-loaddefs.el");
    proof {
        text::lemma_texts_push(out@, primary);
        text::lemma_texts_push(out@.push(primary), themes);
        text::lemma_texts_push(out@.push(primary).push(themes), library);
    }
    let ghost tail = seq![primary@, themes@, library@];
    out.push(primary);
    out.push(themes);
    out.push(library);
    proof {
        assert(text::texts(out@) =~= start + tail);
    }
    out
}

/// The arguments that run the training workload in the instrumented program.
pub fn pgo_training_args(train: &str) -> (r: Vec<String>)
    ensures
        text::texts(r@) == seq!["--batch"@, "-Q"@, "-l"@, train@],
{
    let mut v: Vec<String> = Vec::new();
    v.push(text::copy("--batch"));
    v.push(text::copy("-Q"));
    v.push(text::copy("-l"));
    v.push(text::copy(train));
    proof {
        assert(text::texts(v@) =~= seq!["--batch"@, "-Q"@, "-l"@, train@]);
    }
    v
}

/// The arguments that merge the recorded counters into a profile.
pub fn pgo_merge_args(merged: &str, raw_dir: &str) -> (r: Vec<String>)
    ensures
        text::texts(r@) == seq!["merge"@, "-o"@, merged@, raw_dir@],
{
    let mut v: Vec<String> = Vec::new();
    v.push(text::copy("merge"));
    v.push(text::copy("-o"));
    v.push(text::copy(merged));
    v.push(text::copy(raw_dir));
    proof {
        assert(text::texts(v@) =~= seq!["merge"@, "-o"@, merged@, raw_dir@]);
    }
    v
}

/// The workload that trains the profile.
pub fn pgo_training_workload(repo_root: &str) -> (r: String)
    ensures
        r@ == paths::joined_path(
            paths::joined_path(repo_root@, "xtask"@),
            "pgo-train.el"@,
        ),
{
    let dir: String = paths::join(repo_root, "xtask");
    paths::join(dir.as_str(), "pgo-train.el")
}

/// The workload, where it is there.
pub fn ensure_training_workload(disk: &Disk, train: &str) -> (r: Result<(), String>)
    ensures
        match r {
            Ok(_) => disk.present(train@),
            Err(message) => !disk.present(train@) && message@ == "missing PGO training workload: "@
                + train@,
        },
{
    if disk.is_there(train) {
        Ok(())
    } else {
        Err(text::concat("missing PGO training workload: ", train))
    }
}

/// Where the tool that merges profiles is, under the root of the toolchain as it was
/// printed.
pub fn llvm_profdata_path(sysroot: &str) -> (r: String)
    ensures
        r@ == paths::joined_path(
            text::trimmed(sysroot@),
            "lib/rustlib/x86_64-unknown-linux-gnu/bin/llvm-profdata"@,
        ),
{
    let v: Vec<char> = text::chars_of(sysroot);
    let root: String = text::string_of(text::trim(v.as_slice()));
    paths::join(root.as_str(), "lib/rustlib/x86_64-unknown-linux-gnu/bin/llvm-profdata")
}

/// The tool, where it is there.
pub fn ensure_profdata(disk: &Disk, path: &str) -> (r: Result<(), String>)
    ensures
        match r {
            Ok(_) => disk.present(path@),
            Err(message) => !disk.present(path@) && message@ == "llvm-profdata not found at "@
                + path@
                + ".\n\nInstall it with:\n    rustup component add llvm-tools"@,
        },
{
    if disk.is_there(path) {
        Ok(())
    } else {
        let head: String = text::concat("llvm-profdata not found at ", path);
        Err(
            text::concat(
                head.as_str(),
                ".\n\nInstall it with:\n    rustup component add llvm-tools",
            ),
        )
    }
}

/// A number with its sign.
pub open spec fn signed_text(n: int) -> Seq<char> {
    if n < 0 {
        "-"@ + text::decimal((-n) as nat)
    } else {
        text::decimal(n as nat)
    }
}

fn signed(n: i32) -> (r: String)
    ensures
        r@ == signed_text(n as int),
{
    if n < 0 {
        let up: i64 = -(n as i64);
        let digits: String = text::decimal_text(up as u64);
        text::concat("-", digits.as_str())
    } else {
        text::decimal_text(n as u64)
    }
}

/// How a dump that was to show its candidates failed; a program without a code was ended
/// by a signal.
pub fn dry_run_dump_failure(code: Option<i32>) -> (r: String)
    ensures
        r@ == "aot-preload dry-run: --temacs=pdump exited with "@ + match code {
            Some(n) => signed_text(n as int),
            None => "signal"@,
        },
{
    let how: String = match code {
        Some(n) => signed(n),
        None => text::copy("signal"),
    };
    text::concat("aot-preload dry-run: --temacs=pdump exited with ", how.as_str())
}

/// The program that a dry run of preloading needs is not there.
pub fn missing_temacs(temacs: &str) -> (r: String)
    ensures
        r@ == "aot-preload dry-run: missing "@ + temacs@
            + " (run a full build first, or drop --skip-build)"@,
{
    let head: String = text::concat("aot-preload dry-run: missing ", temacs);
    text::concat(head.as_str(), " (run a full build first, or drop --skip-build)")
}

pub open spec fn truth_text(b: bool) -> Seq<char> {
    if b {
        "true"@
    } else {
        "false"@
    }
}

fn truth(b: bool) -> (r: &'static str)
    ensures
        r@ == truth_text(b),
{
    if b {
        "true"
    } else {
        "false"
    }
}

/// What is said of a build that went through.
pub open spec fn report_text(o: FreshBuildOptions) -> Seq<char> {
    "+ xtask fresh-build finished successfully ("@ + o.profile.name() + ")\n  bin      = "@
        + o.bin_dir@ + "\n  runtime  = "@ + o.runtime_root@ + "\n  repo     = "@ + o.repo_root@
        + "\n  options  = skip_build="@ + truth_text(o.skip_build) + " no_byte_compile="@
        + truth_text(o.no_byte_compile)
}

pub fn finished_report(o: &FreshBuildOptions) -> (r: String)
    ensures
        r@ == report_text(*o),
{
    let a: String = text::concat(
        "+ xtask fresh-build finished successfully (",
        o.profile.as_name(),
    );
    let b: String = text::concat(a.as_str(), ")\n  bin      = ");
    let c: String = text::concat(b.as_str(), o.bin_dir.as_str());
    let d: String = text::concat(c.as_str(), "\n  runtime  = ");
    let e: String = text::concat(d.as_str(), o.runtime_root.as_str());
    let f: String = text::concat(e.as_str(), "\n  repo     = ");
    let g: String = text::concat(f.as_str(), o.repo_root.as_str());
    let h: String = text::concat(g.as_str(), "\n  options  = skip_build=");
    let i: String = text::concat(h.as_str(), truth(o.skip_build));
    let j: String = text::concat(i.as_str(), " no_byte_compile=");
    text::concat(j.as_str(), truth(o.no_byte_compile))
}

} // verus!
