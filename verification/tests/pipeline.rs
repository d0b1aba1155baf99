use neomacs_core::build_options::{
    default_bin_dir, equal_ignoring_case, parse_features, resolve_cli_path, BuildProfile,
    FreshBuildOptions, ParsedCommand,
};
use neomacs_core::disk::{
    bytecode_needs_rebuild, ensure_generation_input, ensure_paths_exist, files_to_remove,
    generated_file_needs_rebuild, generated_outputs_need_rebuild, Disk, FileEntry,
};
use neomacs_core::driver::{
    compile_first_sources_to_compile, driver_command, dry_run_dump_failure, ensure_profdata,
    ensure_training_workload, finished_report, generated_loaddefs_files,
    lisp_bytecode_without_source, llvm_profdata_path, missing_temacs, pgo_merge_args,
    pgo_training_args, pgo_training_workload, secondary_loaddefs_artifacts, DriverCommand,
};
use neomacs_core::fingerprint::{
    executable_fingerprint, fingerprint_magic_end, fingerprint_magic_start,
    fingerprint_placeholder, find_bytes, read_gzip_file, uppercase_hex, GzipError,
};
use neomacs_core::generation::{
    awk_args, awk_step, early_international_jobs, is_bootstrap_dump, leim_generation_jobs,
    loaddefs_generator, plan_unidata_lisp_generation, preloaded_sources_to_compile,
    run_unidata_lisp_generation, sed_args, verify_aot_preload_artifacts, AwkInput, AwkStep,
    UnidataAction, UnidataError, UnidataPlan, UnidataStep,
};
use neomacs_core::lisp_jobs::{
    command_text, compile_main_batches, elisp_string_literal, pgo_dirs, pipeline_paths,
    runtime_envs, shell_quote,
};
use neomacs_core::makefile::{strip_compile_first_assignment, Rule};
use neomacs_core::paths::{
    extension, file_name, join, name_set_of, relative_to, same_path, sorted, with_extension,
    Collation,
};
use neomacs_core::pipeline::{
    fresh_build_stages, job_threads, pgo_generate_flags, pgo_generation_options, pgo_use_flags,
    BuildAction, BuildStage, FreshBuild, GeneratedLispJob, failed_job,
};
use neomacs_core::text::{
    decimal_text, lines, split, trim, words,
};
use neomacs_core::waves::{compile_main_dependency_waves, compile_main_rebuild_closure};

fn strings(items: &[&str]) -> Vec<String> {
    items.iter().map(|item| item.to_string()).collect()
}

fn file(path: &str, modified: u64) -> FileEntry {
    FileEntry {
        path: path.to_string(),
        is_file: true,
        modified: Some(modified),
        contents: Some(String::new()),
    }
}

fn disk(paths: &[(&str, u64)]) -> Disk {
    Disk {
        entries: paths.iter().map(|(path, at)| file(path, *at)).collect(),
    }
}

fn options(args: &[&str]) -> FreshBuildOptions {
    match FreshBuildOptions::parse("/repo", None, None, &strings(args)) {
        Ok(ParsedCommand::Build(options)) => options,
        Ok(ParsedCommand::Help) => panic!("the arguments ask for help"),
        Err(message) => panic!("{message}"),
    }
}

#[test]
fn arguments_are_refused_with_a_reason() {
    let unknown = FreshBuildOptions::parse("/repo", None, None, &strings(&["--wrong"]));
    assert!(matches!(unknown, Err(message) if message.contains("--wrong")));
    let missing = FreshBuildOptions::parse("/repo", None, None, &strings(&["--profile"]));
    assert!(missing.is_err());
    let help = FreshBuildOptions::parse("/repo", None, None, &strings(&["--help"]));
    assert!(matches!(help, Ok(ParsedCommand::Help)));
}

#[test]
fn profiles_are_read_back_from_their_names() {
    for name in [
        "release",
        "profiling",
        "release-pgo",
        "release-pgo-profiling",
        "release-pgo-gen",
        "dev",
        "dev-release",
        "debug",
        "test",
        "mine",
    ] {
        assert_eq!(BuildProfile::parse(name).as_name(), name);
    }
    assert_eq!(BuildProfile::parse("test").target_subdir(), "debug");
    assert_eq!(BuildProfile::parse("bench").target_subdir(), "release");
    assert!(BuildProfile::ReleasePgo.consumes_pgo());
    assert!(!BuildProfile::ReleasePgoGen.consumes_pgo());
    assert_eq!(
        default_bin_dir("/repo", Some("/out"), &BuildProfile::Dev),
        "/out/debug"
    );
    assert_eq!(resolve_cli_path("/repo", "a/b"), "/repo/a/b");
    assert_eq!(resolve_cli_path("/repo", "/a/b"), "/a/b");
    assert_eq!(parse_features("a, b,,c"), strings(&["a", "b", "c"]));
    assert!(equal_ignoring_case("Yes", "yES"));
}

#[test]
fn a_build_runs_its_stages_in_order() {
    let mut build = FreshBuild::start(&options(&["--release"]), false);
    let mut seen = Vec::new();
    let mut action = build.first();
    loop {
        match action {
            BuildAction::Run(stage) => seen.push(stage),
            BuildAction::Finish => break,
            BuildAction::Abort(message) => panic!("{message}"),
        }
        action = build.advance(Ok(()));
    }
    assert_eq!(seen, fresh_build_stages(&options(&["--release"]), false));
    assert_eq!(seen[0], BuildStage::CheckInputs);
    assert_eq!(seen[seen.len() - 1], BuildStage::Report);
    assert!(seen.contains(&BuildStage::CompileMain));
    assert!(!seen.contains(&BuildStage::AotDryRunGate));
}

#[test]
fn a_failed_stage_ends_the_build() {
    let mut build = FreshBuild::start(&options(&["--release"]), false);
    match build.advance(Err("broken".to_string())) {
        BuildAction::Abort(message) => assert_eq!(message, "broken"),
        _ => panic!("the build goes on"),
    }
    assert!(build.failed);
}

#[test]
fn a_dry_run_of_preloading_stops_at_its_gate() {
    let stages = fresh_build_stages(&options(&["--release", "--aot-preload", "--dry-run"]), true);
    assert_eq!(stages[stages.len() - 1], BuildStage::AotDryRunGate);
    assert!(stages.contains(&BuildStage::SignImages));
    assert!(!stages.contains(&BuildStage::FinalDump));
    let source_only = fresh_build_stages(&options(&["--profile", "dev"]), false);
    for stage in [
        BuildStage::RemoveBytecode,
        BuildStage::CompileFirst,
        BuildStage::PreloadedLisp,
        BuildStage::CompileMain,
    ] {
        assert!(!source_only.contains(&stage));
    }
}

#[test]
fn the_instrumented_pass_has_its_own_directory() {
    let pgo = options(&["--profile", "release-pgo"]);
    let instrumented = pgo_generation_options(&pgo, None);
    assert_eq!(instrumented.profile, BuildProfile::ReleasePgoGen);
    assert_eq!(instrumented.bin_dir, "/repo/target/release-pgo-gen");
    assert_eq!(pgo_generate_flags("/raw"), "-Cprofile-generate=/raw");
    assert_eq!(pgo_use_flags("/merged"), "-Cprofile-use=/merged");
    let (raw, merged) = pgo_dirs(&pgo);
    assert_ne!(raw, merged);
    assert_eq!(job_threads(3, 8), 3);
    assert_eq!(job_threads(30, 8), 8);
    assert_eq!(job_threads(0, 8), 1);
}

#[test]
fn generated_files_follow_their_dependencies() {
    let there = disk(&[("/out", 5), ("/old", 4), ("/new", 6)]);
    assert!(!generated_file_needs_rebuild(&there, "/out", &strings(&["/old"])));
    assert!(generated_file_needs_rebuild(&there, "/out", &strings(&["/new"])));
    assert!(generated_file_needs_rebuild(&there, "/gone", &strings(&["/old"])));
    assert!(generated_outputs_need_rebuild(
        &there,
        &strings(&["/out", "/gone"]),
        &strings(&["/old"])
    ));
    let lisp = disk(&[("/a.el", 1), ("/a.elc", 2), ("/b.el", 3)]);
    assert!(!bytecode_needs_rebuild(&lisp, "/a.el"));
    assert!(bytecode_needs_rebuild(&lisp, "/b.el"));
    assert!(ensure_paths_exist(&lisp, &strings(&["/a.el"])).is_ok());
    assert!(matches!(
        ensure_paths_exist(&lisp, &strings(&["/a.el", "/c.el"])),
        Err(message) if message.contains("/c.el")
    ));
    assert!(ensure_generation_input(&lisp, "/c.el").is_err());
    assert_eq!(
        files_to_remove(&lisp, false, &strings(&["/a.el", "/c.el"])),
        strings(&["/a.el"])
    );
    assert_eq!(
        files_to_remove(&lisp, true, &strings(&["/a.el", "/c.el"])),
        strings(&["/a.el", "/c.el"])
    );
}

#[test]
fn knots_of_dependencies_are_reported() {
    let rules = vec![
        Rule {
            targets: strings(&["/a.el"]),
            deps: strings(&["/b.el"]),
        },
        Rule {
            targets: strings(&["/b.el"]),
            deps: strings(&["/a.el"]),
        },
    ];
    assert!(compile_main_dependency_waves(&strings(&["/a.el", "/b.el"]), &rules).is_err());
    let chain = vec![Rule {
        targets: strings(&["/a.el"]),
        deps: strings(&["/b.el"]),
    }];
    assert_eq!(
        compile_main_dependency_waves(&strings(&["/a.el", "/b.el"]), &chain).unwrap(),
        vec![strings(&["/b.el"]), strings(&["/a.el"])]
    );
    assert_eq!(
        compile_main_rebuild_closure(
            &strings(&["/a.el", "/b.el"]),
            &chain,
            &strings(&["/b.el"])
        )
        .len(),
        2
    );
}

#[test]
fn batches_hold_every_source_once() {
    let sources: Vec<String> = (0..40).map(|n| format!("/s{n}.el")).collect();
    let batches = compile_main_batches(false, &sources);
    assert_eq!(batches.concat(), sources);
    assert!(batches.iter().all(|batch| batch.len() <= 16));
}

#[test]
fn paths_are_taken_apart() {
    assert_eq!(join("/a", "b"), "/a/b");
    assert_eq!(join("/a", "/b"), "/b");
    assert_eq!(file_name("/a/b.el"), Some("b.el".to_string()));
    assert_eq!(extension("/a/b.el"), Some("el".to_string()));
    assert_eq!(extension("/a/.el"), None);
    assert_eq!(with_extension("/a/b.el", "elc"), "/a/b.elc");
    assert!(same_path("/a//b/", "/a/b"));
    assert_eq!(relative_to("/a", "/a/b/c"), Some(strings(&["b", "c"])));
    assert_eq!(relative_to("/a", "/b"), None);
    assert_eq!(
        sorted(Collation::Path, &strings(&["/b", "/a/b", "/a"])),
        strings(&["/a", "/a/b", "/b"])
    );
    assert_eq!(
        name_set_of(Collation::Text, &strings(&["b", "a", "b"])),
        strings(&["a", "b"])
    );
}

#[test]
fn texts_are_taken_apart() {
    assert_eq!(lines("a\r\nb\n\nc"), strings(&["a", "b", "", "c"]));
    let spaced: Vec<char> = "  a b ".chars().collect();
    assert_eq!(words(&spaced), strings(&["a", "b"]));
    assert_eq!(trim(&spaced).iter().collect::<String>(), "a b");
    let listed: Vec<char> = "a,,b".chars().collect();
    assert_eq!(split(&listed, ','), strings(&["a", "", "b"]));
    assert_eq!(decimal_text(0), "0");
    assert_eq!(decimal_text(18446744073709551615), "18446744073709551615");
    assert_eq!(shell_quote("plain"), "plain");
    assert_ne!(shell_quote("two words"), "two words");
    assert_eq!(elisp_string_literal("a\"b\\c"), "\"a\\\"b\\\\c\"");
    assert_eq!(command_text("cargo", &strings(&["build"])), "cargo build");
}

#[test]
fn a_fingerprint_is_the_digest_of_the_unmarked_image() {
    let image = [
        b"prefix".to_vec(),
        fingerprint_magic_start(),
        fingerprint_placeholder(),
        fingerprint_magic_end(),
        b"suffix".to_vec(),
    ]
    .concat();
    let digest = executable_fingerprint(&image).expect("a record");
    assert_eq!(
        uppercase_hex(&digest),
        "AE0B6C477F6BA41BCC2A8BCCBA8C9B7266A08F2DA9C456414B879D2F66AC502C"
    );
    assert_eq!(executable_fingerprint(&b"no record".to_vec()), None);
    assert_eq!(read_gzip_file(b"no gzip"), Err(GzipError::NotGzip));
}

#[test]
fn the_driver_knows_its_commands() {
    assert_eq!(driver_command(&strings(&["perf", "list"])), DriverCommand::Perf);
    assert_eq!(driver_command(&strings(&["gc-stress"])), DriverCommand::GcStress);
    assert_eq!(driver_command(&strings(&["--release"])), DriverCommand::FreshBuild);
    assert_eq!(driver_command(&vec![]), DriverCommand::FreshBuild);
}

#[test]
fn single_stages_find_what_they_work_on() {
    let lisp = disk(&[("/l/a.el", 1), ("/l/a.elc", 2), ("/l/b.elc", 2), ("/l/c.el", 1)]);
    assert_eq!(
        lisp_bytecode_without_source(&lisp, &strings(&["/l/a.elc", "/l/b.elc"])),
        strings(&["/l/b.elc"])
    );
    assert_eq!(
        compile_first_sources_to_compile(&lisp, false, &strings(&["/l/a.el", "/l/c.el"])),
        strings(&["/l/c.el"])
    );
    assert_eq!(
        compile_first_sources_to_compile(&lisp, true, &strings(&["/l/a.el"])).len(),
        1
    );
    assert_eq!(
        preloaded_sources_to_compile(&lisp, false, "/l", &strings(&["/l/a.el", "/l/c.el"]), &vec![]),
        strings(&["/l/c.el"])
    );
    assert_eq!(
        secondary_loaddefs_artifacts(&strings(&["/l/x.el"])),
        strings(&["/l/x.el", "/l/x.elc"])
    );
    let paths = pipeline_paths(&options(&["--release"]), "");
    assert_eq!(
        generated_loaddefs_files(&paths, &strings(&["/x"])),
        strings(&[
            "/x",
            "/repo/lisp/loaddefs.el",
            "/repo/lisp/theme-loaddefs.el",
            "/repo/lisp/emacs-lisp/cl-loaddefs.el",
        ])
    );
    assert_eq!(
        loaddefs_generator(&disk(&[]), &paths),
        "/repo/lisp/emacs-lisp/loaddefs-gen.el"
    );
    assert!(is_bootstrap_dump("bootstrap-neomacs", "bootstrap-neomacs-12ab.pdump"));
    assert!(!is_bootstrap_dump("bootstrap-neomacs", "neomacs-12ab.pdump"));
    assert!(verify_aot_preload_artifacts(&disk(&[]), "/d").is_err());
    assert_eq!(
        runtime_envs(&options(&["--release"])),
        vec![("NEOMACS_RUNTIME_ROOT".to_string(), "/repo".to_string())]
    );
}

#[test]
fn the_driver_says_what_went_wrong() {
    assert_eq!(
        dry_run_dump_failure(Some(-3)),
        "aot-preload dry-run: --temacs=pdump exited with -3"
    );
    assert_eq!(
        dry_run_dump_failure(None),
        "aot-preload dry-run: --temacs=pdump exited with signal"
    );
    assert_eq!(
        missing_temacs("/t"),
        "aot-preload dry-run: missing /t (run a full build first, or drop --skip-build)"
    );
    let train = pgo_training_workload("/repo");
    assert_eq!(train, "/repo/xtask/pgo-train.el");
    assert_eq!(
        ensure_training_workload(&disk(&[]), &train),
        Err("missing PGO training workload: /repo/xtask/pgo-train.el".to_string())
    );
    assert_eq!(pgo_training_args(&train).len(), 4);
    assert_eq!(
        pgo_merge_args("/m", "/r"),
        strings(&["merge", "-o", "/m", "/r"])
    );
    let tool = llvm_profdata_path("/sysroot\n");
    assert_eq!(
        tool,
        "/sysroot/lib/rustlib/x86_64-unknown-linux-gnu/bin/llvm-profdata"
    );
    assert!(ensure_profdata(&disk(&[(tool.as_str(), 1)]), &tool).is_ok());
    assert!(ensure_profdata(&disk(&[]), &tool).is_err());
    let report = finished_report(&options(&["--release"]));
    assert_eq!(
        report,
        "+ xtask fresh-build finished successfully (release)\n  bin      = /repo/target/release\n  runtime  = /repo\n  repo     = /repo\n  options  = skip_build=false no_byte_compile=false"
    );
}

#[test]
fn character_tables_are_generated_by_awk() {
    let paths = pipeline_paths(&options(&["--release"]), "");
    let jobs = early_international_jobs(&paths);
    assert_eq!(jobs.len(), 4);
    assert_eq!(jobs[0].input, AwkInput::Stdin);
    assert_eq!(jobs[1].input, AwkInput::Gunzip);
    assert_eq!(awk_args(&jobs[0])[0], "-f");
    assert!(matches!(awk_step(&disk(&[]), &jobs[0]), AwkStep::Fail(_)));
    assert_eq!(sed_args().len(), 4);
    assert!(leim_generation_jobs(&disk(&[]), &paths).is_err());
}

#[test]
fn unicode_data_is_generated_step_by_step() {
    let paths = pipeline_paths(&options(&["--release"]), "");
    assert!(matches!(
        plan_unidata_lisp_generation(&disk(&[]), &paths),
        Err(UnidataError::MissingInput(_))
    ));
    let nothing = UnidataPlan {
        unifiles: vec![],
        unifiles_need_rebuild: false,
        charprop_needs_rebuild: false,
        extra_needs_rebuild: false,
        extra_jobs: vec![],
    };
    assert!(matches!(
        run_unidata_lisp_generation(
            &disk(&[]),
            &paths,
            &nothing,
            UnidataStep::MakeText,
            &vec![]
        ),
        UnidataAction::Finish
    ));
}

#[test]
fn bytes_are_found_where_they_first_stand() {
    assert_eq!(find_bytes(b"abcabc", b"bc"), Some(1));
    assert_eq!(find_bytes(b"abc", b""), Some(0));
    assert_eq!(find_bytes(b"", b""), Some(0));
    assert_eq!(find_bytes(b"ab", b"abc"), None);
}

#[test]
fn an_assignment_to_compile_first_is_told_by_its_name() {
    let strip = |line: &str| {
        let chars: Vec<char> = line.chars().collect();
        strip_compile_first_assignment(&chars).map(|rest| rest.iter().collect::<String>())
    };
    assert_eq!(strip("COMPILE_FIRST = a b").as_deref(), Some("a b"));
    assert_eq!(strip("COMPILE_FIRST += c").as_deref(), Some("c"));
    assert_eq!(strip("COMPILE_FIRST: x"), None);
    assert_eq!(strip("OTHER = a"), None);
}

#[test]
fn a_job_that_failed_leaves_no_part_of_its_output() {
    let job = GeneratedLispJob {
        name: "lisp/finder-inf.el".to_string(),
        args: Vec::new(),
        output: "/repo/lisp/finder-inf.el".to_string(),
    };
    let told = "lisp/finder-inf.el (exit status 1)".to_string();
    assert_eq!(
        failed_job(&job, "exit status 1", false),
        (told.clone(), Some("/repo/lisp/finder-inf.el".to_string()))
    );
    assert_eq!(failed_job(&job, "exit status 1", true), (told, None));
}
