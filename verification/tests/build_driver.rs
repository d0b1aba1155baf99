use neomacs_core::build_options::{usage_text, BuildProfile, FreshBuildOptions, ParsedCommand};
use neomacs_core::disk::{
    bytecode_needs_rebuild_with_dependencies, gnu_no_byte_compile_marker_line, Disk, FileEntry,
};
use neomacs_core::fingerprint::{
    executable_fingerprint, executable_fingerprint_slots, fingerprint_magic_end,
    fingerprint_magic_start, fingerprint_placeholder, patch_executable_fingerprint, read_gzip_file,
};
use neomacs_core::generation::{
    path_lookup_candidate_names_with, plan_unidata_lisp_generation, resolve_program_on_path,
    UnidataError,
};
use neomacs_core::lisp_jobs::{
    bootstrap_byte_compile_emacs, build_time_emacs_env_vars, compile_first_args_for_source,
    compile_main_args_for_source, compile_main_emacs, compile_main_failure_summary,
    custom_dependencies_generation_args, executable_name, finder_data_generation_args,
    initial_cargo_build_args, leim_generation_args, loaddefs_generation_args, pipeline_paths,
    preloaded_lisp_args_for_source, semantic_grammar_args, should_remove_outer_cargo_env,
    unidata_generator_args, LeimGenerationKind, PipelinePaths, SemanticGrammarKind,
};
use neomacs_core::lisp_tree::{
    compile_main_sources, generated_custom_finder_source_files, generated_leim_source_files,
    generated_lisp_bytecode_files, generated_unidata_admin_files, generated_unidata_source_files,
    inject_no_byte_compile, leim_ext_append_contents, leim_generation_rules,
    lisp_dirs_matching_gnu_subdirs, normalize_lisp_line_endings,
    preloaded_characters_dependency_sources, semantic_grammar_rules, subdirs_change,
    update_subdirs_contents, update_subdirs_file, validate_primary_loaddefs_contents, DirListing,
    DirScan, SubdirsAction, UpdateSubdirsChange, GNU_EBROWSE_DECLARATION_AUTOLOAD,
};
use neomacs_core::makefile::{
    dependencies_of, parse_compile_first_sources_from_str,
    parse_compile_main_dependencies_from_str, parse_main_first_sources_from_str,
    parse_preloaded_lisp_sources_from_str, unidata_generated_lisp_file_names_from_str, Rule,
};
use neomacs_core::waves::{
    compile_main_dependency_waves, compile_main_rebuild_closure,
    compile_main_sources_needing_rebuild,
};
use std::io::Write;

fn strings(items: &[&str]) -> Vec<String> {
    items.iter().map(|item| item.to_string()).collect()
}

fn file(path: &str, modified: u64, contents: &str) -> FileEntry {
    FileEntry {
        path: path.to_string(),
        is_file: true,
        modified: Some(modified),
        contents: Some(contents.to_string()),
    }
}

fn disk(entries: Vec<FileEntry>) -> Disk {
    Disk { entries }
}

fn parse(args: &[&str]) -> Result<ParsedCommand, String> {
    FreshBuildOptions::parse("/repo", None, None, &strings(args))
}

fn parse_options(args: &[&str]) -> FreshBuildOptions {
    match parse(args) {
        Ok(ParsedCommand::Build(options)) => options,
        Ok(ParsedCommand::Help) => panic!("the arguments ask for help"),
        Err(message) => panic!("{message}"),
    }
}

fn repo_paths() -> PipelinePaths {
    PipelinePaths {
        temacs: "/repo/target/debug/neomacs-temacs".to_string(),
        bootstrap: "/repo/target/debug/bootstrap-neomacs".to_string(),
        final_bin: "/repo/target/debug/neomacs".to_string(),
        etc_root: "/repo/etc".to_string(),
        lisp_root: "/repo/lisp".to_string(),
        leim_root: "/repo/leim".to_string(),
        admin_charsets_root: "/repo/admin/charsets".to_string(),
        admin_grammars_root: "/repo/admin/grammars".to_string(),
        admin_unidata_root: "/repo/admin/unidata".to_string(),
        makefile_in: "/repo/lisp/Makefile.in".to_string(),
    }
}

#[test]
fn parse_without_release_is_rejected() {
    let err = match parse(&[]) {
        Err(message) => message,
        Ok(_) => panic!("a profile is required"),
    };
    assert!(
        err.contains("--release"),
        "fresh-build without --release must be rejected with a --release hint; got: {err}"
    );
}

#[test]
fn parse_release_uses_release_bin_dir() {
    let options = parse_options(&["--release"]);
    assert_eq!(options.profile, BuildProfile::Release);
    assert_eq!(options.bin_dir, "/repo/target/release");
}

#[test]
fn parse_dev_skips_byte_compile_by_default() {
    let options = parse_options(&["--profile", "dev"]);
    assert_eq!(options.profile, BuildProfile::Dev);
    assert_eq!(options.bin_dir, "/repo/target/debug");
    assert!(options.no_byte_compile);
}

#[test]
fn parse_dev_release_skips_byte_compile_by_default() {
    let options = parse_options(&["--profile", "dev-release"]);
    assert_eq!(options.profile, BuildProfile::DevRelease);
    assert_eq!(options.bin_dir, "/repo/target/dev-release");
    assert!(options.no_byte_compile);
}

#[test]
fn parse_dev_preserves_no_byte_compile_flag() {
    let options = parse_options(&["--profile", "dev", "--no-byte-compile"]);
    assert_eq!(options.profile, BuildProfile::Dev);
    assert_eq!(options.bin_dir, "/repo/target/debug");
    assert!(options.no_byte_compile);
}

#[test]
fn explicit_bin_dir_overrides_release_default() {
    let options = parse_options(&["--release", "--bin-dir", "out/neomacs-bin"]);
    assert_eq!(options.profile, BuildProfile::Release);
    assert_eq!(options.bin_dir, "/repo/out/neomacs-bin");
}

#[test]
fn explicit_bin_dir_before_release_stays_in_effect() {
    let options = parse_options(&["--bin-dir", "out/neomacs-bin", "--release"]);
    assert_eq!(options.profile, BuildProfile::Release);
    assert_eq!(options.bin_dir, "/repo/out/neomacs-bin");
}

#[test]
fn parse_aot_preload_defaults_off_and_flag_enables() {
    assert!(!parse_options(&["--release"]).aot_preload);
    let options = parse_options(&["--release", "--aot-preload"]);
    assert!(options.aot_preload);
    assert_eq!(options.profile, BuildProfile::Release);
    assert!(!options.dry_run);
    assert!(!options.skip_build);
}

#[test]
fn parse_aot_preload_composes_with_dry_run() {
    let options = parse_options(&["--release", "--aot-preload", "--dry-run"]);
    assert!(options.aot_preload);
    assert!(options.dry_run);
}

#[test]
fn initial_cargo_build_passes_no_features_by_default_on_linux() {
    let options = parse_options(&["--release"]);
    assert_eq!(
        initial_cargo_build_args(&options),
        strings(&["build", "--verbose", "-p", "neomacs", "--profile", "release"])
    );
}

#[test]
fn initial_cargo_build_passes_wpe_webkit_when_requested() {
    let options = parse_options(&["--features", "wpe-webkit", "--release"]);
    assert_eq!(
        initial_cargo_build_args(&options),
        strings(&[
            "build",
            "--verbose",
            "-p",
            "neomacs",
            "--features",
            "wpe-webkit",
            "--profile",
            "release",
        ])
    );
}

#[test]
fn initial_cargo_build_passes_no_features_on_non_linux() {
    let options = parse_options(&["--release"]);
    assert_eq!(
        initial_cargo_build_args(&options),
        strings(&["build", "--verbose", "-p", "neomacs", "--profile", "release"])
    );
}

#[test]
fn compile_main_uses_final_dumped_emacs() {
    let options = parse_options(&["--release"]);
    let paths = pipeline_paths(&options, "");
    assert_eq!(compile_main_emacs(&paths), paths.final_bin.as_str());
    assert_ne!(compile_main_emacs(&paths), paths.bootstrap.as_str());
}

#[test]
fn gen_lisp_bootstrap_byte_compile_uses_bootstrap_emacs() {
    let options = parse_options(&["--release"]);
    let paths = pipeline_paths(&options, "");
    assert_eq!(bootstrap_byte_compile_emacs(&paths), paths.bootstrap.as_str());
    assert_ne!(bootstrap_byte_compile_emacs(&paths), paths.final_bin.as_str());
}

#[test]
fn usage_places_preloaded_lisp_compile_before_final_pdump() {
    let usage = usage_text();
    let preloaded = usage
        .find("bootstrap-neomacs byte-compiles the GNU src/lisp.mk preloaded Lisp set")
        .unwrap();
    let pdump = usage.find("neomacs-temacs --temacs=pdump").unwrap();
    let compile_main = usage
        .find("neomacs byte-compiles the GNU compile-main")
        .unwrap();
    assert!(preloaded < pdump);
    assert!(pdump < compile_main);
}

#[test]
fn parse_preloaded_lisp_sources_matches_gnu_lisp_mk_shape() {
    let lisp = disk(vec![
        file("/tmp/lisp/files.el", 1, ""),
        file("/tmp/lisp/progmodes/elisp-mode.el", 1, ""),
        file("/tmp/lisp/site-load.el", 1, ""),
        file("/tmp/lisp/leim/leim-list.el", 1, ""),
        file(
            "/tmp/lisp/no-byte.el",
            1,
            ";; Local Variables:\n;; no-byte-compile: t\n;; End:\n",
        ),
    ]);
    let contents = r#"
      (load "files")
(load "progmodes/elisp-mode")
(load "leim/leim-list.el" t)
(load "site-load" t)
(load "no-byte")
"#;
    assert_eq!(
        parse_preloaded_lisp_sources_from_str(&lisp, contents, "/tmp/lisp"),
        strings(&["/tmp/lisp/files.el", "/tmp/lisp/progmodes/elisp-mode.el"])
    );
}

#[test]
fn preloaded_characters_dependencies_match_gnu_makefile_rule() {
    let lisp = disk(vec![
        file("/tmp/lisp/international/charscript.el", 1, ""),
        file("/tmp/lisp/international/emoji-zwj.el", 1, ""),
    ]);
    assert_eq!(
        preloaded_characters_dependency_sources(&lisp, "/tmp/lisp"),
        strings(&[
            "/tmp/lisp/international/charscript.el",
            "/tmp/lisp/international/emoji-zwj.el",
        ])
    );
}

#[test]
fn bytecode_rebuild_with_dependencies_follows_newer_dependency_elc() {
    let source = "/tmp/characters.el";
    let dependency = "/tmp/emoji-zwj.el";
    let built = disk(vec![
        file(source, 1, ""),
        file(dependency, 1, ""),
        file("/tmp/characters.elc", 2, "target\n"),
        file("/tmp/emoji-zwj.elc", 3, "elc 0\n"),
    ]);
    assert!(bytecode_needs_rebuild_with_dependencies(
        &built,
        source,
        &strings(&[dependency])
    ));
}

#[test]
fn parse_compile_first_skips_native_entries_by_default() {
    let lisp = disk(vec![
        file("/tmp/lisp/emacs-lisp/early.el", 1, ""),
        file("/tmp/lisp/emacs-lisp/native-only.el", 1, ""),
    ]);
    let contents = "\
COMPILE_FIRST = $(lisp)/emacs-lisp/early.elc \\
                $(lisp)/missing.elc
ifeq ($(HAVE_NATIVE_COMP),yes)
COMPILE_FIRST += $(lisp)/emacs-lisp/native-only.elc
endif
";
    assert_eq!(
        parse_compile_first_sources_from_str(&lisp, contents, "/tmp/lisp", false),
        strings(&["/tmp/lisp/emacs-lisp/early.el"])
    );
}

#[test]
fn parse_compile_first_includes_native_entries_when_enabled() {
    let lisp = disk(vec![
        file("/tmp/lisp/emacs-lisp/early.el", 1, ""),
        file("/tmp/lisp/emacs-lisp/native-only.el", 1, ""),
    ]);
    let contents = "\
ifeq ($(HAVE_NATIVE_COMP),yes)
COMPILE_FIRST += $(lisp)/emacs-lisp/native-only.elc
endif
COMPILE_FIRST += $(lisp)/emacs-lisp/early.elc
";
    assert_eq!(
        parse_compile_first_sources_from_str(&lisp, contents, "/tmp/lisp", true),
        strings(&[
            "/tmp/lisp/emacs-lisp/native-only.el",
            "/tmp/lisp/emacs-lisp/early.el",
        ])
    );
}

#[test]
fn parse_main_first_sources_handles_gnu_multiline_list() {
    let contents = "\
MAIN_FIRST = ./emacs-lisp/eieio.el ./emacs-lisp/eieio-base.el \\
  ./org/ox.el ./already-elc.elc
";
    assert_eq!(
        parse_main_first_sources_from_str(contents, "/repo/lisp"),
        strings(&[
            "/repo/lisp/emacs-lisp/eieio.el",
            "/repo/lisp/emacs-lisp/eieio-base.el",
            "/repo/lisp/org/ox.el",
            "/repo/lisp/already-elc.el",
        ])
    );
}

#[test]
fn parse_compile_main_dependencies_reads_gnu_makefile_rules() {
    let contents = "\
$(lisp)/progmodes/cc-align.elc \\
  $(lisp)/progmodes/cc-cmds.elc: \\
  $(lisp)/progmodes/cc-bytecomp.elc $(lisp)/progmodes/cc-defs.elc
$(lisp)/progmodes/js.elc: $(lisp)/progmodes/cc-mode.elc $(srcdir)/ignored.elc
not-lisp.elc: $(lisp)/ignored.elc
";
    let deps = parse_compile_main_dependencies_from_str(contents, "/repo/lisp");
    let both = strings(&[
        "/repo/lisp/progmodes/cc-bytecomp.el",
        "/repo/lisp/progmodes/cc-defs.el",
    ]);
    assert_eq!(
        dependencies_of(&deps, "/repo/lisp/progmodes/cc-align.el"),
        Some(both.clone())
    );
    assert_eq!(
        dependencies_of(&deps, "/repo/lisp/progmodes/cc-cmds.el"),
        Some(both)
    );
    assert_eq!(
        dependencies_of(&deps, "/repo/lisp/progmodes/js.el"),
        Some(strings(&["/repo/lisp/progmodes/cc-mode.el"]))
    );
    assert_eq!(dependencies_of(&deps, "/repo/lisp/ignored.el"), None);
}

/// The rules of the GNU makefile for CC Mode.
const CC_MODE_RULES: &str = "\
$(lisp)/progmodes/cc-align.elc $(lisp)/progmodes/cc-awk.elc\\
 $(lisp)/progmodes/cc-cmds.elc $(lisp)/progmodes/cc-compat.elc\\
 $(lisp)/progmodes/cc-engine.elc $(lisp)/progmodes/cc-fonts.elc\\
 $(lisp)/progmodes/cc-langs.elc $(lisp)/progmodes/cc-menus.elc\\
 $(lisp)/progmodes/cc-mode.elc $(lisp)/progmodes/cc-styles.elc\\
 $(lisp)/progmodes/cc-subword.elc\\
 $(lisp)/progmodes/cc-vars.elc: \\
   $(lisp)/progmodes/cc-bytecomp.elc $(lisp)/progmodes/cc-defs.elc

$(lisp)/progmodes/cc-align.elc $(lisp)/progmodes/cc-cmds.elc: \\
   $(lisp)/progmodes/cc-vars.elc $(lisp)/progmodes/cc-engine.elc

$(lisp)/progmodes/cc-compat.elc: $(lisp)/progmodes/cc-vars.elc \\
\t$(lisp)/progmodes/cc-styles.elc $(lisp)/progmodes/cc-engine.elc

$(lisp)/progmodes/cc-defs.elc: $(lisp)/progmodes/cc-bytecomp.elc

$(lisp)/progmodes/cc-engine.elc: $(lisp)/progmodes/cc-langs.elc \\
\t$(lisp)/progmodes/cc-vars.elc

$(lisp)/progmodes/cc-fonts.elc: $(lisp)/progmodes/cc-langs.elc \\
\t$(lisp)/progmodes/cc-vars.elc $(lisp)/progmodes/cc-engine.elc

$(lisp)/progmodes/cc-langs.elc: $(lisp)/progmodes/cc-vars.elc

$(lisp)/progmodes/cc-mode.elc: $(lisp)/progmodes/cc-langs.elc \\
\t$(lisp)/progmodes/cc-vars.elc $(lisp)/progmodes/cc-engine.elc \\
\t$(lisp)/progmodes/cc-styles.elc $(lisp)/progmodes/cc-cmds.elc \\
\t$(lisp)/progmodes/cc-align.elc $(lisp)/progmodes/cc-menus.elc

$(lisp)/progmodes/cc-styles.elc: $(lisp)/progmodes/cc-vars.elc \\
\t$(lisp)/progmodes/cc-align.elc

$(lisp)/progmodes/js.elc: $(lisp)/progmodes/cc-mode.elc
";

fn cc_source(rel: &str) -> String {
    format!("/repo/lisp/{rel}")
}

#[test]
fn compile_main_dependency_waves_follow_gnu_cc_mode_rules() {
    let deps = parse_compile_main_dependencies_from_str(CC_MODE_RULES, "/repo/lisp");
    let sources: Vec<String> = [
        "progmodes/cc-bytecomp.el",
        "progmodes/cc-defs.el",
        "progmodes/cc-vars.el",
        "progmodes/cc-langs.el",
        "progmodes/cc-engine.el",
        "progmodes/cc-align.el",
        "progmodes/cc-cmds.el",
        "progmodes/cc-menus.el",
        "progmodes/cc-styles.el",
        "progmodes/cc-mode.el",
        "progmodes/js.el",
    ]
    .iter()
    .map(|rel| cc_source(rel))
    .collect();

    let waves = compile_main_dependency_waves(&sources, &deps).unwrap();
    let wave_index = |rel: &str| {
        let path = cc_source(rel);
        waves
            .iter()
            .position(|wave| wave.contains(&path))
            .unwrap_or_else(|| panic!("{path} missing from dependency waves"))
    };

    let cc_bytecomp = wave_index("progmodes/cc-bytecomp.el");
    let cc_defs = wave_index("progmodes/cc-defs.el");
    let cc_vars = wave_index("progmodes/cc-vars.el");
    let cc_langs = wave_index("progmodes/cc-langs.el");
    let cc_engine = wave_index("progmodes/cc-engine.el");
    let cc_align = wave_index("progmodes/cc-align.el");
    let cc_cmds = wave_index("progmodes/cc-cmds.el");
    let cc_menus = wave_index("progmodes/cc-menus.el");
    let cc_styles = wave_index("progmodes/cc-styles.el");
    let cc_mode = wave_index("progmodes/cc-mode.el");
    let js = wave_index("progmodes/js.el");

    assert!(cc_bytecomp < cc_defs);
    assert!(cc_defs < cc_vars);
    assert!(cc_vars < cc_langs);
    assert!(cc_langs < cc_engine);
    assert!(cc_engine < cc_align);
    assert!(cc_engine < cc_cmds);
    assert!(cc_align < cc_styles);
    for prerequisite in [
        cc_vars, cc_langs, cc_engine, cc_align, cc_cmds, cc_menus, cc_styles,
    ] {
        assert!(prerequisite < cc_mode);
    }
    assert!(cc_mode < js);
}

#[test]
fn compile_main_rebuild_closure_follows_gnu_make_prerequisites() {
    let deps = parse_compile_main_dependencies_from_str(CC_MODE_RULES, "/repo/lisp");
    let sources: Vec<String> = [
        "progmodes/cc-bytecomp.el",
        "progmodes/cc-defs.el",
        "progmodes/cc-vars.el",
        "progmodes/cc-langs.el",
        "progmodes/cc-engine.el",
        "progmodes/cc-align.el",
        "progmodes/cc-cmds.el",
        "progmodes/cc-fonts.el",
        "progmodes/cc-menus.el",
        "progmodes/cc-styles.el",
        "progmodes/cc-mode.el",
        "progmodes/js.el",
    ]
    .iter()
    .map(|rel| cc_source(rel))
    .collect();

    let rebuild =
        compile_main_rebuild_closure(&sources, &deps, &vec![cc_source("progmodes/cc-vars.el")]);

    for rel in [
        "progmodes/cc-vars.el",
        "progmodes/cc-langs.el",
        "progmodes/cc-engine.el",
        "progmodes/cc-align.el",
        "progmodes/cc-cmds.el",
        "progmodes/cc-fonts.el",
        "progmodes/cc-styles.el",
        "progmodes/cc-mode.el",
        "progmodes/js.el",
    ] {
        assert!(
            rebuild.contains(&cc_source(rel)),
            "{rel} should rebuild after cc-vars.elc changes"
        );
    }
    assert!(!rebuild.contains(&cc_source("progmodes/cc-bytecomp.el")));
    assert!(!rebuild.contains(&cc_source("progmodes/cc-defs.el")));
    assert!(!rebuild.contains(&cc_source("progmodes/cc-menus.el")));
}

#[test]
fn compile_main_sources_needing_rebuild_follows_newer_prerequisite_elc() {
    let dep = "/tmp/lisp/progmodes/dep.el";
    let target = "/tmp/lisp/progmodes/target.el";
    let downstream = "/tmp/lisp/progmodes/downstream.el";
    let built = disk(vec![
        file(dep, 1, ";;; source\n"),
        file(target, 1, ";;; source\n"),
        file(downstream, 1, ";;; source\n"),
        file("/tmp/lisp/progmodes/target.elc", 2, "target\n"),
        file("/tmp/lisp/progmodes/downstream.elc", 3, "elc 0\n"),
        file("/tmp/lisp/progmodes/dep.elc", 4, "elc 0\n"),
    ]);
    let deps = vec![
        Rule {
            targets: strings(&[target]),
            deps: strings(&[dep]),
        },
        Rule {
            targets: strings(&[downstream]),
            deps: strings(&[target]),
        },
    ];
    assert_eq!(
        compile_main_sources_needing_rebuild(&built, &strings(&[dep, target, downstream]), &deps),
        strings(&[target, downstream])
    );
}

#[test]
fn generated_lisp_bytecode_files_collects_nested_elc_files() {
    let files = strings(&[
        "/tmp/lisp/org/org.elc",
        "/tmp/lisp/org/org.el",
        "/tmp/lisp/emacs-lisp/macroexp.elc",
    ]);
    assert_eq!(
        generated_lisp_bytecode_files(&files),
        strings(&["/tmp/lisp/emacs-lisp/macroexp.elc", "/tmp/lisp/org/org.elc"])
    );
}

#[test]
fn generated_leim_source_files_match_gnu_bootstrap_clean_scope() {
    let files = generated_leim_source_files(&repo_paths());
    let relative: Vec<String> = files
        .iter()
        .map(|path| path.strip_prefix("/repo/lisp/").unwrap().to_string())
        .collect();
    assert!(relative.contains(&"leim/quail/CTLau-b5.el".to_string()));
    assert!(relative.contains(&"language/pinyin.el".to_string()));
    assert!(relative.contains(&"leim/leim-list.el".to_string()));
    assert_eq!(files.len(), leim_generation_rules().len() + 3);
}

#[test]
fn generated_custom_finder_source_files_match_gnu_autogen_scope() {
    assert_eq!(
        generated_custom_finder_source_files(&repo_paths()),
        strings(&["/repo/lisp/cus-load.el", "/repo/lisp/finder-inf.el"])
    );
}

/// The directories that a scan keeps, each without the root.
fn kept_dirs(scan: DirScan, dirs: &[&str]) -> Vec<String> {
    let all: Vec<String> = dirs
        .iter()
        .map(|dir| {
            if dir.is_empty() {
                "/tmp/lisp".to_string()
            } else {
                format!("/tmp/lisp/{dir}")
            }
        })
        .collect();
    lisp_dirs_matching_gnu_subdirs(scan, "/tmp/lisp", &all)
        .iter()
        .map(|path| {
            path.strip_prefix("/tmp/lisp")
                .unwrap()
                .trim_start_matches('/')
                .to_string()
        })
        .collect()
}

#[test]
fn custom_and_finder_dirs_follow_gnu_subdir_filters() {
    let dirs = [
        "",
        "calendar",
        "leim",
        "leim/quail",
        "obsolete",
        "term",
        "term/xterm",
    ];
    let custom = kept_dirs(DirScan::CustomDependencies, &dirs);
    assert!(custom.contains(&"calendar".to_string()));
    assert!(custom.contains(&"leim".to_string()));
    assert!(custom.contains(&"leim/quail".to_string()));
    assert!(!custom.contains(&"obsolete".to_string()));
    assert!(!custom.contains(&"term".to_string()));
    assert!(custom.contains(&"term/xterm".to_string()));

    let finder = kept_dirs(DirScan::FinderData, &dirs);
    assert!(finder.contains(&"calendar".to_string()));
    assert!(!finder.contains(&"leim".to_string()));
    assert!(!finder.contains(&"leim/quail".to_string()));
    assert!(!finder.contains(&"obsolete".to_string()));
    assert!(!finder.contains(&"term".to_string()));
    assert!(finder.contains(&"term/xterm".to_string()));
}

#[test]
fn loaddefs_dirs_follow_gnu_subdirs_almost_filter() {
    let dirs = kept_dirs(
        DirScan::Loaddefs,
        &[
            "",
            "calendar",
            "obsolete",
            "obsolete/child",
            "term",
            "term/xterm",
        ],
    );
    assert!(dirs.contains(&"".to_string()));
    assert!(dirs.contains(&"calendar".to_string()));
    assert!(!dirs.contains(&"obsolete".to_string()));
    assert!(dirs.contains(&"obsolete/child".to_string()));
    assert!(!dirs.contains(&"term".to_string()));
    assert!(dirs.contains(&"term/xterm".to_string()));
}

#[test]
fn subdirs_update_dirs_follow_gnu_subdirs_subdirs_filter() {
    let dirs = kept_dirs(
        DirScan::SubdirsUpdate,
        &[
            "",
            "cedet",
            "cedet/semantic",
            "cedet-extra",
            "leim",
            "leim/quail",
            "leim-extra",
            "org",
            "org/sub",
            "term",
            "term/xterm",
        ],
    );
    assert!(dirs.contains(&"".to_string()));
    assert!(dirs.contains(&"org".to_string()));
    assert!(dirs.contains(&"org/sub".to_string()));
    assert!(dirs.contains(&"term".to_string()));
    assert!(dirs.contains(&"term/xterm".to_string()));
    assert!(!dirs.contains(&"cedet".to_string()));
    assert!(!dirs.contains(&"cedet/semantic".to_string()));
    assert!(!dirs.contains(&"cedet-extra".to_string()));
    assert!(!dirs.contains(&"leim".to_string()));
    assert!(!dirs.contains(&"leim/quail".to_string()));
    assert!(!dirs.contains(&"leim-extra".to_string()));
}

#[test]
fn update_subdirs_file_matches_gnu_script_order_and_filters() {
    let dirs = strings(&[
        ".hidden",
        "=scratch",
        "CVS",
        "Old",
        "RCS",
        "bad.orig",
        "bad.rej",
        "calc",
        "calendar",
        "compiled.elc",
        "obsolete",
        "source.el",
        "term",
        "vc",
        "work~",
    ]);
    let first = update_subdirs_file(&dirs, None);
    assert_eq!(subdirs_change(&first), UpdateSubdirsChange::Written);
    let written = match first {
        SubdirsAction::Write(contents) => contents,
        _ => panic!("the file is to be written"),
    };
    assert_eq!(
        written,
        update_subdirs_contents("\"vc\" \"calendar\" \"calc\"  \"obsolete\"")
    );

    let second = update_subdirs_file(&dirs, Some(&written));
    assert_eq!(subdirs_change(&second), UpdateSubdirsChange::Unchanged);
}

#[test]
fn update_subdirs_file_removes_stale_file_when_no_subdirs_remain() {
    let dirs = strings(&["term"]);
    let first = update_subdirs_file(&dirs, Some("stale\n"));
    assert_eq!(subdirs_change(&first), UpdateSubdirsChange::Removed);
    let second = update_subdirs_file(&dirs, None);
    assert_eq!(subdirs_change(&second), UpdateSubdirsChange::Unchanged);
}

#[test]
fn compile_main_sources_follow_gnu_no_byte_compile_filter() {
    let lisp = disk(vec![
        file("/tmp/lisp/a.el", 1, ""),
        file("/tmp/lisp/.hidden.el", 1, ""),
        file(
            "/tmp/lisp/skip.el",
            1,
            ";;; skip.el -*- no-byte-compile: t -*-\n",
        ),
        file(
            "/tmp/lisp/skip-existing.el",
            1,
            ";;; skip-existing.el -*- no-byte-compile: t -*-\n",
        ),
        file("/tmp/lisp/skip-existing.elc", 1, ""),
        file("/tmp/lisp/sub/b.el", 1, ""),
    ]);
    let listings = vec![
        DirListing {
            dir: "/tmp/lisp".to_string(),
            files: strings(&[
                "/tmp/lisp/.hidden.el",
                "/tmp/lisp/a.el",
                "/tmp/lisp/skip-existing.el",
                "/tmp/lisp/skip-existing.elc",
                "/tmp/lisp/skip.el",
            ]),
        },
        DirListing {
            dir: "/tmp/lisp/sub".to_string(),
            files: strings(&["/tmp/lisp/sub/b.el"]),
        },
    ];
    assert_eq!(
        compile_main_sources(&lisp, &listings),
        Some(strings(&[
            "/tmp/lisp/a.el",
            "/tmp/lisp/skip-existing.el",
            "/tmp/lisp/sub/b.el",
        ]))
    );
}

#[test]
fn compile_main_failure_summary_reports_failed_file_count() {
    assert_eq!(
        compile_main_failure_summary(&strings(&["/repo/lisp/simple.el"])),
        "compile-main failed to byte-compile 1 file"
    );
    assert_eq!(
        compile_main_failure_summary(&strings(&[
            "/repo/lisp/simple.el",
            "/repo/lisp/calendar/calendar.el",
        ])),
        "compile-main failed to byte-compile 2 files"
    );
}

#[test]
fn gnu_no_byte_compile_marker_matches_makefile_grep_shape() {
    assert!(gnu_no_byte_compile_marker_line(
        ";;; file.el -*- no-byte-compile: t -*-"
    ));
    assert!(gnu_no_byte_compile_marker_line(
        ";; Local Variables: no-byte-compile: t"
    ));
    assert!(gnu_no_byte_compile_marker_line(
        ";; local-no-byte-compile: t"
    ));
    assert!(!gnu_no_byte_compile_marker_line(";; ano-byte-compile: t"));
    assert!(gnu_no_byte_compile_marker_line(
        ";; ano-byte-compile: t; no-byte-compile: t"
    ));
    assert!(!gnu_no_byte_compile_marker_line(
        ";;; file.el -*- no-byte-compile: nil -*-"
    ));
    assert!(!gnu_no_byte_compile_marker_line("(setq no-byte-compile t)"));
}

#[test]
fn inject_no_byte_compile_matches_loaddefs_boot_intent() {
    let input = "\
;;; loaddefs.el --- generated -*- lexical-binding:t -*-
;; Local Variables:
;; version-control: never
;; End:
";
    let output = inject_no_byte_compile(input);
    assert!(output.contains(";; Local Variables:\n;; no-byte-compile: t\n"));
}

#[test]
fn validate_primary_loaddefs_accepts_gnu_docstring_layout() {
    let contents = format!(
        "\
;;; loaddefs.el --- generated

{}

\x0c
;;; End of scraped data
;; Local Variables:
;; End:
",
        GNU_EBROWSE_DECLARATION_AUTOLOAD
    );
    validate_primary_loaddefs_contents(&contents).unwrap();
}

#[test]
fn validate_primary_loaddefs_rejects_crlf_output_as_a_gnu_mismatch() {
    let contents = [
        ";;; loaddefs.el --- generated\r\n",
        "\r\n",
        "(autoload 'ebrowse-tags-find-declaration \"ebrowse\"\r\n",
        "\"Find declaration of member at point.\" t)\r\n",
        "\r\n",
        "\x0c\r\n",
        ";;; End of scraped data\r\n",
        ";; Local Variables:\r\n",
        ";; coding: utf-8-emacs-unix\r\n",
        ";; End:\r\n",
    ]
    .concat();
    let err = validate_primary_loaddefs_contents(&contents).unwrap_err();
    assert!(
        err.contains("missing GNU end boundary"),
        "CRLF output must remain a surfaced GNU mismatch: {err}"
    );
}

#[test]
fn normalize_lisp_line_endings_rewrites_crlf() {
    assert_eq!(
        normalize_lisp_line_endings("first\r\nsecond\r\n"),
        Some("first\nsecond\n".to_string())
    );
}

#[test]
fn validate_primary_loaddefs_rejects_moved_docstring_layout() {
    let contents = "\
;;; loaddefs.el --- generated

(autoload 'ebrowse-tags-find-declaration \"ebrowse\" \"\\
 t)

Find declaration of member at point.\"\x0c
;;; End of scraped data
;; Local Variables:
;; End:
";
    let err = validate_primary_loaddefs_contents(contents).unwrap_err();
    assert!(
        err.contains("moved an ebrowse docstring"),
        "unexpected error: {err}"
    );
}

#[test]
fn compile_first_args_match_gnu_non_native_shape() {
    assert_eq!(
        compile_first_args_for_source(false, "/tmp/macroexp.el"),
        strings(&["--batch", "-f", "batch-byte-compile", "/tmp/macroexp.el"])
    );
}

#[test]
fn compile_first_args_match_gnu_native_shape() {
    assert_eq!(
        compile_first_args_for_source(true, "/tmp/macroexp.el"),
        strings(&[
            "--batch",
            "-l",
            "comp",
            "-f",
            "batch-byte-compile",
            "/tmp/macroexp.el",
        ])
    );
}

#[test]
fn compile_main_args_match_gnu_non_native_shape() {
    assert_eq!(
        compile_main_args_for_source(false, "/tmp/simple.el"),
        strings(&[
            "--batch",
            "--no-site-file",
            "--no-site-lisp",
            "--eval",
            "(setq load-prefer-newer t byte-compile-warnings 'all)",
            "--eval",
            "(setq org--inhibit-version-check t)",
            "-f",
            "batch-byte-compile",
            "/tmp/simple.el",
        ])
    );
}

#[test]
fn compile_main_args_match_gnu_native_shape() {
    assert_eq!(
        compile_main_args_for_source(true, "/tmp/simple.el"),
        strings(&[
            "--batch",
            "--no-site-file",
            "--no-site-lisp",
            "--eval",
            "(setq load-prefer-newer t byte-compile-warnings 'all)",
            "--eval",
            "(setq org--inhibit-version-check t)",
            "-l",
            "comp",
            "-f",
            "batch-byte+native-compile",
            "/tmp/simple.el",
        ])
    );
}

#[test]
fn preloaded_lisp_args_match_gnu_non_native_shape() {
    assert_eq!(
        preloaded_lisp_args_for_source(false, "/tmp/elisp-mode.el"),
        strings(&[
            "--batch",
            "--no-site-file",
            "--no-site-lisp",
            "--eval",
            "(setq load-prefer-newer t byte-compile-warnings 'all)",
            "--eval",
            "(setq org--inhibit-version-check t)",
            "-l",
            "bytecomp",
            "-f",
            "byte-compile-refresh-preloaded",
            "-f",
            "batch-byte-compile",
            "/tmp/elisp-mode.el",
        ])
    );
}

#[test]
fn preloaded_lisp_args_match_gnu_native_shape() {
    assert_eq!(
        preloaded_lisp_args_for_source(true, "/tmp/elisp-mode.el"),
        strings(&[
            "--batch",
            "--no-site-file",
            "--no-site-lisp",
            "--eval",
            "(setq load-prefer-newer t byte-compile-warnings 'all)",
            "--eval",
            "(setq org--inhibit-version-check t)",
            "-l",
            "comp",
            "-f",
            "byte-compile-refresh-preloaded",
            "-f",
            "batch-byte+native-compile",
            "/tmp/elisp-mode.el",
        ])
    );
}

#[test]
fn loaddefs_generation_args_use_gnu_emacs_batch_entrypoint() {
    let rendered = loaddefs_generation_args(
        "/repo/lisp/emacs-lisp/loaddefs-gen.el",
        &strings(&["/repo/lisp", "/repo/lisp/calendar"]),
    );
    assert!(!rendered.contains(&"--eval".to_string()));
    assert!(rendered.contains(&"loaddefs-generate--emacs-batch".to_string()));
    assert_eq!(
        &rendered[rendered.len() - 2..],
        ["/repo/lisp", "/repo/lisp/calendar"]
    );
}

#[test]
fn custom_dependencies_generation_args_match_gnu_shape() {
    assert_eq!(
        custom_dependencies_generation_args(
            "/repo/lisp",
            "/repo/lisp/cus-load.el",
            &strings(&["/repo/lisp", "/repo/lisp/calendar"]),
        ),
        strings(&[
            "--batch",
            "--no-site-file",
            "--no-site-lisp",
            "-l",
            "cus-dep",
            "--eval",
            "(setq generated-custom-dependencies-file (unmsys--file-name \"/repo/lisp/cus-load.el\"))",
            "-f",
            "custom-make-dependencies",
            "/repo/lisp",
            "/repo/lisp/calendar",
        ])
    );
}

#[test]
fn finder_data_generation_args_match_gnu_shape() {
    assert_eq!(
        finder_data_generation_args(
            "/repo/lisp",
            "/repo/lisp/finder-inf.el",
            &strings(&["/repo/lisp", "/repo/lisp/calendar"]),
        ),
        strings(&[
            "--batch",
            "--no-site-file",
            "--no-site-lisp",
            "-l",
            "finder",
            "--eval",
            "(setq generated-finder-keywords-file (unmsys--file-name \"/repo/lisp/finder-inf.el\"))",
            "-f",
            "finder-compile-keywords-make-dist",
            "/repo/lisp",
            "/repo/lisp/calendar",
        ])
    );
}

#[test]
fn semantic_grammar_targets_follow_gnu_admin_grammars_makefile() {
    let rules = semantic_grammar_rules();
    let outputs: Vec<&str> = rules.iter().map(|target| target.output.as_str()).collect();
    assert_eq!(
        outputs,
        vec![
            "cedet/semantic/bovine/c-by.el",
            "cedet/semantic/bovine/make-by.el",
            "cedet/semantic/bovine/scm-by.el",
            "cedet/semantic/grammar-wy.el",
            "cedet/semantic/wisent/javat-wy.el",
            "cedet/semantic/wisent/js-wy.el",
            "cedet/semantic/wisent/python-wy.el",
            "cedet/srecode/srt-wy.el",
        ]
    );
}

#[test]
fn semantic_grammar_args_match_gnu_wisent_shape() {
    assert_eq!(
        semantic_grammar_args(
            SemanticGrammarKind::Wisent,
            "/repo/lisp/cedet/srecode/srt-wy.el",
            "/repo/admin/grammars/srecode-template.wy",
        ),
        strings(&[
            "--batch",
            "--no-site-file",
            "--no-site-lisp",
            "--eval",
            "(setq load-prefer-newer t)",
            "-l",
            "cl-extra",
            "-l",
            "semantic/wisent/grammar",
            "-f",
            "wisent-batch-make-parser",
            "-o",
            "/repo/lisp/cedet/srecode/srt-wy.el",
            "/repo/admin/grammars/srecode-template.wy",
        ])
    );
}

#[test]
fn leim_generation_args_match_gnu_titdic_shape() {
    assert_eq!(
        leim_generation_args(
            LeimGenerationKind::TitDic,
            "/repo/lisp/leim/quail",
            "/repo/leim/CXTERM-DIC/CCDOSPY.tit",
            "/repo/lisp/leim/quail/CCDOSPY.el",
        ),
        strings(&[
            "--batch",
            "--no-site-file",
            "--no-site-lisp",
            "-l",
            "titdic-cnv",
            "-f",
            "batch-tit-dic-convert",
            "-dir",
            "/repo/lisp/leim/quail",
            "/repo/leim/CXTERM-DIC/CCDOSPY.tit",
        ])
    );
}

#[test]
fn leim_ext_append_contents_matches_gnu_sed_filter() {
    let input = "\
plain-entry
;comment
;inc one-level
;;inc two-level
";
    assert_eq!(
        leim_ext_append_contents(input),
        "plain-entry\n; one-level\n;; two-level\n"
    );
}

fn record() -> Vec<u8> {
    [
        fingerprint_magic_start(),
        fingerprint_placeholder(),
        fingerprint_magic_end(),
    ]
    .concat()
}

#[test]
fn executable_fingerprint_patch_is_idempotent() {
    let binary = [b"prefix".to_vec(), record(), b"suffix".to_vec()].concat();
    let first = executable_fingerprint(&binary).unwrap();
    let patched_once = patch_executable_fingerprint(&binary, &first).unwrap();

    let second = executable_fingerprint(&patched_once).unwrap();
    assert_eq!(first, second);
    let patched_twice = patch_executable_fingerprint(&patched_once, &second).unwrap();
    assert_eq!(patched_once, patched_twice);
}

#[test]
fn executable_fingerprint_patches_all_records() {
    let binary = [b"one".to_vec(), record(), b"two".to_vec(), record()].concat();
    let fingerprint = vec![0xA5; 32];
    let patched = patch_executable_fingerprint(&binary, &fingerprint).unwrap();
    let slots = executable_fingerprint_slots(&patched);
    assert_eq!(slots.len(), 2);
    for slot in slots {
        assert_eq!(&patched[slot..slot + 32], &fingerprint[..]);
    }
}

#[test]
fn executable_name_uses_platform_suffix() {
    assert_eq!(executable_name("neomacs", ""), "neomacs");
    assert_eq!(executable_name("neomacs", ".exe"), "neomacs.exe");
}

#[test]
fn resolve_program_on_path_returns_absolute_path_from_path() {
    let cargo = "/tmp/bin/cargo";
    let there = disk(vec![file(cargo, 1, "")]);
    let names = path_lookup_candidate_names_with("cargo", None);
    assert_eq!(
        resolve_program_on_path(&there, &names, Some(&strings(&["/tmp/bin"])), "/unused"),
        Some(cargo.to_string())
    );
}

#[test]
fn resolve_program_on_path_uses_pathext_before_extensionless_files() {
    let there = disk(vec![
        file("/tmp/bin/gunzip", 1, "not a Windows executable"),
        file("/tmp/bin/gunzip.exe", 1, ""),
    ]);
    let names = path_lookup_candidate_names_with("gunzip", Some(&strings(&[".com", ".exe"])));
    assert_eq!(
        resolve_program_on_path(&there, &names, Some(&strings(&["/tmp/bin"])), "/unused"),
        Some("/tmp/bin/gunzip.exe".to_string())
    );
}

#[test]
fn read_gzip_file_decodes_charset_generation_inputs_without_external_tools() {
    let mut encoder =
        flate2::write::GzEncoder::new(Vec::new(), flate2::Compression::default());
    encoder.write_all(b"charset data\n").unwrap();
    let compressed = encoder.finish().unwrap();
    assert_eq!(read_gzip_file(&compressed).unwrap(), b"charset data\n");
}

#[test]
fn outer_cargo_env_filter_strips_package_build_vars_only() {
    for key in [
        "CARGO",
        "CARGO_BIN_EXE_xtask",
        "CARGO_CFG_TARGET_OS",
        "CARGO_CRATE_NAME",
        "CARGO_FEATURE_DEFAULT",
        "CARGO_MANIFEST_DIR",
        "CARGO_MANIFEST_LINKS",
        "CARGO_MANIFEST_PATH",
        "CARGO_PKG_NAME",
        "CARGO_PRIMARY_PACKAGE",
        "OUT_DIR",
    ] {
        assert!(should_remove_outer_cargo_env(Some(key)), "{key}");
    }
    for key in [
        "CARGO_BUILD_JOBS",
        "CARGO_HOME",
        "CARGO_NET_OFFLINE",
        "CARGO_PROFILE_RELEASE_LTO",
        "CARGO_TARGET_DIR",
        "CARGO_TERM_COLOR",
        "RUSTFLAGS",
    ] {
        assert!(!should_remove_outer_cargo_env(Some(key)), "{key}");
    }
}

#[test]
fn build_time_emacs_env_filter_covers_lisp_and_native_load_paths() {
    assert_eq!(
        build_time_emacs_env_vars(),
        ["EMACSLOADPATH", "EMACSNATIVELOADPATH"]
    );
}

#[test]
fn unidata_generated_lisp_file_names_match_gnu_makefile_shape() {
    let contents = r#"
(defconst unidata-file-alist
  '(
    ("uni-name.el"
     name
     1)
    ("uni-category.el"
     category
     2)
    ("not-generated.el"
     ignored)
    ("uni-special-uppercase.el"
     special)))
"#;
    assert_eq!(
        unidata_generated_lisp_file_names_from_str(contents),
        strings(&[
            "uni-category.el",
            "uni-name.el",
            "uni-special-uppercase.el",
        ])
    );
}

#[test]
fn unidata_generator_args_use_gnu_batch_shape() {
    assert_eq!(
        unidata_generator_args(
            "/repo/admin/unidata",
            "/repo/admin/unidata/unidata-gen.el",
            "unidata-gen-file",
        ),
        strings(&[
            "--batch",
            "--no-site-file",
            "--no-site-lisp",
            "-L",
            "/repo/admin/unidata",
            "-l",
            "/repo/admin/unidata/unidata-gen.el",
            "-f",
            "unidata-gen-file",
        ])
    );
}

#[test]
fn generated_unidata_source_files_match_gnu_gen_clean_shape() {
    let generator = r#"
(defconst unidata-file-alist
  '(
    ("uni-name.el"
     name)
    ("uni-category.el"
     category)))
"#;
    let files = generated_unidata_source_files(&repo_paths(), generator);
    for name in [
        "charscript.el",
        "emoji-zwj.el",
        "charprop.el",
        "uni-name.el",
        "uni-category.el",
        "emoji-labels.el",
        "idna-mapping.el",
        "uni-confusable.el",
        "uni-scripts.el",
    ] {
        assert!(files.contains(&format!("/repo/lisp/international/{name}")));
    }
}

#[test]
fn generated_unidata_admin_files_match_gnu_clean_shape() {
    let options = parse_options(&["--release"]);
    let paths = pipeline_paths(&options, "");
    assert_eq!(
        generated_unidata_admin_files(&paths),
        strings(&[
            "/repo/admin/unidata/unidata.txt",
            "/repo/admin/unidata/unidata-gen.elc",
            "/repo/admin/unidata/uvs.elc",
        ])
    );
}

#[test]
fn options_that_set_different_fields_can_be_given_in_either_order() {
    let first = strings(&["--release", "--dry-run", "--features", "a, b"]);
    let second = strings(&["--bin-dir", "bin", "--no-native-comp", "--skip-build"]);
    let read = |a: &[String], b: &[String]| {
        let args: Vec<String> = a.iter().chain(b).cloned().collect();
        match FreshBuildOptions::parse("/repo", Some("yes"), None, &args) {
            Ok(ParsedCommand::Build(options)) => format!("{options:?}"),
            _ => panic!("the arguments are options"),
        }
    };
    assert_eq!(read(&first, &second), read(&second, &first));
    assert!(read(&first, &second).contains("/repo/bin"));
}

#[test]
fn a_generator_that_cannot_be_read_is_reported_before_another_missing_input() {
    let paths = repo_paths();
    let mut unreadable = file("/repo/admin/unidata/unidata-gen.el", 1, "");
    unreadable.contents = None;
    assert!(matches!(
        plan_unidata_lisp_generation(&disk(vec![unreadable]), &paths),
        Err(UnidataError::UnreadableGenerator)
    ));
    let generator = file("/repo/admin/unidata/unidata-gen.el", 1, "");
    assert!(matches!(
        plan_unidata_lisp_generation(&disk(vec![generator]), &paths),
        Err(UnidataError::MissingInput(_))
    ));
    assert!(matches!(
        plan_unidata_lisp_generation(&disk(vec![]), &paths),
        Err(UnidataError::MissingInput(m)) if m.contains("unidata-gen.el")
    ));
}
