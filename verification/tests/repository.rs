use neomacs_core::repo_policy::{
    automated_updates, core_shards, cranelift_consumer, cranelift_declarations, cranelift_group,
    cranelift_workspace, display_stack, doom_install, fork_sync, github_workflow_job, gui_tests,
    installer_app_paths, installer_path_is_kept, installer_replacement, installer_shortcuts,
    installer_uninstall_metadata, installer_user_scope, matches_of, melpa_canary, melpa_parity,
    melpa_serialization, nix_runtime_closure, oracle_shards, package_desktop_assets,
    pins_external_actions, release_line_of, release_metadata, release_tag_verification,
    release_tarball, release_upload, release_without_barrier, rust_setup, scheduled_runs,
    shard_workflow, split_once, version_of, workflow_lint,
};

type DocumentRule = fn(&str) -> bool;

/// A document with one line for each marker.
fn document(markers: &[&str]) -> String {
    let mut text = String::from("# document\n");
    for marker in markers {
        text.push_str("    ");
        text.push_str(marker);
        text.push('\n');
    }
    text
}

/// A workflow with one job for each name, the markers in its body.
fn workflow(jobs: &[(&str, &[&str])]) -> String {
    let mut text = String::from("name: fixture\njobs:\n");
    for (name, markers) in jobs {
        text.push_str(&format!("  {name}:\n    runs-on: ubuntu-24.04\n"));
        for marker in *markers {
            text.push_str(&format!("    {marker}\n"));
        }
    }
    text
}

/// The rule holds of a document with all markers and of none that lacks one.
fn needs_every_marker(rule: DocumentRule, markers: &[&str], message: &str) {
    let whole = document(markers);
    assert!(rule(&whole), "{message}");
    for marker in markers {
        assert!(!rule(&whole.replace(marker, "")), "{marker}: {message}");
    }
}

/// The rule holds of the job, and needs each marker in the job itself.
fn job_needs_every_marker(rule: DocumentRule, name: &str, markers: &[&str]) {
    let text = workflow(&[("first", &[]), (name, markers), ("last", &["end: true"])]);
    let job = github_workflow_job(&text, name).expect("the job is defined");
    assert!(rule(&job), "{name}");
    assert!(!job.contains("end: true"));
    for marker in markers {
        let body = job.replace(marker, "");
        assert!(!rule(&body), "{name} lacks {marker}");
    }
    let elsewhere = workflow(&[(name, &[]), ("other", markers)]);
    let empty = github_workflow_job(&elsewhere, name).expect("the job is defined");
    assert!(!rule(&empty), "{name} must hold its own markers");
    assert!(github_workflow_job(&elsewhere, "absent").is_none());
}

#[test]
fn nix_runtime_closure_includes_the_cxx_standard_library() {
    let whole = document(&[
        "stdenv.cc.cc.lib",
        "lib.remove pkgs.ncurses (commonBuildInputsFor pkgs)",
    ]);
    assert!(nix_runtime_closure(&whole));
    assert!(
        !nix_runtime_closure(&whole.replace("stdenv.cc.cc.lib", "stdenv.cc")),
        "Neomacs links libstdc++, so the Nix runtime closure must own it"
    );
    assert!(
        !nix_runtime_closure(&whole.replace(
            "lib.remove pkgs.ncurses (commonBuildInputsFor pkgs)",
            "commonBuildInputsFor pkgs"
        )),
        "the development LD_LIBRARY_PATH must derive from the packaged runtime closure"
    );
}

#[test]
fn every_linux_package_uses_the_canonical_desktop_asset_installer() {
    for name in ["tar", "Debian", "AppImage", "RPM"] {
        let script = document(&[name, "scripts/install-linux-desktop-assets.sh"]);
        assert!(package_desktop_assets(&script), "{name}");
        assert!(
            !package_desktop_assets(&document(&[name])),
            "{name} packaging bypasses the canonical desktop assets"
        );
        assert!(
            !package_desktop_assets(&format!("{script}assets/logo-128.png\n")),
            "{name} packaging still uses the legacy unrelated PNG"
        );
        assert!(
            !package_desktop_assets(&format!("{script}[Desktop Entry]\n")),
            "{name} packaging duplicates the canonical desktop entry"
        );
    }
}

#[test]
fn release_workflow_packages_tarballs_with_canonical_release_script() {
    for job_name in [
        "build-linux-x86_64",
        "build-linux-aarch64",
        "build-macos-aarch64",
    ] {
        job_needs_every_marker(release_tarball, job_name, &["./scripts/package-release.sh"]);
    }
}

#[test]
fn release_workflow_uses_numeric_versions_for_manual_dispatch() {
    let markers = [
        "version=\"0.0.0.git.${GITHUB_SHA:0:12}\"",
        "tag=\"v$version\"",
        "version=$version",
        "tag=$tag",
        "prerelease=$prerelease",
        "make_latest=$make_latest",
        "git push origin \"refs/tags/$tag\"",
        "prerelease: ${{ steps.metadata.outputs.prerelease }}",
        "make_latest: ${{ steps.metadata.outputs.make_latest }}",
    ];
    job_needs_every_marker(release_metadata, "prepare-release", &markers);
    let whole = document(&markers);
    assert!(!release_metadata(&format!("{whole}target_commitish\n")));
    assert!(!release_metadata(&format!("{whole}discussion_category_name\n")));
}

#[test]
fn release_workflow_verifies_synthetic_tag_before_reusing_it() {
    job_needs_every_marker(
        release_tag_verification,
        "prepare-release",
        &["git rev-parse --verify \"${tag}^{commit}\""],
    );
    assert!(
        !release_tag_verification("    git rev-parse \"${tag}^{commit}\"\n"),
        "unverified rev-parse echoes a missing tag and makes it look like a conflicting tag"
    );
}

#[test]
fn release_workflow_uploads_each_platform_without_a_build_barrier() {
    let whole = workflow(&[("prepare-release", &[])]);
    assert!(release_without_barrier(&whole));
    for barrier in [
        "create-release:",
        "actions/upload-artifact@",
        "actions/download-artifact@",
    ] {
        assert!(!release_without_barrier(&format!("{whole}    {barrier}\n")));
    }
    for job_name in [
        "build-linux-x86_64",
        "build-linux-aarch64",
        "build-macos-aarch64",
        "build-windows-x86_64",
    ] {
        job_needs_every_marker(
            release_upload,
            job_name,
            &[
                "needs: prepare-release",
                "softprops/action-gh-release@",
                "tag_name: ${{ needs.prepare-release.outputs.tag }}",
            ],
        );
    }
}

const WORKSPACE_MANIFEST: &str = "\
[workspace.dependencies]
cranelift-codegen = \"0.121.1\"
cranelift-frontend = \"0.121.1\"
cranelift-jit = { version = \"0.121.0\", default-features = false }
cranelift-module = \"0.121.1\"
cranelift-native = \"0.121.1\"
cranelift-object = { version = \"0.121.2\" }
serde = \"1\"
";

const CRATE_MANIFEST: &str = "\
[dependencies]
cranelift-codegen = { workspace = true, optional = true }
cranelift-frontend = { workspace = true, optional = true }
cranelift-jit = { workspace = true, optional = true }
cranelift-module = { workspace = true, optional = true }
cranelift-native = { workspace = true, optional = true }
cranelift-object = { workspace = true, optional = true }
";

#[test]
fn cranelift_dependencies_are_workspace_owned_and_share_one_release_line() {
    assert_eq!(
        cranelift_declarations(WORKSPACE_MANIFEST).len(),
        6,
        "all Cranelift crates must be covered"
    );
    assert!(cranelift_workspace(WORKSPACE_MANIFEST));
    assert!(
        !cranelift_workspace(&WORKSPACE_MANIFEST.replace("0.121.2", "0.122.0")),
        "Cranelift crates form one API-coupled release train"
    );
    assert!(!cranelift_workspace(
        &WORKSPACE_MANIFEST.replace("cranelift-native = \"0.121.1\"\n", "")
    ));
    assert!(
        !cranelift_workspace(&WORKSPACE_MANIFEST.replace("\"0.121.1\"", "\"121\"")),
        "Cranelift version must contain a patch component"
    );
    assert_eq!(
        version_of("cranelift-jit = { version = \"0.121.0\" }"),
        Some("0.121.0".to_string())
    );
    assert_eq!(version_of("cranelift-jit = \"0.121\""), Some("0.121".to_string()));
    assert_eq!(version_of("cranelift-jit = { path = \"jit\" }"), None);
    assert_eq!(version_of("cranelift-jit"), None);
    assert_eq!(release_line_of("0.121.0"), Some("0.121".to_string()));
    assert_eq!(release_line_of("121"), None);

    assert_eq!(cranelift_declarations(CRATE_MANIFEST).len(), 6);
    assert!(cranelift_consumer(CRATE_MANIFEST));
    assert!(!cranelift_consumer(&CRATE_MANIFEST.replacen(
        "workspace = true",
        "version = \"0.121.1\"",
        1
    )));
    assert!(!cranelift_consumer(&CRATE_MANIFEST.replacen(", optional = true", "", 1)));
}

#[test]
fn dependabot_groups_cranelift_release_train() {
    let config = "\
version: 2
updates:
  - package-ecosystem: cargo
    groups:
      cranelift:
        patterns:
          - \"cranelift-*\"
";
    assert!(cranelift_group(config));
    assert!(
        !cranelift_group(&config.replace("    groups:\n", "")),
        "Cargo Dependabot updates must define dependency groups"
    );
    assert!(!cranelift_group(&config.replace("      cranelift:\n", "      serde:\n")));
    assert!(!cranelift_group(&config.replace("cranelift-*", "cranelift-jit")));
}

#[test]
fn ci_runs_the_doom_install_contract_against_the_shared_runtime() {
    job_needs_every_marker(
        doom_install,
        "doom-install-compatibility",
        &[
            "needs: neomacs-test-runtime",
            "- *download_test_runtime",
            "- *unpack_test_runtime",
            "NEOMACS_BIN: ${{ github.workspace }}/target/release/neomacs",
            "run: ./scripts/test-doom-install.sh",
        ],
    );
}

#[test]
fn ci_lints_every_github_actions_workflow() {
    job_needs_every_marker(
        workflow_lint,
        "workflow-lint",
        &[
            "github.event_name != 'schedule'",
            "github.com/rhysd/actionlint/cmd/actionlint@v1.7.12",
            ".github/workflows/*.yml",
        ],
    );
}

#[test]
fn rust_ci_setup_uses_the_workspace_toolchain_and_owns_test_tooling() {
    let markers = [
        "cache-key:",
        "hashFiles('scripts/ci/setup-linux.sh'",
        "install-nextest:",
        "actions-rust-lang/setup-rust-toolchain@",
        "rustflags: \"\"",
        "taiki-e/install-action@",
        "tool: cargo-nextest",
    ];
    needs_every_marker(rust_setup, &markers, "the action owns the test tooling");
    assert!(
        !rust_setup(&format!("{}toolchain: stable\n", document(&markers))),
        "omitting a toolchain input makes rust-toolchain.toml the source of truth"
    );
}

#[test]
fn ci_pins_external_actions_and_enables_automated_updates() {
    let commit = "0123456789abcdefABCDEF0123456789abcdef01";
    assert_eq!(commit.len(), 40);
    let pinned = format!(
        "steps:\n  uses: actions/checkout@{commit} # v4\n  uses: ./.github/actions/setup-rust\n"
    );
    assert!(pins_external_actions(&pinned));
    assert!(
        !pins_external_actions("  uses: actions/checkout\n"),
        "external action lacks a revision"
    );
    assert!(
        !pins_external_actions("  uses: actions/checkout@v4\n"),
        "action is not pinned to a commit"
    );
    assert!(
        !pins_external_actions(&pinned.replace("0123456789abcdefAB", "0123456789abcdefAG")),
        "action revision is not hexadecimal"
    );
    assert!(!pins_external_actions("  uses: actions/checkout@ \n"));

    needs_every_marker(
        automated_updates,
        &["package-ecosystem: github-actions", "directory: /"],
        "the actions are updated",
    );
}

#[test]
fn pinning_is_decided_line_by_line() {
    let commit = "0123456789abcdef0123456789abcdef01234567";
    let good = format!("  uses: a/b@{commit}\n");
    let bad = "  uses: a/b@main\n";
    assert!(pins_external_actions(&format!("{good}{good}")));
    assert!(!pins_external_actions(&format!("{good}{bad}")));
    assert!(!pins_external_actions(&format!("{bad}{good}")));
}

#[test]
fn sync_workflow_rebases_fork_main_every_twelve_hours() {
    needs_every_marker(
        fork_sync,
        &[
            "cron: \"0 */12 * * *\"",
            "upstream_repo: eval-exec/neomacs",
            "upstream_branch: main",
            "origin_branch: main",
            "git rebase --autosquash --autostash upstream/$upstream_branch",
            "git push origin -f HEAD:$origin_branch",
        ],
        "sync workflow",
    );
}

#[test]
fn ci_uses_one_typed_sharded_nextest_workflow_for_core_and_oracle() {
    let markers = [
        "workflow_call:",
        "suite:",
        "core|oracle",
        "package(neovm-core)",
        "package(neovm-oracle-tests)",
        "--partition slice:${{ matrix.partition }}/20",
        "case \"$SHARD_SUITE\" in",
    ];
    needs_every_marker(shard_workflow, &markers, "one reusable workflow");
    assert!(
        !shard_workflow(&format!(
            "{}case \"$SHARD_SUITE\" in\n",
            document(&markers)
        )),
        "the closed suite selector must be decoded exactly once"
    );
    let needs = "needs: [neomacs-test-runtime, neomacs-workspace-test-archive]";
    job_needs_every_marker(
        core_shards,
        "neovm-core-tests",
        &[
            needs,
            "uses: ./.github/workflows/nextest-shards.yml",
            "suite: core",
        ],
    );
    job_needs_every_marker(
        oracle_shards,
        "neovm-oracle-tests",
        &[
            needs,
            "uses: ./.github/workflows/nextest-shards.yml",
            "suite: oracle",
        ],
    );
}

#[test]
fn ci_runs_offline_melpa_parity_from_shared_artifacts() {
    let markers = [
        "needs: [neomacs-test-runtime, neomacs-workspace-test-archive]",
        "name: neomacs-test-runtime-linux-x86_64",
        "tar xzf neomacs-test-runtime-linux-x86_64.tar.gz",
        "name: neomacs-workspace-tests-nextest-archive-linux-x86_64",
        "NEOMACS_BIN: ${{ github.workspace }}/target/release/neomacs",
        "NEOMACS_MELPA_ORACLE_EMACS: /usr/bin/emacs",
        "run: scripts/ci/setup-linux.sh ecosystem",
        "suite: batch",
        "suite: tui",
        "suite: gui",
        "--skip tui_parity_tests:: --skip gui_parity_tests::",
        "libtest_args: \"tui_parity_tests::\"",
        "libtest_args: \"gui_parity_tests::\"",
        "-E 'package(neomacs-melpa-tests)'",
        "-- $LIBTEST_ARGS",
        "--success-output immediate",
    ];
    job_needs_every_marker(melpa_parity, "neomacs-melpa-tests", &markers);
    assert!(!melpa_parity(&format!(
        "{}if: ${{{{ false }}}}\n",
        document(&markers)
    )));
}

#[test]
fn ci_executes_display_stack_and_real_gui_tests_from_shared_artifacts() {
    job_needs_every_marker(
        display_stack,
        "neomacs-display-tests",
        &[
            "needs: neomacs-workspace-test-archive",
            "package(neomacs-display-protocol)|package(neomacs-display-runtime)",
            "package(neomacs-layout-engine)",
            "package(neomacs-renderer-wgpu)",
            "-E \"$NEXTEST_FILTER\"",
        ],
    );
    assert!(!display_stack(&document(&[
        "needs: neomacs-workspace-test-archive",
        "package(neomacs-display-protocol)",
        "package(neomacs-display-runtime)",
        "package(neomacs-layout-engine)",
        "package(neomacs-renderer-wgpu)",
        "-E \"$NEXTEST_FILTER\"",
    ])));
    job_needs_every_marker(
        gui_tests,
        "neomacs-gui-tests",
        &[
            "needs: [neomacs-test-runtime, neomacs-workspace-test-archive]",
            "NEOMACS_GUI_TEST_BACKEND: x11",
            "NEOMACS_GUI_TEST_GNU_EMACS: /usr/bin/emacs",
            "package(neomacs-gui-tests)",
        ],
    );
}

#[test]
fn ci_runs_live_melpa_only_as_an_explicit_canary() {
    needs_every_marker(scheduled_runs, &["schedule:"], "the canary runs on a schedule");
    job_needs_every_marker(
        melpa_canary,
        "neomacs-melpa-live-canary",
        &[
            "needs: [neomacs-test-runtime, neomacs-workspace-test-archive]",
            "github.event_name == 'schedule'",
            "github.event_name == 'workflow_dispatch'",
            "- *download_test_runtime",
            "- *unpack_test_runtime",
            "- *download_workspace_test_archive",
            "--run-ignored only",
            "test(=live_melpa_ecosystem_installs_and_survives_restart)",
            "--success-output immediate",
        ],
    );
}

#[test]
fn nextest_serializes_melpa_package_processes() {
    needs_every_marker(
        melpa_serialization,
        &[
            "filter = 'package(neomacs-melpa-tests)'",
            "threads-required = \"num-test-threads\"",
        ],
        "package tests run one at a time",
    );
}

#[test]
fn windows_installer_removes_the_legacy_path_rewrite_implementation() {
    let installer = document(&["RequestExecutionLevel user"]);
    assert!(installer_path_is_kept(&installer));
    for forbidden in [
        "ENVIRONMENT_KEY",
        "WriteRegExpandStr",
        "AddToSystemPath",
        "RemoveFromSystemPath",
        "AddedToPath",
    ] {
        assert!(
            !installer_path_is_kept(&format!("{installer}{forbidden}\n")),
            "legacy whole-PATH rewrite marker must stay removed; found {forbidden}"
        );
    }
}

#[test]
fn windows_installer_defaults_to_a_non_elevated_user_scope() {
    let markers = [
        "RequestExecutionLevel user",
        "InstallDir \"$LOCALAPPDATA\\Programs\\${PRODUCT_NAME}\"",
        "SetShellVarContext current",
    ];
    needs_every_marker(installer_user_scope, &markers, "user scope");
    let whole = document(&markers);
    for machine in [
        "ReadRegStr HKLM",
        "WriteRegStr HKLM",
        "WriteRegDWORD HKLM",
        "DeleteRegKey HKLM",
    ] {
        assert!(
            !installer_user_scope(&format!("{whole}    {machine}\n")),
            "default Windows installer must not mutate machine-scoped registration"
        );
        assert!(installer_user_scope(&format!("{whole}    ; {machine}\n")));
    }
}

#[test]
fn windows_installer_owns_app_paths_for_both_commands() {
    needs_every_marker(
        installer_app_paths,
        &[
            "App Paths\\neomacs.exe",
            "$INSTDIR\\bin\\neomacs.exe",
            "App Paths\\neomacsclient.exe",
            "$INSTDIR\\bin\\neomacsclient.exe",
            "!macro RemoveOwnedAppPath KEY EXECUTABLE",
            "DeleteRegKey /ifempty HKCU \"${KEY}\"",
            "!insertmacro RemoveOwnedAppPath \"${NEOMACS_APP_PATH_KEY}\" \"neomacs.exe\"",
            "!insertmacro RemoveOwnedAppPath \"${NEOMACSCLIENT_APP_PATH_KEY}\" \"neomacsclient.exe\"",
        ],
        "installer must register its commands with Windows App Paths",
    );
}

#[test]
fn windows_installer_owns_current_user_start_menu_shortcuts() {
    let installer = document(&[
        "CreateShortcut \"$SMPROGRAMS\\${PRODUCT_NAME}\\${PRODUCT_NAME}.lnk\" \"$INSTDIR\\bin\\neomacs.exe\"",
        "CreateShortcut \"$SMPROGRAMS\\${PRODUCT_NAME}\\Uninstall ${PRODUCT_NAME}.lnk\" \"$INSTDIR\\uninstall.exe\"",
        "Delete \"$SMPROGRAMS\\${PRODUCT_NAME}\\${PRODUCT_NAME}.lnk\"",
        "Delete \"$SMPROGRAMS\\${PRODUCT_NAME}\\Uninstall ${PRODUCT_NAME}.lnk\"",
        "Function un.onInit",
        "SetShellVarContext current",
        "SetShellVarContext current",
    ]);
    assert_eq!(matches_of(&installer, "SetShellVarContext current"), 2);
    assert!(installer_shortcuts(&installer));
    assert!(!installer_shortcuts(&installer.replacen("SetShellVarContext current", "", 1)));
    assert!(!installer_shortcuts(&installer.replace("CreateShortcut", "Create")));
    assert!(!installer_shortcuts(&installer.replace("Delete ", "Keep ")));
    assert!(!installer_shortcuts(&installer.replace("Function un.onInit", "")));
}

#[test]
fn windows_installer_publishes_complete_owned_uninstall_metadata() {
    let mut installer = document(&[
        "!define PRODUCT_REGISTRATION_NAME \"${PRODUCT_NAME} (User)\"",
        "'\"$INSTDIR\\uninstall.exe\"'",
    ]);
    let fields = [
        "DisplayName",
        "DisplayVersion",
        "Publisher",
        "URLInfoAbout",
        "InstallLocation",
        "DisplayIcon",
        "UninstallString",
        "QuietUninstallString",
        "EstimatedSize",
        "NoModify",
        "NoRepair",
    ];
    for field in fields {
        installer.push_str(&format!("WriteRegStr HKCU \"{field}\"\n"));
    }
    assert!(installer_uninstall_metadata(&installer));
    for field in fields {
        assert!(
            !installer_uninstall_metadata(&installer.replace(&format!("\"{field}\""), "")),
            "Apps & Features metadata must include {field}"
        );
    }
    assert!(!installer_uninstall_metadata(&installer.replace("(User)", "")));
    assert!(!installer_uninstall_metadata(&installer.replace("'\"$INSTDIR", "")));
}

const INSTALLER: &str = "\
Function RemovePreviousUserInstallation
  ExecWait '\"$R0\\uninstall.exe\" /S _?=$R0' $R1
FunctionEnd
Function .onInit
  SetShellVarContext current
FunctionEnd
Section \"!${PRODUCT_NAME}\" SEC_MAIN

  Call RemovePreviousUserInstallation
  SetOutPath \"$INSTDIR\"
SectionEnd
";

#[test]
fn windows_installer_removes_the_previous_owned_payload_before_replacement() {
    assert!(installer_replacement(INSTALLER));
    assert!(
        !installer_replacement(&INSTALLER.replace(
            "SetShellVarContext current",
            "Call RemovePreviousUserInstallation"
        )),
        "opening and cancelling the installer must not remove the current version"
    );
    assert!(
        !installer_replacement(&INSTALLER.replace("Function .onInit", "Function other")),
        "installer must define .onInit"
    );
    assert!(
        !installer_replacement(&INSTALLER.replace("SEC_MAIN", "SEC_OTHER")),
        "installer must define its main installation section"
    );
    assert!(
        !installer_replacement(&INSTALLER.replace(
            "  Call RemovePreviousUserInstallation\n  SetOutPath \"$INSTDIR\"\n",
            ""
        )),
        "main installation section must not be empty"
    );
    assert!(!installer_replacement(&INSTALLER.replace(
        "  Call RemovePreviousUserInstallation\n  SetOutPath \"$INSTDIR\"\n",
        "  SetOutPath \"$INSTDIR\"\n  Call RemovePreviousUserInstallation\n"
    )));
}

#[test]
fn a_job_ends_where_the_next_job_begins() {
    let text = "jobs:\n  one:\n    a\n   b\n  two:\n    c\n";
    assert_eq!(
        github_workflow_job(text, "one"),
        Some("    a\n   b\n".to_string())
    );
    assert_eq!(github_workflow_job(text, "two"), Some("    c\n".to_string()));
    assert_eq!(github_workflow_job(text, "three"), None);
}

#[test]
fn splitting_and_counting_take_the_first_place() {
    assert_eq!(
        split_once("a=b=c", "="),
        Some(("a".to_string(), "b=c".to_string()))
    );
    assert_eq!(split_once("abc", "="), None);
    assert_eq!(matches_of("aaaa", "aa"), 2);
    assert_eq!(matches_of("abab", "c"), 0);
}
