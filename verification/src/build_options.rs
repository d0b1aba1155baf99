//! The command line of the build driver.
use vstd::prelude::*;
use vstd::string::StringExecFns;

use crate::paths;
use crate::text;

verus! {

/// A cargo profile to build with. The profiles that the driver reasons about are
/// named; `Custom` carries any other one that a manifest may define.
#[derive(Debug, Clone, PartialEq, Eq)]
pub enum BuildProfile {
    Release,
    Profiling,
    /// Profile-guided shipping build.
    ReleasePgo,
    /// Profile-guided build that keeps symbols.
    ReleasePgoProfiling,
    /// The instrumented pass that produces a profile.
    ReleasePgoGen,
    Dev,
    DevRelease,
    Debug,
    Test,
    Custom(String),
}

/// What a profile is, told by its name alone.
pub enum ProfileKind {
    Release,
    Profiling,
    ReleasePgo,
    ReleasePgoProfiling,
    ReleasePgoGen,
    Dev,
    DevRelease,
    Debug,
    Test,
    Custom,
}

pub open spec fn profile_kind(name: Seq<char>) -> ProfileKind {
    if name == "release"@ {
        ProfileKind::Release
    } else if name == "profiling"@ {
        ProfileKind::Profiling
    } else if name == "release-pgo"@ {
        ProfileKind::ReleasePgo
    } else if name == "release-pgo-profiling"@ {
        ProfileKind::ReleasePgoProfiling
    } else if name == "release-pgo-gen"@ {
        ProfileKind::ReleasePgoGen
    } else if name == "dev"@ {
        ProfileKind::Dev
    } else if name == "dev-release"@ {
        ProfileKind::DevRelease
    } else if name == "debug"@ {
        ProfileKind::Debug
    } else if name == "test"@ {
        ProfileKind::Test
    } else {
        ProfileKind::Custom
    }
}

impl BuildProfile {
    /// The name that cargo knows the profile by.
    pub open spec fn name(self) -> Seq<char> {
        match self {
            BuildProfile::Release => "release"@,
            BuildProfile::Profiling => "profiling"@,
            BuildProfile::ReleasePgo => "release-pgo"@,
            BuildProfile::ReleasePgoProfiling => "release-pgo-profiling"@,
            BuildProfile::ReleasePgoGen => "release-pgo-gen"@,
            BuildProfile::Dev => "dev"@,
            BuildProfile::DevRelease => "dev-release"@,
            BuildProfile::Debug => "debug"@,
            BuildProfile::Test => "test"@,
            BuildProfile::Custom(name) => name@,
        }
    }

    pub open spec fn kind(self) -> ProfileKind {
        match self {
            BuildProfile::Release => ProfileKind::Release,
            BuildProfile::Profiling => ProfileKind::Profiling,
            BuildProfile::ReleasePgo => ProfileKind::ReleasePgo,
            BuildProfile::ReleasePgoProfiling => ProfileKind::ReleasePgoProfiling,
            BuildProfile::ReleasePgoGen => ProfileKind::ReleasePgoGen,
            BuildProfile::Dev => ProfileKind::Dev,
            BuildProfile::DevRelease => ProfileKind::DevRelease,
            BuildProfile::Debug => ProfileKind::Debug,
            BuildProfile::Test => ProfileKind::Test,
            BuildProfile::Custom(_) => ProfileKind::Custom,
        }
    }

    /// The profile that goes by `name`.
    pub fn parse(name: &str) -> (r: BuildProfile)
        ensures
            r.name() == name@,
            r.kind() == profile_kind(name@),
    {
        if text::same(name, "release") {
            BuildProfile::Release
        } else if text::same(name, "profiling") {
            BuildProfile::Profiling
        } else if text::same(name, "release-pgo") {
            BuildProfile::ReleasePgo
        } else if text::same(name, "release-pgo-profiling") {
            BuildProfile::ReleasePgoProfiling
        } else if text::same(name, "release-pgo-gen") {
            BuildProfile::ReleasePgoGen
        } else if text::same(name, "dev") {
            BuildProfile::Dev
        } else if text::same(name, "dev-release") {
            BuildProfile::DevRelease
        } else if text::same(name, "debug") {
            BuildProfile::Debug
        } else if text::same(name, "test") {
            BuildProfile::Test
        } else {
            BuildProfile::Custom(text::copy(name))
        }
    }

    /// The name to hand cargo.
    pub fn as_name(&self) -> (r: &str)
        ensures
            r@ == self.name(),
    {
        match self {
            BuildProfile::Release => "release",
            BuildProfile::Profiling => "profiling",
            BuildProfile::ReleasePgo => "release-pgo",
            BuildProfile::ReleasePgoProfiling => "release-pgo-profiling",
            BuildProfile::ReleasePgoGen => "release-pgo-gen",
            BuildProfile::Dev => "dev",
            BuildProfile::DevRelease => "dev-release",
            BuildProfile::Debug => "debug",
            BuildProfile::Test => "test",
            BuildProfile::Custom(name) => name.as_str(),
        }
    }

    /// The profile is built from what the instrumented pass recorded.
    pub open spec fn consumes(self) -> bool {
        self.kind() == ProfileKind::ReleasePgo || self.kind() == ProfileKind::ReleasePgoProfiling
    }

    /// Whether a build with this profile needs the instrumented pass first.
    pub fn consumes_pgo(&self) -> (r: bool)
        ensures
            r == self.consumes(),
    {
        match self {
            BuildProfile::ReleasePgo => true,
            BuildProfile::ReleasePgoProfiling => true,
            _ => false,
        }
    }

    /// The directory under `target` that cargo writes to: `dev` and `test` share
    /// `debug`, and `bench` shares `release`.
    pub open spec fn subdir(self) -> Seq<char> {
        match self {
            BuildProfile::Dev => "debug"@,
            BuildProfile::Test => "debug"@,
            BuildProfile::Custom(name) => if name@ == "bench"@ {
                "release"@
            } else {
                name@
            },
            _ => self.name(),
        }
    }

    pub fn target_subdir(&self) -> (r: &str)
        ensures
            r@ == self.subdir(),
    {
        match self {
            BuildProfile::Dev => "debug",
            BuildProfile::Test => "debug",
            BuildProfile::Custom(name) => if text::same(name.as_str(), "bench") {
                "release"
            } else {
                name.as_str()
            },
            _ => self.as_name(),
        }
    }

    /// A copy of the profile.
    pub fn copy(&self) -> (r: BuildProfile)
        ensures
            r.name() == self.name(),
            r.kind() == self.kind(),
            r.subdir() == self.subdir(),
    {
        match self {
            BuildProfile::Release => BuildProfile::Release,
            BuildProfile::Profiling => BuildProfile::Profiling,
            BuildProfile::ReleasePgo => BuildProfile::ReleasePgo,
            BuildProfile::ReleasePgoProfiling => BuildProfile::ReleasePgoProfiling,
            BuildProfile::ReleasePgoGen => BuildProfile::ReleasePgoGen,
            BuildProfile::Dev => BuildProfile::Dev,
            BuildProfile::DevRelease => BuildProfile::DevRelease,
            BuildProfile::Debug => BuildProfile::Debug,
            BuildProfile::Test => BuildProfile::Test,
            BuildProfile::Custom(name) => BuildProfile::Custom(text::copy(name.as_str())),
        }
    }
}

/// The instrumented pass never asks for another instrumented pass.
pub proof fn law_instrumented_pass_is_no_consumer(p: BuildProfile)
    requires
        p.kind() == ProfileKind::ReleasePgoGen,
    ensures
        !p.consumes(),
{
}

/// Each profile that the driver knows is read back from its own name.
pub proof fn law_profile_name_reads_back(p: BuildProfile)
    requires
        p.kind() != ProfileKind::Custom,
    ensures
        profile_kind(p.name()) == p.kind(),
{
    reveal_strlit("release");
    reveal_strlit("profiling");
    reveal_strlit("release-pgo");
    reveal_strlit("release-pgo-profiling");
    reveal_strlit("release-pgo-gen");
    reveal_strlit("dev");
    reveal_strlit("dev-release");
    reveal_strlit("debug");
    reveal_strlit("test");
    assert("release"@.len() == 7);
    assert("profiling"@.len() == 9);
    assert("release-pgo"@.len() == 11);
    assert("release-pgo-profiling"@.len() == 21);
    assert("release-pgo-gen"@.len() == 15);
    assert("dev"@.len() == 3);
    assert("dev-release"@.len() == 11);
    assert("debug"@.len() == 5);
    assert("test"@.len() == 4);
    assert("release-pgo"@[0] == 'r');
    assert("dev-release"@[0] == 'd');
}

/// What `fresh-build` was asked to do.
#[derive(Debug, Clone)]
pub struct FreshBuildOptions {
    pub repo_root: String,
    pub runtime_root: String,
    pub bin_dir: String,
    /// Decides both the flag of `cargo build` and the directory under `target`.
    pub profile: BuildProfile,
    pub dry_run: bool,
    pub native_comp: bool,
    pub skip_build: bool,
    pub no_byte_compile: bool,
    pub features: Vec<String>,
    /// Have the dump step write a preload library beside the dump.
    pub aot_preload: bool,
}

/// What a command line asks for.
pub enum ParsedCommand {
    Build(FreshBuildOptions),
    Help,
}

pub struct OptionsModel {
    pub runtime_root: Seq<char>,
    pub bin_dir: Option<Seq<char>>,
    pub profile: Option<Seq<char>>,
    pub dry_run: bool,
    pub native_comp: bool,
    pub skip_build: bool,
    pub no_byte_compile: bool,
    pub features: Seq<Seq<char>>,
    pub aot_preload: bool,
}

pub enum Scan {
    Done(OptionsModel),
    Help,
    Error(Seq<char>),
}

/// The features that a comma-separated list names.
pub open spec fn feature_list(s: Seq<char>) -> Seq<Seq<char>> {
    text::split_at_char(s, ',').map_values(|p: Seq<char>| text::trimmed(p)).filter(
        |p: Seq<char>| p.len() > 0,
    )
}

/// What the options in `args` make of `m`, from left to right.
pub open spec fn scan(repo: Seq<char>, m: OptionsModel, args: Seq<Seq<char>>) -> Scan
    decreases args.len(),
{
    let n = args.len() as int;
    if n == 0 {
        Scan::Done(m)
    } else if args[0] == "--bin-dir"@ {
        if n < 2 {
            Scan::Error("--bin-dir requires a path"@)
        } else {
            scan(
                repo,
                OptionsModel { bin_dir: Some(paths::joined_path(repo, args[1])), ..m },
                args.subrange(2, n),
            )
        }
    } else if args[0] == "--runtime-root"@ {
        if n < 2 {
            Scan::Error("--runtime-root requires a path"@)
        } else {
            scan(
                repo,
                OptionsModel { runtime_root: paths::joined_path(repo, args[1]), ..m },
                args.subrange(2, n),
            )
        }
    } else if args[0] == "--release"@ {
        scan(repo, OptionsModel { profile: Some("release"@), ..m }, args.subrange(1, n))
    } else if args[0] == "--profile"@ {
        if n < 2 {
            Scan::Error("--profile requires a profile name"@)
        } else {
            scan(
                repo,
                OptionsModel { profile: Some(text::trimmed(args[1])), ..m },
                args.subrange(2, n),
            )
        }
    } else if args[0] == "--dry-run"@ {
        scan(repo, OptionsModel { dry_run: true, ..m }, args.subrange(1, n))
    } else if args[0] == "--native-comp"@ {
        scan(repo, OptionsModel { native_comp: true, ..m }, args.subrange(1, n))
    } else if args[0] == "--no-native-comp"@ {
        scan(repo, OptionsModel { native_comp: false, ..m }, args.subrange(1, n))
    } else if args[0] == "--skip-build"@ {
        scan(repo, OptionsModel { skip_build: true, ..m }, args.subrange(1, n))
    } else if args[0] == "--no-byte-compile"@ {
        scan(repo, OptionsModel { no_byte_compile: true, ..m }, args.subrange(1, n))
    } else if args[0] == "--aot-preload"@ {
        scan(repo, OptionsModel { aot_preload: true, ..m }, args.subrange(1, n))
    } else if args[0] == "--features"@ {
        if n < 2 {
            Scan::Error("--features requires a comma-separated list"@)
        } else {
            scan(
                repo,
                OptionsModel { features: feature_list(args[1]), ..m },
                args.subrange(2, n),
            )
        }
    } else if args[0] == "--help"@ || args[0] == "-h"@ {
        Scan::Help
    } else {
        Scan::Error("unknown option: "@ + args[0] + "\n\n"@ + USAGE@)
    }
}

/// What an option sets.
pub enum OptionField {
    BinDir,
    RuntimeRoot,
    Profile,
    DryRun,
    NativeComp,
    SkipBuild,
    NoByteCompile,
    AotPreload,
    Features,
}

/// What the option of a name sets, and whether a value follows it.
pub open spec fn option_named(name: Seq<char>) -> Option<(OptionField, bool)> {
    if name == "--bin-dir"@ {
        Some((OptionField::BinDir, true))
    } else if name == "--runtime-root"@ {
        Some((OptionField::RuntimeRoot, true))
    } else if name == "--release"@ {
        Some((OptionField::Profile, false))
    } else if name == "--profile"@ {
        Some((OptionField::Profile, true))
    } else if name == "--dry-run"@ {
        Some((OptionField::DryRun, false))
    } else if name == "--native-comp"@ {
        Some((OptionField::NativeComp, false))
    } else if name == "--no-native-comp"@ {
        Some((OptionField::NativeComp, false))
    } else if name == "--skip-build"@ {
        Some((OptionField::SkipBuild, false))
    } else if name == "--no-byte-compile"@ {
        Some((OptionField::NoByteCompile, false))
    } else if name == "--aot-preload"@ {
        Some((OptionField::AotPreload, false))
    } else if name == "--features"@ {
        Some((OptionField::Features, true))
    } else {
        None
    }
}

/// How many arguments the first option takes up.
pub open spec fn option_width(args: Seq<Seq<char>>) -> int {
    match option_named(args[0]) {
        Some((_, true)) => 2,
        _ => 1,
    }
}

/// The arguments are options, each with its value.
pub open spec fn all_options(args: Seq<Seq<char>>) -> bool
    decreases args.len(),
{
    args.len() == 0 || {
        &&& option_named(args[0]) is Some
        &&& option_width(args) <= args.len()
        &&& all_options(args.subrange(option_width(args), args.len() as int))
    }
}

/// One of the options sets a field.
pub open spec fn sets(args: Seq<Seq<char>>, f: OptionField) -> bool
    decreases args.len(),
{
    args.len() > 0 && option_width(args) <= args.len() && ((option_named(args[0]) matches Some((
        g,
        _,
    )) && g == f) || sets(args.subrange(option_width(args), args.len() as int), f))
}

/// Two models agree in a field.
pub open spec fn same_field(a: OptionsModel, b: OptionsModel, f: OptionField) -> bool {
    match f {
        OptionField::BinDir => a.bin_dir == b.bin_dir,
        OptionField::RuntimeRoot => a.runtime_root == b.runtime_root,
        OptionField::Profile => a.profile == b.profile,
        OptionField::DryRun => a.dry_run == b.dry_run,
        OptionField::NativeComp => a.native_comp == b.native_comp,
        OptionField::SkipBuild => a.skip_build == b.skip_build,
        OptionField::NoByteCompile => a.no_byte_compile == b.no_byte_compile,
        OptionField::AotPreload => a.aot_preload == b.aot_preload,
        OptionField::Features => a.features == b.features,
    }
}

/// What the first option sets.
spec fn first_field(args: Seq<Seq<char>>) -> OptionField {
    match option_named(args[0]) {
        Some((f, _)) => f,
        None => OptionField::Features,
    }
}

/// What the first option makes of a model.
spec fn after_first(repo: Seq<char>, m: OptionsModel, args: Seq<Seq<char>>) -> OptionsModel {
    scan(repo, m, args.subrange(0, option_width(args)))->Done_0
}

proof fn lemma_scan_first(repo: Seq<char>, m: OptionsModel, args: Seq<Seq<char>>)
    requires
        args.len() > 0,
        option_named(args[0]) is Some,
        option_width(args) <= args.len(),
    ensures
        scan(repo, m, args) == scan(
            repo,
            after_first(repo, m, args),
            args.subrange(option_width(args), args.len() as int),
        ),
        forall|f: OptionField|
            f != first_field(args) ==> #[trigger] same_field(
                after_first(repo, m, args),
                m,
                f,
            ),
        forall|k: OptionsModel| #[trigger]
            same_field(
                after_first(repo, m, args),
                after_first(repo, k, args),
                first_field(args),
            ),
{
    reveal_with_fuel(scan, 2);
    let one = args.subrange(0, option_width(args));
    assert(one[0] == args[0]);
    if option_width(args) == 2 {
        assert(one[1] == args[1]);
        assert(one.subrange(2, 2) =~= Seq::empty());
    } else {
        assert(one.subrange(1, 1) =~= Seq::empty());
    }
}

/// Options leave the fields that they do not set, and what they set does not depend on
/// what was there.
proof fn lemma_scan_fields(repo: Seq<char>, m: OptionsModel, k: OptionsModel, args: Seq<Seq<char>>)
    requires
        all_options(args),
    ensures
        scan(repo, m, args) is Done,
        scan(repo, k, args) is Done,
        forall|f: OptionField|
            if #[trigger] sets(args, f) {
                same_field(scan(repo, m, args)->Done_0, scan(repo, k, args)->Done_0, f)
            } else {
                same_field(scan(repo, m, args)->Done_0, m, f)
            },
    decreases args.len(),
{
    if args.len() > 0 {
        let rest = args.subrange(option_width(args), args.len() as int);
        lemma_scan_first(repo, m, args);
        lemma_scan_first(repo, k, args);
        let p = after_first(repo, m, args);
        let q = after_first(repo, k, args);
        lemma_scan_fields(repo, p, q, rest);
        let g = first_field(args);
        assert(same_field(p, q, g));
        let a = scan(repo, m, args)->Done_0;
        let b = scan(repo, k, args)->Done_0;
        lemma_scan_fields(repo, q, p, rest);
        assert forall|f: OptionField|
            if #[trigger] sets(args, f) {
                same_field(a, b, f)
            } else {
                same_field(a, m, f)
            } by {
            if sets(rest, f) {
                assert(same_field(a, b, f));
            } else {
                assert(same_field(a, p, f));
                assert(same_field(b, q, f));
                if f != g {
                    assert(same_field(p, m, f));
                }
            }
        }
    }
}

proof fn lemma_scan_concat(repo: Seq<char>, m: OptionsModel, a: Seq<Seq<char>>, b: Seq<Seq<char>>)
    requires
        all_options(a),
        scan(repo, m, a) is Done,
    ensures
        scan(repo, m, a + b) == scan(repo, scan(repo, m, a)->Done_0, b),
    decreases a.len(),
{
    if a.len() == 0 {
        assert(a + b =~= b);
    } else {
        let w = option_width(a);
        let rest = a.subrange(w, a.len() as int);
        assert((a + b)[0] == a[0]);
        assert((a + b).subrange(w, (a + b).len() as int) =~= rest + b);
        assert((a + b).subrange(0, w) =~= a.subrange(0, w));
        lemma_scan_first(repo, m, a);
        lemma_scan_first(repo, m, a + b);
        lemma_scan_concat(repo, after_first(repo, m, a), rest, b);
    }
}

/// An option is neither a command nor a cry for help.
proof fn lemma_option_is_no_command(name: Seq<char>)
    requires
        option_named(name) is Some,
    ensures
        name != "help"@ && name != "--help"@ && name != "-h"@ && name != "fresh-build"@,
{
    reveal_strlit("help");
    reveal_strlit("--help");
    reveal_strlit("-h");
    reveal_strlit("fresh-build");
    reveal_strlit("--bin-dir");
    reveal_strlit("--runtime-root");
    reveal_strlit("--release");
    reveal_strlit("--profile");
    reveal_strlit("--dry-run");
    reveal_strlit("--native-comp");
    reveal_strlit("--no-native-comp");
    reveal_strlit("--skip-build");
    reveal_strlit("--no-byte-compile");
    reveal_strlit("--aot-preload");
    reveal_strlit("--features");
    assert("help"@.len() == 4 && "--help"@.len() == 6 && "-h"@.len() == 2 && "fresh-build"@.len()
        == 11);
    assert(name.len() >= 9 && name.len() != 11);
}

/// Options that set different fields can be given in either order: the command line
/// means the same.
pub proof fn law_order_of_options_does_not_matter(
    repo: Seq<char>,
    native_env: Option<Seq<char>>,
    a: Seq<Seq<char>>,
    b: Seq<Seq<char>>,
)
    requires
        all_options(a),
        all_options(b),
        forall|f: OptionField| !(#[trigger] sets(a, f) && sets(b, f)),
    ensures
        scan_command(repo, native_env, a + b) == scan_command(repo, native_env, b + a),
{
    let m = initial(repo, native_env);
    if a.len() > 0 {
        lemma_option_is_no_command(a[0]);
        assert((a + b)[0] == a[0]);
    }
    if b.len() > 0 {
        lemma_option_is_no_command(b[0]);
        assert((b + a)[0] == b[0]);
    }
    if a.len() == 0 {
        assert(a + b =~= b && b + a =~= b);
    } else if b.len() == 0 {
        assert(a + b =~= a && b + a =~= a);
    } else {
        lemma_scan_fields(repo, m, m, a);
        lemma_scan_fields(repo, m, m, b);
        let x = scan(repo, m, a)->Done_0;
        let y = scan(repo, m, b)->Done_0;
        lemma_scan_concat(repo, m, a, b);
        lemma_scan_concat(repo, m, b, a);
        lemma_scan_fields(repo, x, m, b);
        lemma_scan_fields(repo, y, m, a);
        let p = scan(repo, x, b)->Done_0;
        let q = scan(repo, y, a)->Done_0;
        assert forall|f: OptionField| #[trigger] same_field(p, q, f) by {
            assert(!(sets(a, f) && sets(b, f)));
            if sets(b, f) {
                assert(same_field(p, y, f));
                assert(same_field(q, y, f));
            } else {
                assert(same_field(p, x, f));
                if sets(a, f) {
                    assert(same_field(q, x, f));
                } else {
                    assert(same_field(x, m, f));
                    assert(same_field(y, m, f));
                    assert(same_field(q, y, f));
                }
            }
        }
        assert(same_field(p, q, OptionField::BinDir));
        assert(same_field(p, q, OptionField::RuntimeRoot));
        assert(same_field(p, q, OptionField::Profile));
        assert(same_field(p, q, OptionField::DryRun));
        assert(same_field(p, q, OptionField::NativeComp));
        assert(same_field(p, q, OptionField::SkipBuild));
        assert(same_field(p, q, OptionField::NoByteCompile));
        assert(same_field(p, q, OptionField::AotPreload));
        assert(same_field(p, q, OptionField::Features));
    }
}

pub open spec fn lower(c: char) -> char {
    if 'A' <= c <= 'Z' {
        ((c as u32) + 32) as char
    } else {
        c
    }
}

/// The texts agree but for the case of ASCII letters.
pub open spec fn same_ignoring_case(a: Seq<char>, b: Seq<char>) -> bool {
    a.map_values(|c: char| lower(c)) == b.map_values(|c: char| lower(c))
}

/// What holds before any option is read.
pub open spec fn initial(repo: Seq<char>, native_env: Option<Seq<char>>) -> OptionsModel {
    OptionsModel {
        runtime_root: repo,
        bin_dir: None,
        profile: None,
        dry_run: false,
        native_comp: match native_env {
            Some(v) => same_ignoring_case(v, "yes"@),
            None => false,
        },
        skip_build: false,
        no_byte_compile: false,
        features: Seq::empty(),
        aot_preload: false,
    }
}

/// A first argument that asks for help, or names the build command, is no option.
pub open spec fn scan_command(
    repo: Seq<char>,
    native_env: Option<Seq<char>>,
    args: Seq<Seq<char>>,
) -> Scan {
    if args.len() > 0 && (args[0] == "help"@ || args[0] == "--help"@ || args[0] == "-h"@) {
        Scan::Help
    } else if args.len() > 0 && args[0] == "fresh-build"@ {
        scan(repo, initial(repo, native_env), args.subrange(1, args.len() as int))
    } else {
        scan(repo, initial(repo, native_env), args)
    }
}

/// The directory that cargo writes a profile's programs to.
pub open spec fn default_dir(
    repo: Seq<char>,
    target_dir: Option<Seq<char>>,
    subdir: Seq<char>,
) -> Seq<char> {
    let base = match target_dir {
        Some(d) => paths::joined_path(repo, d),
        None => paths::joined_path(repo, "target"@),
    };
    paths::joined_path(base, subdir)
}

pub const MISSING_PROFILE: &'static str = "\
fresh-build must be used with --release or --profile NAME.

fresh-build builds the runnable GNU-shaped runtime pipeline (cargo build, temacs bootstrap, byte-compilation, pdump). Re-run with:
cargo xtask fresh-build --release
or choose any explicit Cargo profile, for example:
cargo xtask fresh-build --profile dev";

/// The help text of the driver.
pub const USAGE: &'static str = "\
Usage: cargo xtask [fresh-build] (--release | --profile NAME) [--bin-dir DIR] [--runtime-root DIR] [--dry-run] [--native-comp|--no-native-comp] [--skip-build] [--no-byte-compile] [--aot-preload]
       cargo xtask perf list
       cargo xtask perf run SCENARIO [--editor PATH] [--iterations N] [--frontend batch|tui|gui]
       cargo xtask perf compare SCENARIO --baseline-editor PATH --candidate-editor PATH [--samples N>=3]
       cargo xtask perf profile SCENARIO [--profiler perf] [--editor PATH] [--iterations N]
       cargo xtask gc-stress [--editor PATH] [--probe-dir DIR] [--filter SUBSTR]
                             [--address-limit-kb N] [--list]

gc-stress runs xtask/gc-stress/*.el against the shipped release binary with
NEOVM_GC_STRESS=1 (collect at every allocation-bearing safe point) and a
`ulimit -v` cap, and requires exit 0 plus each probe's `;;; expect:` line. It
is the standing detector for the missing-GC-root class: this collector is
precise, so a Lisp value riding Rust control flow is invisible to trace_roots
unless it was rooted deliberately, and such a bug is invisible to an ordinary
green suite (DIVERGENCES.md 161 and 162).

--release (or --profile NAME) is required: fresh-build produces the runnable runtime
pipeline. Any explicit Cargo profile is accepted. Dev skips Lisp
byte-compilation for a faster inner loop.

Build the GNU-shaped Neomacs runtime pipeline:
  1. cargo build --verbose -p neomacs [--features wpe-webkit on Linux] [--release]
  2. generate GNU early charset/unidata Lisp sources
  3. regenerate GNU subdirs.el files
  4. neomacs-temacs --temacs=pbootstrap
  5. bootstrap-neomacs byte-compiles the GNU COMPILE_FIRST set into .elc files
  6. bootstrap-neomacs generates GNU Unicode Lisp data
  7. bootstrap-neomacs runs GNU gen-lisp generators for leim and semantic
  8. bootstrap-neomacs generates loaddefs / ldefs-boot
  9. bootstrap-neomacs byte-compiles the GNU src/lisp.mk preloaded Lisp set
 10. neomacs-temacs --temacs=pdump
 11. neomacs byte-compiles the GNU compile-main Lisp set into .elc files

 For dev builds, stages 5, 9, and 11 are skipped.

Options:
  --bin-dir DIR       Directory containing neomacs and generated role copies
                      (an INPUT: the binaries must already be there, e.g. with
                      --skip-build; it is not a cargo output directory)
  --features LIST     Comma-separated extra cargo features for stage 1, e.g.
                      vm-profile. Combine with --profile so the feature build
                      lands in its own target dir instead of replacing the
                      release binary (whose pdump would then stop matching).
  --runtime-root DIR  Runtime root containing lisp/ and etc/
  --release           Build with the release profile, using target/release
                      (equivalent to --profile release)
  --profile release-pgo
                      Profile-guided build. Runs the pipeline TWICE: an
                      instrumented pass (target/release-pgo-gen), then the
                      committed training workload xtask/pgo-train.el, then
                      llvm-profdata merge, then the optimized build into
                      target/release-pgo. Needs `rustup component add
                      llvm-tools`. Measured on this tree: STARTUP -17%,
                      byte-compile -17% instructions, batch font-lock benches
                      -23%/-27% cycles. It does NOT speed up the interactive
                      edit loop: a real TTY keystroke->redisplay measurement is
                      +2%, because the training workload runs in --batch and so
                      never exercises redisplay. Scope claims accordingly.
  --profile release-pgo-profiling
                      As release-pgo, but keeps debug symbols so the SHIPPED
                      configuration can be profiled -- PGO changes inlining and
                      block layout, so hotspots from a plain release build do
                      not necessarily carry over.
  --profile NAME      Build with cargo profile NAME, using target/<dir> for it.
                      `profiling` inherits release but keeps debug symbols, and
                      lives in target/profiling -- so it does NOT disturb an
                      existing target/release build or its pdump. Any explicit
                      profile is accepted; dev skips Lisp byte-compilation for
                      a faster inner loop.
  --dry-run           Print planned commands without running them
  --native-comp       Include native-comp-only COMPILE_FIRST entries
  --no-native-comp    Exclude native-comp-only COMPILE_FIRST entries
  --skip-build        Skip the initial cargo build -p neomacs stage
  --no-byte-compile   Skip byte-compilation steps (5, 9, 11); keep existing .elc
  --aot-preload       Enable the in-neomacs dump-time AOT producer: sets
                      NEOVM_AOT_PRELOAD=1 on the --temacs=pdump step (10) so it
                      emits libneomacs-preload.so + manifest beside the pdump,
                      then verifies they landed. With --dry-run the producer only
                      lists candidates + dedup stats (no link/write); that combo
                      runs the dump for real to observe the enumeration.

Environment:
  NEOMACS_NATIVE_COMP=yes
      Include the native-comp-only COMPILE_FIRST entries from lisp/Makefile.in.
";

pub fn usage_text() -> (r: &'static str)
    ensures
        r@ == USAGE@,
{
    USAGE
}

/// The view of an optional text.
pub open spec fn opt_text(s: Option<&str>) -> Option<Seq<char>> {
    match s {
        Some(t) => Some(t@),
        None => None,
    }
}

fn lower_char(c: char) -> (r: char)
    ensures
        r == lower(c),
{
    if 'A' <= c && c <= 'Z' {
        (c as u8 + 32) as char
    } else {
        c
    }
}

/// Whether two texts agree but for the case of ASCII letters.
pub fn equal_ignoring_case(a: &str, b: &str) -> (r: bool)
    ensures
        r == same_ignoring_case(a@, b@),
{
    let x: Vec<char> = text::chars_of(a);
    let y: Vec<char> = text::chars_of(b);
    let ghost p = a@.map_values(|c: char| lower(c));
    let ghost q = b@.map_values(|c: char| lower(c));
    if x.len() != y.len() {
        proof {
            assert(p.len() != q.len());
        }
        return false;
    }
    let mut i: usize = 0;
    while i < x.len()
        invariant
            i <= x.len() == y.len(),
            x@ == a@,
            y@ == b@,
            p == a@.map_values(|c: char| lower(c)),
            q == b@.map_values(|c: char| lower(c)),
            forall|j: int| 0 <= j < i ==> p[j] == q[j],
        decreases x.len() - i,
    {
        if lower_char(x[i]) != lower_char(y[i]) {
            proof {
                assert(p[i as int] != q[i as int]);
            }
            return false;
        }
        i += 1;
    }
    proof {
        assert(p =~= q);
    }
    true
}

/// `raw` as the command line means it: relative to the repository.
pub fn resolve_cli_path(repo_root: &str, raw: &str) -> (r: String)
    ensures
        r@ == paths::joined_path(repo_root@, raw@),
{
    paths::join(repo_root, raw)
}

/// Where cargo puts the programs of `profile`; `target_dir` is the value of
/// `CARGO_TARGET_DIR`.
pub fn default_bin_dir(repo_root: &str, target_dir: Option<&str>, profile: &BuildProfile) -> (r:
    String)
    ensures
        r@ == default_dir(repo_root@, opt_text(target_dir), profile.subdir()),
{
    let base: String = match target_dir {
        Some(dir) => paths::join(repo_root, dir),
        None => paths::join(repo_root, "target"),
    };
    paths::join(base.as_str(), profile.target_subdir())
}

/// The features that a comma-separated list names.
pub fn parse_features(value: &str) -> (r: Vec<String>)
    ensures
        text::texts(r@) == feature_list(value@),
{
    let chars: Vec<char> = text::chars_of(value);
    let pieces: Vec<String> = text::split(chars.as_slice(), ',');
    let ghost all = text::split_at_char(value@, ',').map_values(|p: Seq<char>| text::trimmed(p));
    let mut out: Vec<String> = Vec::new();
    let mut i: usize = 0;
    proof {
        reveal(Seq::filter);
        assert(text::texts(out@) =~= all.subrange(0, 0).filter(|p: Seq<char>| p.len() > 0));
    }
    while i < pieces.len()
        invariant
            i <= pieces.len(),
            text::texts(pieces@) == text::split_at_char(value@, ','),
            all == text::split_at_char(value@, ',').map_values(
                |p: Seq<char>| text::trimmed(p),
            ),
            text::texts(out@) == all.subrange(0, i as int).filter(|p: Seq<char>| p.len() > 0),
        decreases pieces.len() - i,
    {
        let piece: Vec<char> = text::chars_of(pieces[i].as_str());
        let feature: String = text::string_of(text::trim(piece.as_slice()));
        proof {
            assert(text::texts(pieces@)[i as int] == pieces@[i as int]@);
            assert(all[i as int] == feature@);
            paths::lemma_filter_step(all, i as int, |p: Seq<char>| p.len() > 0);
        }
        if !feature.as_str().is_empty() {
            proof {
                text::lemma_texts_push(out@, feature);
            }
            out.push(feature);
        }
        i += 1;
    }
    proof {
        assert(all.subrange(0, all.len() as int) =~= all);
    }
    out
}

struct Draft {
    runtime_root: String,
    bin_dir: Option<String>,
    profile: Option<BuildProfile>,
    dry_run: bool,
    native_comp: bool,
    skip_build: bool,
    no_byte_compile: bool,
    features: Vec<String>,
    aot_preload: bool,
}

impl Draft {
    spec fn model(self) -> OptionsModel {
        OptionsModel {
            runtime_root: self.runtime_root@,
            bin_dir: match self.bin_dir {
                Some(d) => Some(d@),
                None => None,
            },
            profile: match self.profile {
                Some(p) => Some(p.name()),
                None => None,
            },
            dry_run: self.dry_run,
            native_comp: self.native_comp,
            skip_build: self.skip_build,
            no_byte_compile: self.no_byte_compile,
            features: text::texts(self.features@),
            aot_preload: self.aot_preload,
        }
    }

    spec fn wf(self) -> bool {
        match self.profile {
            Some(p) => p.kind() == profile_kind(p.name()),
            None => true,
        }
    }
}

impl FreshBuildOptions {
    /// The options say what `m` says, for the repository `repo`.
    pub open spec fn agrees(
        self,
        repo: Seq<char>,
        target_dir: Option<Seq<char>>,
        m: OptionsModel,
    ) -> bool {
        &&& self.repo_root@ == repo
        &&& self.runtime_root@ == m.runtime_root
        &&& m.profile == Some(self.profile.name())
        &&& self.profile.kind() == profile_kind(self.profile.name())
        &&& self.bin_dir@ == match m.bin_dir {
            Some(d) => d,
            None => default_dir(repo, target_dir, self.profile.subdir()),
        }
        &&& self.dry_run == m.dry_run
        &&& self.native_comp == m.native_comp
        &&& self.skip_build == m.skip_build
        &&& self.no_byte_compile == (m.no_byte_compile || self.profile.kind() == ProfileKind::Dev
            || self.profile.kind() == ProfileKind::DevRelease)
        &&& text::texts(self.features@) == m.features
        &&& self.aot_preload == m.aot_preload
    }

    /// Reads a command line. `native_env` is the value of `NEOMACS_NATIVE_COMP`
    /// and `target_dir` that of `CARGO_TARGET_DIR`, where they are set.
    #[verifier::rlimit(60)]
    pub fn parse(
        repo_root: &str,
        native_env: Option<&str>,
        target_dir: Option<&str>,
        args: &Vec<String>,
    ) -> (r: Result<ParsedCommand, String>)
        ensures
            match scan_command(repo_root@, opt_text(native_env), text::texts(args@)) {
                Scan::Help => r matches Ok(ParsedCommand::Help),
                Scan::Error(e) => r matches Err(m) && m@ == e,
                Scan::Done(m) => if m.profile is None {
                    r matches Err(e) && e@ == MISSING_PROFILE@
                } else {
                    r matches Ok(ParsedCommand::Build(o)) && o.agrees(
                        repo_root@,
                        opt_text(target_dir),
                        m,
                    )
                },
            },
    {
        let ghost all = text::texts(args@);
        let ghost repo = repo_root@;
        let n: usize = args.len();
        let mut i: usize = 0;
        proof {
            assert(forall|k: int| 0 <= k < n ==> all[k] == args@[k]@);
            assert(all.subrange(0, n as int) =~= all);
        }
        if n > 0 && (text::same(args[0].as_str(), "help") || text::same(args[0].as_str(), "--help")
            || text::same(args[0].as_str(), "-h")) {
            return Ok(ParsedCommand::Help);
        }
        if n > 0 && text::same(args[0].as_str(), "fresh-build") {
            i = 1;
        }
        let native_comp: bool = match native_env {
            Some(value) => equal_ignoring_case(value, "yes"),
            None => false,
        };
        let mut d: Draft = Draft {
            runtime_root: text::copy(repo_root),
            bin_dir: None,
            profile: None,
            dry_run: false,
            native_comp: native_comp,
            skip_build: false,
            no_byte_compile: false,
            features: Vec::new(),
            aot_preload: false,
        };
        let ghost goal = scan_command(repo, opt_text(native_env), all);
        proof {
            assert(text::texts(d.features@) =~= Seq::empty());
            assert(d.model() == initial(repo, opt_text(native_env)));
        }
        while i < n
            invariant
                i <= n == args.len(),
                all == text::texts(args@),
                repo == repo_root@,
                forall|k: int| 0 <= k < n ==> all[k] == args@[k]@,
                goal == scan_command(repo, opt_text(native_env), all),
                d.wf(),
                goal == scan(repo, d.model(), all.subrange(i as int, n as int)),
            decreases n - i,
        {
            let ghost rest = all.subrange(i as int, n as int);
            let ghost m = d.model();
            proof {
                assert(rest[0] == args@[i as int]@);
                assert(rest.subrange(1, rest.len() as int) =~= all.subrange(i + 1, n as int));
                if i + 1 < n {
                    assert(rest[1] == args@[i + 1]@);
                    assert(rest.subrange(2, rest.len() as int) =~= all.subrange(i + 2, n as int));
                }
            }
            let arg: &str = args[i].as_str();
            if text::same(arg, "--bin-dir") {
                if n - i < 2 {
                    return Err(text::copy("--bin-dir requires a path"));
                }
                d.bin_dir = Some(resolve_cli_path(repo_root, args[i + 1].as_str()));
                i += 2;
            } else if text::same(arg, "--runtime-root") {
                if n - i < 2 {
                    return Err(text::copy("--runtime-root requires a path"));
                }
                d.runtime_root = resolve_cli_path(repo_root, args[i + 1].as_str());
                i += 2;
            } else if text::same(arg, "--release") {
                d.profile = Some(BuildProfile::parse("release"));
                i += 1;
            } else if text::same(arg, "--profile") {
                if n - i < 2 {
                    return Err(text::copy("--profile requires a profile name"));
                }
                let value: Vec<char> = text::chars_of(args[i + 1].as_str());
                let name: String = text::string_of(text::trim(value.as_slice()));
                d.profile = Some(BuildProfile::parse(name.as_str()));
                i += 2;
            } else if text::same(arg, "--dry-run") {
                d.dry_run = true;
                i += 1;
            } else if text::same(arg, "--native-comp") {
                d.native_comp = true;
                i += 1;
            } else if text::same(arg, "--no-native-comp") {
                d.native_comp = false;
                i += 1;
            } else if text::same(arg, "--skip-build") {
                d.skip_build = true;
                i += 1;
            } else if text::same(arg, "--no-byte-compile") {
                d.no_byte_compile = true;
                i += 1;
            } else if text::same(arg, "--aot-preload") {
                d.aot_preload = true;
                i += 1;
            } else if text::same(arg, "--features") {
                if n - i < 2 {
                    return Err(text::copy("--features requires a comma-separated list"));
                }
                d.features = parse_features(args[i + 1].as_str());
                i += 2;
            } else if text::same(arg, "--help") || text::same(arg, "-h") {
                return Ok(ParsedCommand::Help);
            } else {
                let mut message: String = text::copy("unknown option: ");
                message.append(arg);
                message.append("\n\n");
                message.append(usage_text());
                return Err(message);
            }
        }
        let profile: BuildProfile = match d.profile {
            Some(p) => p,
            None => {
                return Err(text::copy(MISSING_PROFILE));
            },
        };
        let quick: bool = match &profile {
            BuildProfile::Dev => true,
            BuildProfile::DevRelease => true,
            _ => false,
        };
        let bin_dir: String = match d.bin_dir {
            Some(dir) => dir,
            None => default_bin_dir(repo_root, target_dir, &profile),
        };
        Ok(
            ParsedCommand::Build(
                FreshBuildOptions {
                    repo_root: text::copy(repo_root),
                    runtime_root: d.runtime_root,
                    bin_dir: bin_dir,
                    profile: profile,
                    dry_run: d.dry_run,
                    native_comp: d.native_comp,
                    skip_build: d.skip_build,
                    no_byte_compile: d.no_byte_compile || quick,
                    features: d.features,
                    aot_preload: d.aot_preload,
                },
            ),
        )
    }
}

} // verus!
