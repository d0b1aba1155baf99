//! What a command line is for: each option says one thing, and what is said last counts.
use vstd::prelude::*;

use crate::build_options;
use crate::build_options::{BuildProfile, FreshBuildOptions, OptionsModel, ParsedCommand};
use crate::paths;
use crate::text;

verus! {

/// By their lengths, and a letter where they are of one length, no option is another one, nor
/// a command.
proof fn lemma_option_names()
    ensures
        "--bin-dir"@.len() == 9,
        "--bin-dir"@[2] == 'b',
        "--runtime-root"@.len() == 14,
        "--release"@.len() == 9,
        "--release"@[2] == 'r',
        "--profile"@.len() == 9,
        "--profile"@[2] == 'p',
        "--dry-run"@.len() == 9,
        "--dry-run"@[2] == 'd',
        "--native-comp"@.len() == 13,
        "--native-comp"@[2] == 'n',
        "--no-native-comp"@.len() == 16,
        "--skip-build"@.len() == 12,
        "--no-byte-compile"@.len() == 17,
        "--aot-preload"@.len() == 13,
        "--aot-preload"@[2] == 'a',
        "--features"@.len() == 10,
        "--help"@.len() == 6,
        "-h"@.len() == 2,
        "help"@.len() == 4,
        "fresh-build"@.len() == 11,
{
    reveal_strlit("--bin-dir");
    reveal_strlit("--runtime-root");
    reveal_strlit("--release");
    reveal_strlit("--profile");
    reveal_strlit("--dry-run");
    reveal_strlit("--native-comp");
    reveal_strlit("--no-native-comp");
    reveal_strlit("--skip-build");
    reveal_strlit("--no-byte-compile");
    reveal_strlit("--aot-preload");
    reveal_strlit("--features");
    reveal_strlit("--help");
    reveal_strlit("-h");
    reveal_strlit("help");
    reveal_strlit("fresh-build");
}

proof fn lemma_scan_goes_on(repo: Seq<char>, m: OptionsModel, a: Seq<Seq<char>>, b: Seq<Seq<char>>)
    requires
        build_options::scan(repo, m, a) is Done,
    ensures
        build_options::scan(repo, m, a + b) == build_options::scan(
            repo,
            build_options::scan(repo, m, a)->Done_0,
            b,
        ),
    decreases a.len(), 1int,
{
    if a.len() == 0 {
        assert(a + b =~= b);
    } else {
        let c = a + b;
        let (n, k) = (a.len() as int, c.len() as int);
        assert(c[0] == a[0]);
        assert(c.subrange(1, k) =~= a.subrange(1, n) + b);
        if n >= 2 {
            assert(c[1] == a[1]);
            assert(c.subrange(2, k) =~= a.subrange(2, n) + b);
        }
        if build_options::option_width(a) == 2 {
            lemma_scan_step(repo, m, a, b, a.subrange(2, n));
        } else {
            lemma_scan_step(repo, m, a, b, a.subrange(1, n));
        }
    }
}

proof fn lemma_scan_step(
    repo: Seq<char>,
    m: OptionsModel,
    a: Seq<Seq<char>>,
    b: Seq<Seq<char>>,
    rest: Seq<Seq<char>>,
)
    requires
        a.len() > 0,
        build_options::scan(repo, m, a) is Done,
        rest.len() < a.len(),
        rest == a.subrange(build_options::option_width(a), a.len() as int),
        (a + b)[0] == a[0],
        a.len() >= 2 ==> (a + b)[1] == a[1],
        (a + b).subrange(build_options::option_width(a), (a + b).len() as int) == rest + b,
    ensures
        build_options::scan(repo, m, a + b) == build_options::scan(
            repo,
            build_options::scan(repo, m, a)->Done_0,
            b,
        ),
    decreases a.len(), 0int,
{
    lemma_option_names();
    let x = a[0];
    let y = a[1];
    if x == "--bin-dir"@ {
        lemma_scan_goes_on(
            repo,
            OptionsModel { bin_dir: Some(paths::joined_path(repo, y)), ..m },
            rest,
            b,
        );
    } else if x == "--runtime-root"@ {
        lemma_scan_goes_on(
            repo,
            OptionsModel { runtime_root: paths::joined_path(repo, y), ..m },
            rest,
            b,
        );
    } else if x == "--release"@ {
        lemma_scan_goes_on(repo, OptionsModel { profile: Some("release"@), ..m }, rest, b);
    } else if x == "--profile"@ {
        lemma_scan_goes_on(repo, OptionsModel { profile: Some(text::trimmed(y)), ..m }, rest, b);
    } else if x == "--dry-run"@ {
        lemma_scan_goes_on(repo, OptionsModel { dry_run: true, ..m }, rest, b);
    } else if x == "--native-comp"@ {
        lemma_scan_goes_on(repo, OptionsModel { native_comp: true, ..m }, rest, b);
    } else if x == "--no-native-comp"@ {
        lemma_scan_goes_on(repo, OptionsModel { native_comp: false, ..m }, rest, b);
    } else if x == "--skip-build"@ {
        lemma_scan_goes_on(repo, OptionsModel { skip_build: true, ..m }, rest, b);
    } else if x == "--no-byte-compile"@ {
        lemma_scan_goes_on(repo, OptionsModel { no_byte_compile: true, ..m }, rest, b);
    } else if x == "--aot-preload"@ {
        lemma_scan_goes_on(repo, OptionsModel { aot_preload: true, ..m }, rest, b);
    } else if x == "--features"@ {
        lemma_scan_goes_on(
            repo,
            OptionsModel { features: build_options::feature_list(y), ..m },
            rest,
            b,
        );
    }
}

/// Where the output is by default: below the target directory, or `target` in the
/// repository, under the name of the profile's directory.
pub open spec fn is_default_dir(
    o: FreshBuildOptions,
    repo: Seq<char>,
    target_dir: Option<&str>,
    subdir: Seq<char>,
) -> bool {
    o.bin_dir@ == paths::joined_path(
        paths::joined_path(
            repo,
            if target_dir is Some {
                target_dir->0@
            } else {
                "target"@
            },
        ),
        subdir,
    )
}

/// What two sets of options share, besides what one option can change.
pub open spec fn same_flags(
    a: FreshBuildOptions,
    b: FreshBuildOptions,
    dry: bool,
    native: bool,
    skip: bool,
    aot: bool,
) -> bool {
    &&& dry ==> b.dry_run == a.dry_run
    &&& native ==> b.native_comp == a.native_comp
    &&& skip ==> b.skip_build == a.skip_build
    &&& aot ==> b.aot_preload == a.aot_preload
}

pub open spec fn same_places(a: FreshBuildOptions, b: FreshBuildOptions) -> bool {
    &&& b.repo_root@ == a.repo_root@
    &&& b.runtime_root@ == a.runtime_root@
    &&& b.bin_dir@ == a.bin_dir@
}

pub open spec fn same_build(a: FreshBuildOptions, b: FreshBuildOptions) -> bool {
    &&& b.profile.name() == a.profile.name()
    &&& b.no_byte_compile == a.no_byte_compile
    &&& text::texts(b.features@) == text::texts(a.features@)
}

/// An option at the end of a command line that can be read adds what it says, and leaves
/// everything else as it was said before.
#[verifier::rlimit(60)]
pub proof fn law_one_more_option(
    repo: &str,
    native_env: Option<&str>,
    target_dir: Option<&str>,
    args: &Vec<String>,
    more: &Vec<String>,
    r: Result<ParsedCommand, String>,
    q: Result<ParsedCommand, String>,
    x: Seq<char>,
)
    requires
        call_ensures(FreshBuildOptions::parse, (repo, native_env, target_dir, args), r),
        call_ensures(FreshBuildOptions::parse, (repo, native_env, target_dir, more), q),
        r is Ok && r->Ok_0 is Build,
        text::texts(more@) == text::texts(args@).push(x),
    ensures
        ({
            let o = (r->Ok_0)->Build_0;
            let p = (q->Ok_0)->Build_0;
            let built = q is Ok && q->Ok_0 is Build;
            &&& x == "--dry-run"@ ==> built && p.dry_run && same_flags(
                o,
                p,
                false,
                true,
                true,
                true,
            ) && same_places(o, p) && same_build(o, p)
            &&& x == "--native-comp"@ ==> built && p.native_comp && same_flags(
                o,
                p,
                true,
                false,
                true,
                true,
            ) && same_places(o, p) && same_build(o, p)
            &&& x == "--no-native-comp"@ ==> built && !p.native_comp && same_flags(
                o,
                p,
                true,
                false,
                true,
                true,
            ) && same_places(o, p) && same_build(o, p)
            &&& x == "--skip-build"@ ==> built && p.skip_build && same_flags(
                o,
                p,
                true,
                true,
                false,
                true,
            ) && same_places(o, p) && same_build(o, p)
            &&& x == "--aot-preload"@ ==> built && p.aot_preload && same_flags(
                o,
                p,
                true,
                true,
                true,
                false,
            ) && same_places(o, p) && same_build(o, p)
            &&& x == "--no-byte-compile"@ ==> built && p.no_byte_compile && same_flags(
                o,
                p,
                true,
                true,
                true,
                true,
            ) && same_places(o, p) && p.profile.name() == o.profile.name() && text::texts(
                p.features@,
            ) == text::texts(o.features@)
            &&& x == "--release"@ ==> built && p.profile.name() == "release"@ && same_flags(
                o,
                p,
                true,
                true,
                true,
                true,
            ) && p.runtime_root@ == o.runtime_root@ && text::texts(p.features@) == text::texts(
                o.features@,
            )
            &&& x == "--bin-dir"@ || x == "--runtime-root"@ || x == "--profile"@ || x
                == "--features"@ ==> q is Err
            &&& x == "--help"@ || x == "-h"@ ==> q is Ok && q->Ok_0 is Help
        }),
{
    lemma_option_names();
    let all = text::texts(args@);
    let b = seq![x];
    assert(text::texts(more@) =~= all + b);
    lemma_command_goes_on(repo@, build_options::opt_text(native_env), all, b);
    reveal_with_fuel(build_options::scan, 3);
    assert(b[0] == x);
    assert(b.subrange(1, 1) =~= Seq::<Seq<char>>::empty());
}

/// The same for the options with a value.
#[verifier::rlimit(60)]
pub proof fn law_one_more_value(
    repo: &str,
    native_env: Option<&str>,
    target_dir: Option<&str>,
    args: &Vec<String>,
    more: &Vec<String>,
    r: Result<ParsedCommand, String>,
    q: Result<ParsedCommand, String>,
    x: Seq<char>,
    y: Seq<char>,
)
    requires
        call_ensures(FreshBuildOptions::parse, (repo, native_env, target_dir, args), r),
        call_ensures(FreshBuildOptions::parse, (repo, native_env, target_dir, more), q),
        r is Ok && r->Ok_0 is Build,
        text::texts(more@) == text::texts(args@).push(x).push(y),
        x == "--bin-dir"@ || x == "--runtime-root"@ || x == "--profile"@ || x == "--features"@,
    ensures
        q is Ok && q->Ok_0 is Build,
        ({
            let o = (r->Ok_0)->Build_0;
            let p = (q->Ok_0)->Build_0;
            &&& same_flags(o, p, true, true, true, true)
            &&& p.repo_root@ == o.repo_root@
            &&& x == "--bin-dir"@ ==> p.bin_dir@ == paths::joined_path(repo@, y)
                && p.runtime_root@ == o.runtime_root@ && same_build(o, p)
            &&& x == "--runtime-root"@ ==> p.runtime_root@ == paths::joined_path(repo@, y)
                && p.bin_dir@ == o.bin_dir@ && same_build(o, p)
            &&& x == "--profile"@ ==> p.profile.name() == text::trimmed(y) && p.runtime_root@
                == o.runtime_root@ && text::texts(p.features@) == text::texts(o.features@)
            &&& x == "--features"@ ==> same_places(o, p) && p.profile.name() == o.profile.name()
                && p.no_byte_compile == o.no_byte_compile && text::texts(p.features@)
                == build_options::feature_list(y)
        }),
{
    lemma_option_names();
    let all = text::texts(args@);
    let b = seq![x, y];
    assert(text::texts(more@) =~= all + b);
    lemma_command_goes_on(repo@, build_options::opt_text(native_env), all, b);
    reveal_with_fuel(build_options::scan, 3);
    assert(b[0] == x && b[1] == y);
    assert(b.subrange(2, 2) =~= Seq::<Seq<char>>::empty());
}

proof fn lemma_command_goes_on(
    repo: Seq<char>,
    env: Option<Seq<char>>,
    a: Seq<Seq<char>>,
    b: Seq<Seq<char>>,
)
    requires
        build_options::scan_command(repo, env, a) is Done,
        a.len() > 0,
    ensures
        build_options::scan_command(repo, env, a + b) == build_options::scan(
            repo,
            build_options::scan_command(repo, env, a)->Done_0,
            b,
        ),
{
    let m = build_options::initial(repo, env);
    assert((a + b)[0] == a[0]);
    if a[0] == "fresh-build"@ {
        let t = a.subrange(1, a.len() as int);
        lemma_option_names();
        assert((a + b).subrange(1, (a + b).len() as int) =~= t + b);
        lemma_scan_goes_on(repo, m, t, b);
    } else {
        lemma_scan_goes_on(repo, m, a, b);
    }
}

/// What holds where nothing else is said: the repository is the runtime root, nothing is
/// skipped, and native compilation is as the environment says.
pub proof fn law_release_alone(
    repo: &str,
    native_env: Option<&str>,
    target_dir: Option<&str>,
    args: &Vec<String>,
    r: Result<ParsedCommand, String>,
)
    requires
        call_ensures(FreshBuildOptions::parse, (repo, native_env, target_dir, args), r),
        text::texts(args@) == seq!["--release"@] || text::texts(args@) == seq![
            "fresh-build"@,
            "--release"@,
        ],
    ensures
        r is Ok && r->Ok_0 is Build,
        ({
            let o = (r->Ok_0)->Build_0;
            &&& o.repo_root@ == repo@ && o.runtime_root@ == repo@
            &&& o.profile.name() == "release"@
            &&& !o.dry_run && !o.skip_build && !o.no_byte_compile && !o.aot_preload
            &&& o.features@.len() == 0
            &&& native_env is None ==> !o.native_comp
            &&& is_default_dir(o, repo@, target_dir, "release"@)
        }),
{
    lemma_option_names();
    lemma_profile_names();
    let all = text::texts(args@);
    let m = build_options::initial(repo@, build_options::opt_text(native_env));
    reveal_with_fuel(build_options::scan, 3);
    if all == seq!["--release"@] {
        assert(all[0] == "--release"@);
        assert(all.subrange(1, 1) =~= Seq::<Seq<char>>::empty());
    } else {
        assert(all[0] == "fresh-build"@);
        let t = all.subrange(1, 2);
        assert(t[0] == "--release"@);
        assert(t.subrange(1, 1) =~= Seq::<Seq<char>>::empty());
    }
    let o = (r->Ok_0)->Build_0;
    assert(text::texts(o.features@).len() == 0);
}

/// Without a profile there is no build.
pub proof fn law_no_profile_no_build(
    repo: &str,
    native_env: Option<&str>,
    target_dir: Option<&str>,
    args: &Vec<String>,
    r: Result<ParsedCommand, String>,
)
    requires
        call_ensures(FreshBuildOptions::parse, (repo, native_env, target_dir, args), r),
        forall|i: int|
            0 <= i < args@.len() ==> #[trigger] args@[i]@ != "--release"@ && args@[i]@
                != "--profile"@,
    ensures
        r is Ok ==> r->Ok_0 is Help,
{
    lemma_option_names();
    let all = text::texts(args@);
    let m = build_options::initial(repo@, build_options::opt_text(native_env));
    assert forall|i: int| 0 <= i < all.len() implies #[trigger] all[i] != "--release"@ && all[i]
        != "--profile"@ by {
        assert(all[i] == args@[i]@);
    }
    lemma_no_profile(repo@, m, all);
    if all.len() > 0 {
        let t = all.subrange(1, all.len() as int);
        assert forall|i: int| 0 <= i < t.len() implies #[trigger] t[i] != "--release"@ && t[i]
            != "--profile"@ by {
            assert(t[i] == all[i + 1]);
        }
        lemma_no_profile(repo@, m, t);
    }
}

proof fn lemma_no_profile(repo: Seq<char>, m: OptionsModel, args: Seq<Seq<char>>)
    requires
        m.profile is None,
        forall|i: int|
            0 <= i < args.len() ==> #[trigger] args[i] != "--release"@ && args[i] != "--profile"@,
    ensures
        build_options::scan(repo, m, args) is Done ==> (build_options::scan(
            repo,
            m,
            args,
        )->Done_0).profile is None,
    decreases args.len(),
{
    let n = args.len() as int;
    if n > 0 {
        assert(args[0] != "--release"@);
        let t = args.subrange(1, n);
        assert forall|i: int| 0 <= i < t.len() implies #[trigger] t[i] != "--release"@ && t[i]
            != "--profile"@ by {
            assert(t[i] == args[i + 1]);
        }
        lemma_no_profile(repo, OptionsModel { dry_run: true, ..m }, t);
        lemma_no_profile(repo, OptionsModel { native_comp: true, ..m }, t);
        lemma_no_profile(repo, OptionsModel { native_comp: false, ..m }, t);
        lemma_no_profile(repo, OptionsModel { skip_build: true, ..m }, t);
        lemma_no_profile(repo, OptionsModel { no_byte_compile: true, ..m }, t);
        lemma_no_profile(repo, OptionsModel { aot_preload: true, ..m }, t);
        if n >= 2 {
            let u = args.subrange(2, n);
            assert forall|i: int| 0 <= i < u.len() implies #[trigger] u[i] != "--release"@ && u[i]
                != "--profile"@ by {
                assert(u[i] == args[i + 2]);
            }
            lemma_no_profile(
                repo,
                OptionsModel { bin_dir: Some(paths::joined_path(repo, args[1])), ..m },
                u,
            );
            lemma_no_profile(
                repo,
                OptionsModel { runtime_root: paths::joined_path(repo, args[1]), ..m },
                u,
            );
            lemma_no_profile(
                repo,
                OptionsModel { features: build_options::feature_list(args[1]), ..m },
                u,
            );
        }
    }
}

proof fn lemma_profile_names()
    ensures
        "release"@.len() == 7,
        "profiling"@.len() == 9,
        "release-pgo"@.len() == 11,
        "release-pgo"@[0] == 'r',
        "release-pgo-profiling"@.len() == 21,
        "release-pgo-gen"@.len() == 15,
        "dev"@.len() == 3,
        "dev-release"@.len() == 11,
        "dev-release"@[0] == 'd',
        "debug"@.len() == 5,
        "debug"@[0] == 'd',
        "test"@.len() == 4,
        "bench"@.len() == 5,
        "bench"@[0] == 'b',
{
    reveal_strlit("release");
    reveal_strlit("profiling");
    reveal_strlit("release-pgo");
    reveal_strlit("release-pgo-profiling");
    reveal_strlit("release-pgo-gen");
    reveal_strlit("dev");
    reveal_strlit("dev-release");
    reveal_strlit("debug");
    reveal_strlit("test");
    reveal_strlit("bench");
}

/// A profile's name is read back, and its output is in the directory of that name: but what
/// is built for development or for tests is in `debug`, and for benchmarks in `release`.
pub proof fn law_profile_directory(name: &str, p: BuildProfile, back: &str, dir: &str, pgo: bool)
    requires
        call_ensures(BuildProfile::parse, (name,), p),
        call_ensures(BuildProfile::as_name, (&p,), back),
        call_ensures(BuildProfile::target_subdir, (&p,), dir),
        call_ensures(BuildProfile::consumes_pgo, (&p,), pgo),
    ensures
        back@ == name@,
        name@ == "dev"@ || name@ == "test"@ ==> dir@ == "debug"@,
        name@ == "bench"@ ==> dir@ == "release"@,
        name@ != "dev"@ && name@ != "test"@ && name@ != "bench"@ ==> dir@ == name@,
        pgo <==> name@ == "release-pgo"@ || name@ == "release-pgo-profiling"@,
{
    lemma_profile_names();
}

/// Lisp is byte-compiled unless that is switched off, or the profile is one for development.
pub proof fn law_development_skips_byte_compilation(
    repo: &str,
    native_env: Option<&str>,
    target_dir: Option<&str>,
    args: &Vec<String>,
    r: Result<ParsedCommand, String>,
)
    requires
        call_ensures(FreshBuildOptions::parse, (repo, native_env, target_dir, args), r),
        r is Ok && r->Ok_0 is Build,
    ensures
        ({
            let o = (r->Ok_0)->Build_0;
            &&& o.profile.name() == "dev"@ || o.profile.name() == "dev-release"@
                ==> o.no_byte_compile
            &&& o.repo_root@ == repo@
        }),
{
    lemma_profile_names();
}

/// The environment asks for native compilation with the word yes, however it is written.
pub proof fn law_words_ignoring_case(a: &str, b: &str, r: bool)
    requires
        call_ensures(build_options::equal_ignoring_case, (a, b), r),
    ensures
        r <==> a@.len() == b@.len() && forall|i: int|
            0 <= i < a@.len() ==> build_options::lower(#[trigger] a@[i]) == build_options::lower(
                b@[i],
            ),
        a@ == b@ ==> r,
{
    let f = |c: char| build_options::lower(c);
    let (x, y) = (a@.map_values(f), b@.map_values(f));
    if r {
        assert(x == y);
        assert forall|i: int| 0 <= i < a@.len() implies build_options::lower(#[trigger] a@[i])
            == build_options::lower(b@[i]) by {
            assert(x[i] == y[i]);
        }
    } else if a@.len() == b@.len() && forall|i: int|
        0 <= i < a@.len() ==> build_options::lower(#[trigger] a@[i]) == build_options::lower(
            b@[i],
        ) {
        assert(x =~= y);
    }
}

} // verus!
