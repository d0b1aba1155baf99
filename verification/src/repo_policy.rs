//! Rules that the repository's own documents are held to: its workflows, its
//! packaging scripts, its manifests and its Windows installer. Each rule takes
//! the text of the document and says whether the text keeps it.
use crate::text;
use vstd::prelude::*;

verus! {

/// What follows the first `needle` in `s`.
pub open spec fn after(s: Seq<char>, needle: Seq<char>) -> Option<Seq<char>> {
    if text::contains(s, needle) {
        let i = choose|i: int| text::first_at(s, needle, 0, i);
        Some(s.subrange(i + needle.len(), s.len() as int))
    } else {
        None
    }
}

/// What stands before the first `needle` in `s`.
pub open spec fn before(s: Seq<char>, needle: Seq<char>) -> Option<Seq<char>> {
    if text::contains(s, needle) {
        let i = choose|i: int| text::first_at(s, needle, 0, i);
        Some(s.subrange(0, i))
    } else {
        None
    }
}

proof fn lemma_first(s: Seq<char>, needle: Seq<char>, i: int)
    requires
        text::first_at(s, needle, 0, i),
    ensures
        after(s, needle) == Some(s.subrange(i + needle.len(), s.len() as int)),
        before(s, needle) == Some(s.subrange(0, i)),
{
    let k = choose|k: int| text::first_at(s, needle, 0, k);
    assert(text::first_at(s, needle, 0, k));
    assert(text::occurs_at(s, needle, i));
    assert(k == i);
}

/// Splits `s` at the first `needle`.
pub fn split_once(s: &str, needle: &str) -> (r: Option<(String, String)>)
    ensures
        match r {
            Some(parts) => before(s@, needle@) == Some(parts.0@) && after(s@, needle@) == Some(
                parts.1@,
            ),
            None => before(s@, needle@) is None && after(s@, needle@) is None,
        },
{
    let all: Vec<char> = text::chars_of(s);
    let mark: Vec<char> = text::chars_of(needle);
    match text::find_from(all.as_slice(), mark.as_slice(), 0) {
        None => None,
        Some(i) => {
            proof {
                lemma_first(s@, needle@, i as int);
                assert(text::occurs_at(all@, mark@, i as int));
                assert(i + mark.len() <= all.len());
            }
            let head: &[char] = vstd::slice::slice_subrange(all.as_slice(), 0, i);
            let tail: &[char] = vstd::slice::slice_subrange(
                all.as_slice(),
                i + mark.len(),
                all.len(),
            );
            Some((text::string_of(head), text::string_of(tail)))
        },
    }
}

/// How many times `needle` stands in `s`, no two of them overlapping, counted
/// from the left.
pub open spec fn match_count(s: Seq<char>, needle: Seq<char>) -> nat
    decreases s.len(),
    when needle.len() > 0
    via match_count_decreases
{
    match after(s, needle) {
        Some(rest) => 1 + match_count(rest, needle),
        None => 0,
    }
}

#[via_fn]
proof fn match_count_decreases(s: Seq<char>, needle: Seq<char>) {
    if text::contains(s, needle) {
        lemma_has_first(s, needle);
    }
}

/// A text that holds `needle` has a first place where it stands.
proof fn lemma_has_first(s: Seq<char>, needle: Seq<char>)
    requires
        text::contains(s, needle),
    ensures
        exists|i: int| text::first_at(s, needle, 0, i),
{
    let i = choose|i: int| text::occurs_at(s, needle, i);
    lemma_least(s, needle, i);
}

proof fn lemma_least(s: Seq<char>, needle: Seq<char>, i: int)
    requires
        text::occurs_at(s, needle, i),
    ensures
        exists|k: int| text::first_at(s, needle, 0, k),
    decreases i,
{
    if exists|j: int| 0 <= j < i && text::occurs_at(s, needle, j) {
        let j = choose|j: int| 0 <= j < i && text::occurs_at(s, needle, j);
        lemma_least(s, needle, j);
    } else {
        assert(text::first_at(s, needle, 0, i));
    }
}

/// Counts the places of `needle`.
pub fn matches_of(s: &str, needle: &str) -> (r: usize)
    requires
        needle@.len() > 0,
    ensures
        r as nat == match_count(s@, needle@),
{
    let all: Vec<char> = text::chars_of(s);
    let mark: Vec<char> = text::chars_of(needle);
    let mut at: usize = 0;
    let mut count: usize = 0;
    proof {
        assert(all@.subrange(0, all@.len() as int) =~= all@);
    }
    loop
        invariant
            all@ == s@,
            mark@ == needle@,
            needle@.len() > 0,
            count <= at <= all.len(),
            count as nat + match_count(all@.subrange(at as int, all@.len() as int), needle@)
                == match_count(s@, needle@),
        decreases all.len() - at,
    {
        let rest: &[char] = vstd::slice::slice_subrange(all.as_slice(), at, all.len());
        match text::find_from(rest, mark.as_slice(), 0) {
            None => {
                return count;
            },
            Some(i) => {
                proof {
                    lemma_first(rest@, needle@, i as int);
                    assert(rest@.subrange(i + needle@.len(), rest@.len() as int)
                        =~= all@.subrange(at + i + needle@.len(), all@.len() as int));
                }
                count += 1;
                at = at + i + mark.len();
            },
        }
    }
}

/// A line that begins with exactly two spaces starts at index `i` of `s`.
pub open spec fn job_level_line(s: Seq<char>, i: int) -> bool {
    &&& 0 <= i
    &&& i + 2 <= s.len()
    &&& i == 0 || s[i - 1] == '\n'
    &&& s[i] == ' ' && s[i + 1] == ' '
    &&& i + 2 == s.len() || s[i + 2] != ' '
}

/// Where the job whose body starts `s` ends: at the next line of its own level.
pub open spec fn job_end(s: Seq<char>, from: int) -> int
    decreases s.len() - from,
{
    if from >= s.len() || job_level_line(s, from) {
        from
    } else {
        job_end(s, from + 1)
    }
}

/// The line that opens the job `name`, with the line ends around it.
pub open spec fn job_marker(name: Seq<char>) -> Seq<char> {
    "\n  "@ + name + ":\n"@
}

/// The body of the job `name` of a workflow.
pub open spec fn job_of(workflow: Seq<char>, name: Seq<char>) -> Option<Seq<char>> {
    match after(workflow, job_marker(name)) {
        Some(tail) => Some(tail.subrange(0, job_end(tail, 0))),
        None => None,
    }
}

/// The body of the job `name`; `None` where the workflow does not define it.
pub fn github_workflow_job(workflow: &str, name: &str) -> (r: Option<String>)
    ensures
        match r {
            Some(job) => job_of(workflow@, name@) == Some(job@),
            None => job_of(workflow@, name@) is None,
        },
{
    let opened: String = text::concat("\n  ", name);
    let marker: String = text::concat(opened.as_str(), ":\n");
    match split_once(workflow, marker.as_str()) {
        None => None,
        Some(parts) => {
            let tail: Vec<char> = text::chars_of(parts.1.as_str());
            let mut i: usize = 0;
            while i < tail.len() && !(i + 1 < tail.len() && (i == 0 || tail[i - 1] == '\n')
                && tail[i] == ' ' && tail[i + 1] == ' ' && (i + 2 == tail.len() || tail[i + 2]
                != ' '))
                invariant
                    i <= tail.len(),
                    job_end(tail@, 0) == job_end(tail@, i as int),
                decreases tail.len() - i,
            {
                i += 1;
            }
            Some(text::string_of(vstd::slice::slice_subrange(tail.as_slice(), 0, i)))
        },
    }
}

/// The body of a job ends before the next job begins.
pub proof fn law_job_holds_no_other_job(s: Seq<char>, from: int, k: int)
    requires
        0 <= from <= k < job_end(s, from),
    ensures
        !job_level_line(s, k),
        job_end(s, from) <= s.len(),
    decreases k - from,
{
    if from < k {
        law_job_holds_no_other_job(s, from + 1, k);
    } else {
        lemma_job_end(s, from);
    }
}

proof fn lemma_job_end(s: Seq<char>, from: int)
    requires
        from <= s.len(),
    ensures
        from <= job_end(s, from) <= s.len(),
    decreases s.len() - from,
{
    if !(from >= s.len() || job_level_line(s, from)) {
        lemma_job_end(s, from + 1);
    }
}

/// An external action named on a `uses:` line.
pub open spec fn external_action(line: Seq<char>) -> Option<Seq<char>> {
    let t = text::trimmed(line);
    if !text::starts_with(t, "uses: "@) {
        None
    } else {
        let action = t.subrange("uses: "@.len() as int, t.len() as int);
        if text::starts_with(action, "./"@) {
            None
        } else {
            Some(action)
        }
    }
}

pub open spec fn is_hex_digit(c: char) -> bool {
    ('0' <= c && c <= '9') || ('a' <= c && c <= 'f') || ('A' <= c && c <= 'F')
}

/// A full commit name.
pub open spec fn is_commit(s: Seq<char>) -> bool {
    &&& s.len() == 40
    &&& forall|i: int| 0 <= i < s.len() ==> is_hex_digit(#[trigger] s[i])
}

/// The action names a full commit behind its first `@`.
pub open spec fn action_is_pinned(action: Seq<char>) -> bool {
    match after(action, "@"@) {
        Some(revision) => text::words_of(revision).len() > 0 && is_commit(
            text::words_of(revision)[0],
        ),
        None => false,
    }
}

pub open spec fn line_is_pinned(line: Seq<char>) -> bool {
    match external_action(line) {
        Some(action) => action_is_pinned(action),
        None => true,
    }
}

/// Every external action that the document uses is pinned to a commit.
pub open spec fn all_pinned(document: Seq<char>) -> bool {
    forall|i: int|
        0 <= i < text::lines_of(document).len() ==> line_is_pinned(
            #[trigger] text::lines_of(document)[i],
        )
}

pub fn is_commit_name(s: &str) -> (r: bool)
    ensures
        r == is_commit(s@),
{
    let v: Vec<char> = text::chars_of(s);
    if v.len() != 40 {
        return false;
    }
    let mut i: usize = 0;
    while i < v.len()
        invariant
            i <= v.len(),
            v@ == s@,
            forall|j: int| 0 <= j < i ==> is_hex_digit(#[trigger] s@[j]),
        decreases v.len() - i,
    {
        let c: char = v[i];
        if !(('0' <= c && c <= '9') || ('a' <= c && c <= 'f') || ('A' <= c && c <= 'F')) {
            assert(!is_hex_digit(s@[i as int]));
            return false;
        }
        i += 1;
    }
    true
}

/// Whether the action is pinned.
pub fn pinned_action(action: &str) -> (r: bool)
    ensures
        r == action_is_pinned(action@),
{
    match split_once(action, "@") {
        None => false,
        Some(parts) => {
            let revision: Vec<char> = text::chars_of(parts.1.as_str());
            let words: Vec<String> = text::words(revision.as_slice());
            assert(text::texts(words@).len() == words@.len());
            if words.len() == 0 {
                return false;
            }
            assert(text::texts(words@)[0] == words@[0]@);
            is_commit_name(words[0].as_str())
        },
    }
}

/// Whether the line keeps the pinning rule.
pub fn pinned_line(line: &str) -> (r: bool)
    ensures
        r == line_is_pinned(line@),
{
    let v: Vec<char> = text::chars_of(line);
    let t: &[char] = text::trim(v.as_slice());
    let lead: Vec<char> = text::chars_of("uses: ");
    if !text::begins(t, lead.as_slice()) {
        return true;
    }
    let action: String = text::string_of(
        vstd::slice::slice_subrange(t, lead.len(), t.len()),
    );
    if text::begins_with(action.as_str(), "./") {
        return true;
    }
    pinned_action(action.as_str())
}

/// Whether every external action that the document uses is pinned.
pub fn pins_external_actions(document: &str) -> (r: bool)
    ensures
        r == all_pinned(document@),
{
    let lines: Vec<String> = text::lines(document);
    let mut i: usize = 0;
    assert(text::texts(lines@).len() == lines@.len());
    while i < lines.len()
        invariant
            i <= lines.len(),
            text::texts(lines@) == text::lines_of(document@),
            text::texts(lines@).len() == lines@.len(),
            forall|j: int|
                0 <= j < i ==> line_is_pinned(#[trigger] text::lines_of(document@)[j]),
        decreases lines.len() - i,
    {
        assert(text::texts(lines@)[i as int] == lines@[i as int]@);
        if !pinned_line(lines[i].as_str()) {
            assert(!line_is_pinned(text::lines_of(document@)[i as int]));
            return false;
        }
        i += 1;
    }
    true
}

/// Joining two documents keeps the pinning rule where the first ends its last
/// line: each document may be checked alone.
pub proof fn law_pinning_is_by_line(first: Seq<char>, second: Seq<char>)
    requires
        first.len() == 0 || first[first.len() - 1] == '\n',
    ensures
        all_pinned(first + second) == (all_pinned(first) && all_pinned(second)),
{
    lemma_lines_join(first, second);
    let a = text::lines_of(first);
    let b = text::lines_of(second);
    let c = text::lines_of(first + second);
    assert(c == a + b);
    if all_pinned(first + second) {
        assert forall|i: int| 0 <= i < a.len() implies line_is_pinned(#[trigger] a[i]) by {
            assert(c[i] == a[i]);
        }
        assert forall|i: int| 0 <= i < b.len() implies line_is_pinned(#[trigger] b[i]) by {
            assert(c[a.len() + i] == b[i]);
        }
    }
    if all_pinned(first) && all_pinned(second) {
        assert forall|i: int| 0 <= i < c.len() implies line_is_pinned(#[trigger] c[i]) by {
            if i < a.len() {
                assert(c[i] == a[i]);
            } else {
                assert(c[i] == b[i - a.len()]);
            }
        }
    }
}

/// Where the first of two texts ends its last line, the lines of both are the
/// lines of the one and then those of the other.
proof fn lemma_lines_join(first: Seq<char>, second: Seq<char>)
    requires
        first.len() == 0 || first[first.len() - 1] == '\n',
    ensures
        text::lines_of(first + second) == text::lines_of(first) + text::lines_of(second),
    decreases first.len(),
{
    let all = first + second;
    if first.len() == 0 {
        assert(all =~= second);
        assert(text::lines_of(first) + text::lines_of(second) =~= text::lines_of(second));
    } else {
        text::lemma_index_nonneg(first, '\n');
        text::lemma_index_nonneg(all, '\n');
        let i = text::index_of_char(first, '\n');
        assert(i < first.len()) by {
            assert(first[first.len() - 1] == '\n');
        }
        assert(text::index_of_char(all, '\n') == i) by {
            let k = text::index_of_char(all, '\n');
            assert(all[i] == '\n');
            if k < i {
                assert(all[k] == first[k]);
            }
        }
        let rest = first.subrange(i + 1, first.len() as int);
        assert(all.subrange(0, i) =~= first.subrange(0, i));
        assert(all.subrange(i + 1, all.len() as int) =~= rest + second);
        if rest.len() > 0 {
            assert(rest[rest.len() - 1] == first[first.len() - 1]);
        }
        lemma_lines_join(rest, second);
        assert(text::lines_of(all) =~= text::lines_of(first) + text::lines_of(second));
    }
}

/// The Nix runtime closure owns the C++ standard library, and the development
/// library path is made from it.
pub open spec fn nix_runtime_closure_rule(flake: Seq<char>) -> bool {
    &&& text::contains(flake, "stdenv.cc.cc.lib"@)
    &&& text::contains(flake, "lib.remove pkgs.ncurses (commonBuildInputsFor pkgs)"@)
}

pub fn nix_runtime_closure(flake: &str) -> (r: bool)
    ensures
        r == nix_runtime_closure_rule(flake@),
{
    text::has(flake, "stdenv.cc.cc.lib")
        && text::has(flake, "lib.remove pkgs.ncurses (commonBuildInputsFor pkgs)")
}

/// A packaging script installs the canonical desktop assets and nothing in their
/// place.
pub open spec fn package_desktop_assets_rule(script: Seq<char>) -> bool {
    &&& text::contains(script, "scripts/install-linux-desktop-assets.sh"@)
    &&& !text::contains(script, "assets/logo-128.png"@)
    &&& !text::contains(script, "[Desktop Entry]"@)
}

pub fn package_desktop_assets(script: &str) -> (r: bool)
    ensures
        r == package_desktop_assets_rule(script@),
{
    text::has(script, "scripts/install-linux-desktop-assets.sh")
        && !text::has(script, "assets/logo-128.png")
        && !text::has(script, "[Desktop Entry]")
}

/// The job packs its tarball with the release script.
pub open spec fn release_tarball_rule(job: Seq<char>) -> bool {
    &&& text::contains(job, "./scripts/package-release.sh"@)
}

pub fn release_tarball(job: &str) -> (r: bool)
    ensures
        r == release_tarball_rule(job@),
{
    text::has(job, "./scripts/package-release.sh")
}

/// A manual release has a numeric version, and the job hands on what it worked out.
pub open spec fn release_metadata_rule(job: Seq<char>) -> bool {
    &&& text::contains(job, "version=\"0.0.0.git.${GITHUB_SHA:0:12}\""@)
    &&& text::contains(job, "tag=\"v$version\""@)
    &&& text::contains(job, "version=$version"@)
    &&& text::contains(job, "tag=$tag"@)
    &&& text::contains(job, "prerelease=$prerelease"@)
    &&& text::contains(job, "make_latest=$make_latest"@)
    &&& text::contains(job, "git push origin \"refs/tags/$tag\""@)
    &&& text::contains(job, "prerelease: ${{ steps.metadata.outputs.prerelease }}"@)
    &&& text::contains(job, "make_latest: ${{ steps.metadata.outputs.make_latest }}"@)
    &&& !text::contains(job, "target_commitish"@)
    &&& !text::contains(job, "discussion_category_name"@)
}

pub fn release_metadata(job: &str) -> (r: bool)
    ensures
        r == release_metadata_rule(job@),
{
    text::has(job, "version=\"0.0.0.git.${GITHUB_SHA:0:12}\"")
        && text::has(job, "tag=\"v$version\"")
        && text::has(job, "version=$version")
        && text::has(job, "tag=$tag")
        && text::has(job, "prerelease=$prerelease")
        && text::has(job, "make_latest=$make_latest")
        && text::has(job, "git push origin \"refs/tags/$tag\"")
        && text::has(job, "prerelease: ${{ steps.metadata.outputs.prerelease }}")
        && text::has(job, "make_latest: ${{ steps.metadata.outputs.make_latest }}")
        && !text::has(job, "target_commitish")
        && !text::has(job, "discussion_category_name")
}

/// A tag is looked up with a lookup that fails where the tag is missing.
pub open spec fn release_tag_verification_rule(job: Seq<char>) -> bool {
    &&& text::contains(job, "git rev-parse --verify \"${tag}^{commit}\""@)
}

pub fn release_tag_verification(job: &str) -> (r: bool)
    ensures
        r == release_tag_verification_rule(job@),
{
    text::has(job, "git rev-parse --verify \"${tag}^{commit}\"")
}

/// No job waits for all platforms before it publishes.
pub open spec fn release_without_barrier_rule(workflow: Seq<char>) -> bool {
    &&& !text::contains(workflow, "create-release:"@)
    &&& !text::contains(workflow, "actions/upload-artifact@"@)
    &&& !text::contains(workflow, "actions/download-artifact@"@)
}

pub fn release_without_barrier(workflow: &str) -> (r: bool)
    ensures
        r == release_without_barrier_rule(workflow@),
{
    !text::has(workflow, "create-release:")
        && !text::has(workflow, "actions/upload-artifact@")
        && !text::has(workflow, "actions/download-artifact@")
}

/// The job uploads to the release as soon as it is prepared.
pub open spec fn release_upload_rule(job: Seq<char>) -> bool {
    &&& text::contains(job, "needs: prepare-release"@)
    &&& text::contains(job, "softprops/action-gh-release@"@)
    &&& text::contains(job, "tag_name: ${{ needs.prepare-release.outputs.tag }}"@)
}

pub fn release_upload(job: &str) -> (r: bool)
    ensures
        r == release_upload_rule(job@),
{
    text::has(job, "needs: prepare-release")
        && text::has(job, "softprops/action-gh-release@")
        && text::has(job, "tag_name: ${{ needs.prepare-release.outputs.tag }}")
}

/// The Doom installation runs against the shared runtime.
pub open spec fn doom_install_rule(job: Seq<char>) -> bool {
    &&& text::contains(job, "needs: neomacs-test-runtime"@)
    &&& text::contains(job, "- *download_test_runtime"@)
    &&& text::contains(job, "- *unpack_test_runtime"@)
    &&& text::contains(job, "NEOMACS_BIN: ${{ github.workspace }}/target/release/neomacs"@)
    &&& text::contains(job, "run: ./scripts/test-doom-install.sh"@)
}

pub fn doom_install(job: &str) -> (r: bool)
    ensures
        r == doom_install_rule(job@),
{
    text::has(job, "needs: neomacs-test-runtime")
        && text::has(job, "- *download_test_runtime")
        && text::has(job, "- *unpack_test_runtime")
        && text::has(job, "NEOMACS_BIN: ${{ github.workspace }}/target/release/neomacs")
        && text::has(job, "run: ./scripts/test-doom-install.sh")
}

/// Every workflow is linted.
pub open spec fn workflow_lint_rule(job: Seq<char>) -> bool {
    &&& text::contains(job, "github.event_name != 'schedule'"@)
    &&& text::contains(job, "github.com/rhysd/actionlint/cmd/actionlint@v1.7.12"@)
    &&& text::contains(job, ".github/workflows/*.yml"@)
}

pub fn workflow_lint(job: &str) -> (r: bool)
    ensures
        r == workflow_lint_rule(job@),
{
    text::has(job, "github.event_name != 'schedule'")
        && text::has(job, "github.com/rhysd/actionlint/cmd/actionlint@v1.7.12")
        && text::has(job, ".github/workflows/*.yml")
}

/// The Rust set-up takes its toolchain from the workspace and brings the test
/// runner.
pub open spec fn rust_setup_rule(action: Seq<char>) -> bool {
    &&& text::contains(action, "cache-key:"@)
    &&& text::contains(action, "hashFiles('scripts/ci/setup-linux.sh'"@)
    &&& text::contains(action, "install-nextest:"@)
    &&& text::contains(action, "actions-rust-lang/setup-rust-toolchain@"@)
    &&& text::contains(action, "rustflags: \"\""@)
    &&& text::contains(action, "taiki-e/install-action@"@)
    &&& text::contains(action, "tool: cargo-nextest"@)
    &&& !text::contains(action, "toolchain:"@)
}

pub fn rust_setup(action: &str) -> (r: bool)
    ensures
        r == rust_setup_rule(action@),
{
    text::has(action, "cache-key:")
        && text::has(action, "hashFiles('scripts/ci/setup-linux.sh'")
        && text::has(action, "install-nextest:")
        && text::has(action, "actions-rust-lang/setup-rust-toolchain@")
        && text::has(action, "rustflags: \"\"")
        && text::has(action, "taiki-e/install-action@")
        && text::has(action, "tool: cargo-nextest")
        && !text::has(action, "toolchain:")
}

/// The actions are updated by themselves.
pub open spec fn automated_updates_rule(dependabot: Seq<char>) -> bool {
    &&& text::contains(dependabot, "package-ecosystem: github-actions"@)
    &&& text::contains(dependabot, "directory: /"@)
}

pub fn automated_updates(dependabot: &str) -> (r: bool)
    ensures
        r == automated_updates_rule(dependabot@),
{
    text::has(dependabot, "package-ecosystem: github-actions")
        && text::has(dependabot, "directory: /")
}

/// The fork is rebased on its upstream twice a day.
pub open spec fn fork_sync_rule(workflow: Seq<char>) -> bool {
    &&& text::contains(workflow, "cron: \"0 */12 * * *\""@)
    &&& text::contains(workflow, "upstream_repo: eval-exec/neomacs"@)
    &&& text::contains(workflow, "upstream_branch: main"@)
    &&& text::contains(workflow, "origin_branch: main"@)
    &&& text::contains(workflow, "git rebase --autosquash --autostash upstream/$upstream_branch"@)
    &&& text::contains(workflow, "git push origin -f HEAD:$origin_branch"@)
}

pub fn fork_sync(workflow: &str) -> (r: bool)
    ensures
        r == fork_sync_rule(workflow@),
{
    text::has(workflow, "cron: \"0 */12 * * *\"")
        && text::has(workflow, "upstream_repo: eval-exec/neomacs")
        && text::has(workflow, "upstream_branch: main")
        && text::has(workflow, "origin_branch: main")
        && text::has(workflow, "git rebase --autosquash --autostash upstream/$upstream_branch")
        && text::has(workflow, "git push origin -f HEAD:$origin_branch")
}

/// One reusable workflow runs the shards of either suite, and decodes the suite in
/// one place.
pub open spec fn shard_workflow_rule(reusable: Seq<char>) -> bool {
    &&& text::contains(reusable, "workflow_call:"@)
    &&& text::contains(reusable, "suite:"@)
    &&& text::contains(reusable, "core|oracle"@)
    &&& text::contains(reusable, "package(neovm-core)"@)
    &&& text::contains(reusable, "package(neovm-oracle-tests)"@)
    &&& text::contains(reusable, "--partition slice:${{ matrix.partition }}/20"@)
    &&& match_count(reusable, "case \"$SHARD_SUITE\" in"@) == 1
}

pub fn shard_workflow(reusable: &str) -> (r: bool)
    ensures
        r == shard_workflow_rule(reusable@),
{
    proof {
        reveal_strlit("case \"$SHARD_SUITE\" in");
    }
    text::has(reusable, "workflow_call:")
        && text::has(reusable, "suite:")
        && text::has(reusable, "core|oracle")
        && text::has(reusable, "package(neovm-core)")
        && text::has(reusable, "package(neovm-oracle-tests)")
        && text::has(reusable, "--partition slice:${{ matrix.partition }}/20")
        && matches_of(reusable, "case \"$SHARD_SUITE\" in") == 1
}

/// The core suite runs in the reusable workflow.
pub open spec fn core_shards_rule(job: Seq<char>) -> bool {
    &&& text::contains(job, "needs: [neomacs-test-runtime, neomacs-workspace-test-archive]"@)
    &&& text::contains(job, "uses: ./.github/workflows/nextest-shards.yml"@)
    &&& text::contains(job, "suite: core"@)
}

pub fn core_shards(job: &str) -> (r: bool)
    ensures
        r == core_shards_rule(job@),
{
    text::has(job, "needs: [neomacs-test-runtime, neomacs-workspace-test-archive]")
        && text::has(job, "uses: ./.github/workflows/nextest-shards.yml")
        && text::has(job, "suite: core")
}

/// The oracle suite runs in the reusable workflow.
pub open spec fn oracle_shards_rule(job: Seq<char>) -> bool {
    &&& text::contains(job, "needs: [neomacs-test-runtime, neomacs-workspace-test-archive]"@)
    &&& text::contains(job, "uses: ./.github/workflows/nextest-shards.yml"@)
    &&& text::contains(job, "suite: oracle"@)
}

pub fn oracle_shards(job: &str) -> (r: bool)
    ensures
        r == oracle_shards_rule(job@),
{
    text::has(job, "needs: [neomacs-test-runtime, neomacs-workspace-test-archive]")
        && text::has(job, "uses: ./.github/workflows/nextest-shards.yml")
        && text::has(job, "suite: oracle")
}

/// Package parity runs offline, from the shared artifacts, in all three front ends.
pub open spec fn melpa_parity_rule(job: Seq<char>) -> bool {
    &&& text::contains(job, "needs: [neomacs-test-runtime, neomacs-workspace-test-archive]"@)
    &&& text::contains(job, "name: neomacs-test-runtime-linux-x86_64"@)
    &&& text::contains(job, "tar xzf neomacs-test-runtime-linux-x86_64.tar.gz"@)
    &&& text::contains(job, "name: neomacs-workspace-tests-nextest-archive-linux-x86_64"@)
    &&& text::contains(job, "NEOMACS_BIN: ${{ github.workspace }}/target/release/neomacs"@)
    &&& text::contains(job, "NEOMACS_MELPA_ORACLE_EMACS: /usr/bin/emacs"@)
    &&& text::contains(job, "run: scripts/ci/setup-linux.sh ecosystem"@)
    &&& text::contains(job, "suite: batch"@)
    &&& text::contains(job, "suite: tui"@)
    &&& text::contains(job, "suite: gui"@)
    &&& text::contains(job, "--skip tui_parity_tests:: --skip gui_parity_tests::"@)
    &&& text::contains(job, "libtest_args: \"tui_parity_tests::\""@)
    &&& text::contains(job, "libtest_args: \"gui_parity_tests::\""@)
    &&& text::contains(job, "-E 'package(neomacs-melpa-tests)'"@)
    &&& text::contains(job, "-- $LIBTEST_ARGS"@)
    &&& text::contains(job, "--success-output immediate"@)
    &&& !text::contains(job, "if: ${{ false }}"@)
}

pub fn melpa_parity(job: &str) -> (r: bool)
    ensures
        r == melpa_parity_rule(job@),
{
    text::has(job, "needs: [neomacs-test-runtime, neomacs-workspace-test-archive]")
        && text::has(job, "name: neomacs-test-runtime-linux-x86_64")
        && text::has(job, "tar xzf neomacs-test-runtime-linux-x86_64.tar.gz")
        && text::has(job, "name: neomacs-workspace-tests-nextest-archive-linux-x86_64")
        && text::has(job, "NEOMACS_BIN: ${{ github.workspace }}/target/release/neomacs")
        && text::has(job, "NEOMACS_MELPA_ORACLE_EMACS: /usr/bin/emacs")
        && text::has(job, "run: scripts/ci/setup-linux.sh ecosystem")
        && text::has(job, "suite: batch")
        && text::has(job, "suite: tui")
        && text::has(job, "suite: gui")
        && text::has(job, "--skip tui_parity_tests:: --skip gui_parity_tests::")
        && text::has(job, "libtest_args: \"tui_parity_tests::\"")
        && text::has(job, "libtest_args: \"gui_parity_tests::\"")
        && text::has(job, "-E 'package(neomacs-melpa-tests)'")
        && text::has(job, "-- $LIBTEST_ARGS")
        && text::has(job, "--success-output immediate")
        && !text::has(job, "if: ${{ false }}")
}

/// The display packages are tested from the shared archive.
pub open spec fn display_stack_rule(job: Seq<char>) -> bool {
    &&& text::contains(job, "needs: neomacs-workspace-test-archive"@)
    &&& text::contains(job, "package(neomacs-display-protocol)"@)
    &&& text::contains(job, "package(neomacs-display-runtime)"@)
    &&& text::contains(job, "package(neomacs-layout-engine)"@)
    &&& text::contains(job, "package(neomacs-renderer-wgpu)"@)
    &&& text::contains(job, "-E \"$NEXTEST_FILTER\""@)
    &&& text::contains(job, "protocol)|package(neomacs-display-runtime)"@)
}

pub fn display_stack(job: &str) -> (r: bool)
    ensures
        r == display_stack_rule(job@),
{
    text::has(job, "needs: neomacs-workspace-test-archive")
        && text::has(job, "package(neomacs-display-protocol)")
        && text::has(job, "package(neomacs-display-runtime)")
        && text::has(job, "package(neomacs-layout-engine)")
        && text::has(job, "package(neomacs-renderer-wgpu)")
        && text::has(job, "-E \"$NEXTEST_FILTER\"")
        && text::has(job, "protocol)|package(neomacs-display-runtime)")
}

/// The graphical tests run on a real display server.
pub open spec fn gui_tests_rule(job: Seq<char>) -> bool {
    &&& text::contains(job, "needs: [neomacs-test-runtime, neomacs-workspace-test-archive]"@)
    &&& text::contains(job, "NEOMACS_GUI_TEST_BACKEND: x11"@)
    &&& text::contains(job, "NEOMACS_GUI_TEST_GNU_EMACS: /usr/bin/emacs"@)
    &&& text::contains(job, "package(neomacs-gui-tests)"@)
}

pub fn gui_tests(job: &str) -> (r: bool)
    ensures
        r == gui_tests_rule(job@),
{
    text::has(job, "needs: [neomacs-test-runtime, neomacs-workspace-test-archive]")
        && text::has(job, "NEOMACS_GUI_TEST_BACKEND: x11")
        && text::has(job, "NEOMACS_GUI_TEST_GNU_EMACS: /usr/bin/emacs")
        && text::has(job, "package(neomacs-gui-tests)")
}

/// The live archive is reached only on a schedule or on demand.
pub open spec fn melpa_canary_rule(job: Seq<char>) -> bool {
    &&& text::contains(job, "needs: [neomacs-test-runtime, neomacs-workspace-test-archive]"@)
    &&& text::contains(job, "github.event_name == 'schedule'"@)
    &&& text::contains(job, "github.event_name == 'workflow_dispatch'"@)
    &&& text::contains(job, "- *download_test_runtime"@)
    &&& text::contains(job, "- *unpack_test_runtime"@)
    &&& text::contains(job, "- *download_workspace_test_archive"@)
    &&& text::contains(job, "--run-ignored only"@)
    &&& text::contains(job, "test(=live_melpa_ecosystem_installs_and_survives_restart)"@)
    &&& text::contains(job, "--success-output immediate"@)
}

pub fn melpa_canary(job: &str) -> (r: bool)
    ensures
        r == melpa_canary_rule(job@),
{
    text::has(job, "needs: [neomacs-test-runtime, neomacs-workspace-test-archive]")
        && text::has(job, "github.event_name == 'schedule'")
        && text::has(job, "github.event_name == 'workflow_dispatch'")
        && text::has(job, "- *download_test_runtime")
        && text::has(job, "- *unpack_test_runtime")
        && text::has(job, "- *download_workspace_test_archive")
        && text::has(job, "--run-ignored only")
        && text::has(job, "test(=live_melpa_ecosystem_installs_and_survives_restart)")
        && text::has(job, "--success-output immediate")
}

/// The workflow runs on a schedule.
pub open spec fn scheduled_runs_rule(workflow: Seq<char>) -> bool {
    &&& text::contains(workflow, "schedule:"@)
}

pub fn scheduled_runs(workflow: &str) -> (r: bool)
    ensures
        r == scheduled_runs_rule(workflow@),
{
    text::has(workflow, "schedule:")
}

/// The package tests take all test threads, so no two run at once.
pub open spec fn melpa_serialization_rule(nextest: Seq<char>) -> bool {
    &&& text::contains(nextest, "filter = 'package(neomacs-melpa-tests)'"@)
    &&& text::contains(nextest, "threads-required = \"num-test-threads\""@)
}

pub fn melpa_serialization(nextest: &str) -> (r: bool)
    ensures
        r == melpa_serialization_rule(nextest@),
{
    text::has(nextest, "filter = 'package(neomacs-melpa-tests)'")
        && text::has(nextest, "threads-required = \"num-test-threads\"")
}

/// The installer does not rewrite the machine's search path.
pub open spec fn installer_path_is_kept_rule(installer: Seq<char>) -> bool {
    &&& !text::contains(installer, "ENVIRONMENT_KEY"@)
    &&& !text::contains(installer, "WriteRegExpandStr"@)
    &&& !text::contains(installer, "AddToSystemPath"@)
    &&& !text::contains(installer, "RemoveFromSystemPath"@)
    &&& !text::contains(installer, "AddedToPath"@)
}

pub fn installer_path_is_kept(installer: &str) -> (r: bool)
    ensures
        r == installer_path_is_kept_rule(installer@),
{
    !text::has(installer, "ENVIRONMENT_KEY")
        && !text::has(installer, "WriteRegExpandStr")
        && !text::has(installer, "AddToSystemPath")
        && !text::has(installer, "RemoveFromSystemPath")
        && !text::has(installer, "AddedToPath")
}

/// The installer owns the application paths of both commands.
pub open spec fn installer_app_paths_rule(installer: Seq<char>) -> bool {
    &&& text::contains(installer, "App Paths\\neomacs.exe"@)
    &&& text::contains(installer, "$INSTDIR\\bin\\neomacs.exe"@)
    &&& text::contains(installer, "App Paths\\neomacsclient.exe"@)
    &&& text::contains(installer, "$INSTDIR\\bin\\neomacsclient.exe"@)
    &&& text::contains(installer, "!macro RemoveOwnedAppPath KEY EXECUTABLE"@)
    &&& text::contains(installer, "DeleteRegKey /ifempty HKCU \"${KEY}\""@)
    &&& text::contains(installer, "!insertmacro RemoveOwnedAppPath \"${NEOMACS_APP_PATH_KEY}\" \"neomacs.exe\""@)
    &&& text::contains(installer, "!insertmacro RemoveOwnedAppPath \"${NEOMACSCLIENT_APP_PATH_KEY}\" \"neomacsclient.exe\""@)
}

pub fn installer_app_paths(installer: &str) -> (r: bool)
    ensures
        r == installer_app_paths_rule(installer@),
{
    text::has(installer, "App Paths\\neomacs.exe")
        && text::has(installer, "$INSTDIR\\bin\\neomacs.exe")
        && text::has(installer, "App Paths\\neomacsclient.exe")
        && text::has(installer, "$INSTDIR\\bin\\neomacsclient.exe")
        && text::has(installer, "!macro RemoveOwnedAppPath KEY EXECUTABLE")
        && text::has(installer, "DeleteRegKey /ifempty HKCU \"${KEY}\"")
        && text::has(installer, "!insertmacro RemoveOwnedAppPath \"${NEOMACS_APP_PATH_KEY}\" \"neomacs.exe\"")
        && text::has(installer, "!insertmacro RemoveOwnedAppPath \"${NEOMACSCLIENT_APP_PATH_KEY}\" \"neomacsclient.exe\"")
}

/// The installer publishes all that the system shows of an installed program.
pub open spec fn installer_uninstall_metadata_rule(installer: Seq<char>) -> bool {
    &&& text::contains(installer, "\"DisplayName\""@)
    &&& text::contains(installer, "\"DisplayVersion\""@)
    &&& text::contains(installer, "\"Publisher\""@)
    &&& text::contains(installer, "\"URLInfoAbout\""@)
    &&& text::contains(installer, "\"InstallLocation\""@)
    &&& text::contains(installer, "\"DisplayIcon\""@)
    &&& text::contains(installer, "\"UninstallString\""@)
    &&& text::contains(installer, "\"QuietUninstallString\""@)
    &&& text::contains(installer, "\"EstimatedSize\""@)
    &&& text::contains(installer, "\"NoModify\""@)
    &&& text::contains(installer, "\"NoRepair\""@)
    &&& text::contains(installer, "!define PRODUCT_REGISTRATION_NAME \"${PRODUCT_NAME} (User)\""@)
    &&& text::contains(installer, "'\"$INSTDIR\\uninstall.exe\"'"@)
}

pub fn installer_uninstall_metadata(installer: &str) -> (r: bool)
    ensures
        r == installer_uninstall_metadata_rule(installer@),
{
    text::has(installer, "\"DisplayName\"")
        && text::has(installer, "\"DisplayVersion\"")
        && text::has(installer, "\"Publisher\"")
        && text::has(installer, "\"URLInfoAbout\"")
        && text::has(installer, "\"InstallLocation\"")
        && text::has(installer, "\"DisplayIcon\"")
        && text::has(installer, "\"UninstallString\"")
        && text::has(installer, "\"QuietUninstallString\"")
        && text::has(installer, "\"EstimatedSize\"")
        && text::has(installer, "\"NoModify\"")
        && text::has(installer, "\"NoRepair\"")
        && text::has(installer, "!define PRODUCT_REGISTRATION_NAME \"${PRODUCT_NAME} (User)\"")
        && text::has(installer, "'\"$INSTDIR\\uninstall.exe\"'")
}

/// The installer owns the shortcuts of the current user, and sets that scope in the
/// installer and in the uninstaller.
pub open spec fn installer_shortcuts_rule(installer: Seq<char>) -> bool {
    &&& text::contains(installer, "CreateShortcut \"$SMPROGRAMS\\${PRODUCT_NAME}\\${PRODUCT_NAME}.lnk\" \"$INSTDIR\\bin\\neomacs.exe\""@)
    &&& text::contains(installer, "CreateShortcut \"$SMPROGRAMS\\${PRODUCT_NAME}\\Uninstall ${PRODUCT_NAME}.lnk\" \"$INSTDIR\\uninstall.exe\""@)
    &&& text::contains(installer, "Delete \"$SMPROGRAMS\\${PRODUCT_NAME}\\${PRODUCT_NAME}.lnk\""@)
    &&& text::contains(installer, "Delete \"$SMPROGRAMS\\${PRODUCT_NAME}\\Uninstall ${PRODUCT_NAME}.lnk\""@)
    &&& text::contains(installer, "Function un.onInit"@)
    &&& match_count(installer, "SetShellVarContext current"@) == 2
}

pub fn installer_shortcuts(installer: &str) -> (r: bool)
    ensures
        r == installer_shortcuts_rule(installer@),
{
    proof {
        reveal_strlit("SetShellVarContext current");
    }
    text::has(installer, "CreateShortcut \"$SMPROGRAMS\\${PRODUCT_NAME}\\${PRODUCT_NAME}.lnk\" \"$INSTDIR\\bin\\neomacs.exe\"")
        && text::has(installer, "CreateShortcut \"$SMPROGRAMS\\${PRODUCT_NAME}\\Uninstall ${PRODUCT_NAME}.lnk\" \"$INSTDIR\\uninstall.exe\"")
        && text::has(installer, "Delete \"$SMPROGRAMS\\${PRODUCT_NAME}\\${PRODUCT_NAME}.lnk\"")
        && text::has(installer, "Delete \"$SMPROGRAMS\\${PRODUCT_NAME}\\Uninstall ${PRODUCT_NAME}.lnk\"")
        && text::has(installer, "Function un.onInit")
        && matches_of(installer, "SetShellVarContext current") == 2
}

/// The line reads or writes what is registered for the whole machine.
pub open spec fn touches_machine(line: Seq<char>) -> bool {
    let t = text::trimmed_start(line);
    ||| text::starts_with(t, "ReadRegStr HKLM"@)
    ||| text::starts_with(t, "WriteRegStr HKLM"@)
    ||| text::starts_with(t, "WriteRegDWORD HKLM"@)
    ||| text::starts_with(t, "DeleteRegKey HKLM"@)
}

/// The installer needs no administrator: it asks for none, installs for the user,
/// and leaves the machine's registration alone.
pub open spec fn installer_user_scope_rule(installer: Seq<char>) -> bool {
    &&& text::contains(installer, "RequestExecutionLevel user"@)
    &&& text::contains(installer, "InstallDir \"$LOCALAPPDATA\\Programs\\${PRODUCT_NAME}\""@)
    &&& text::contains(installer, "SetShellVarContext current"@)
    &&& forall|i: int|
        0 <= i < text::lines_of(installer).len() ==> !touches_machine(
            #[trigger] text::lines_of(installer)[i],
        )
}

fn machine_line(line: &str) -> (r: bool)
    ensures
        r == touches_machine(line@),
{
    let v: Vec<char> = text::chars_of(line);
    let t: String = text::string_of(text::trim_start(v.as_slice()));
    text::begins_with(t.as_str(), "ReadRegStr HKLM")
        || text::begins_with(t.as_str(), "WriteRegStr HKLM")
        || text::begins_with(t.as_str(), "WriteRegDWORD HKLM")
        || text::begins_with(t.as_str(), "DeleteRegKey HKLM")
}

pub fn installer_user_scope(installer: &str) -> (r: bool)
    ensures
        r == installer_user_scope_rule(installer@),
{
    let lines: Vec<String> = text::lines(installer);
    let mut i: usize = 0;
    assert(text::texts(lines@).len() == lines@.len());
    while i < lines.len()
        invariant
            i <= lines.len(),
            text::texts(lines@) == text::lines_of(installer@),
            text::texts(lines@).len() == lines@.len(),
            forall|j: int|
                0 <= j < i ==> !touches_machine(#[trigger] text::lines_of(installer@)[j]),
        decreases lines.len() - i,
    {
        assert(text::texts(lines@)[i as int] == lines@[i as int]@);
        if machine_line(lines[i].as_str()) {
            assert(touches_machine(text::lines_of(installer@)[i as int]));
            return false;
        }
        i += 1;
    }
    text::has(installer, "RequestExecutionLevel user")
        && text::has(installer, "InstallDir \"$LOCALAPPDATA\\Programs\\${PRODUCT_NAME}\"")
        && text::has(installer, "SetShellVarContext current")
}

/// What stands between the first `open` and the first `close` behind it.
pub open spec fn between(s: Seq<char>, open: Seq<char>, close: Seq<char>) -> Option<Seq<char>> {
    match after(s, open) {
        Some(rest) => before(rest, close),
        None => None,
    }
}

pub fn section(s: &str, open: &str, close: &str) -> (r: Option<String>)
    ensures
        match r {
            Some(body) => between(s@, open@, close@) == Some(body@),
            None => between(s@, open@, close@) is None,
        },
{
    match split_once(s, open) {
        None => None,
        Some(parts) => match split_once(parts.1.as_str(), close) {
            None => None,
            Some(inner) => Some(inner.0),
        },
    }
}

/// The first of the lines that is not blank, trimmed.
pub open spec fn first_instruction(lines: Seq<Seq<char>>) -> Option<Seq<char>>
    decreases lines.len(),
{
    if lines.len() == 0 {
        None
    } else if text::trimmed(lines[0]).len() > 0 {
        Some(text::trimmed(lines[0]))
    } else {
        first_instruction(lines.subrange(1, lines.len() as int))
    }
}

pub fn instruction_of(body: &str) -> (r: Option<String>)
    ensures
        match r {
            Some(line) => first_instruction(text::lines_of(body@)) == Some(line@),
            None => first_instruction(text::lines_of(body@)) is None,
        },
{
    let lines: Vec<String> = text::lines(body);
    let ghost all = text::lines_of(body@);
    let mut i: usize = 0;
    proof {
        assert(text::texts(lines@).len() == lines@.len());
        assert(all.subrange(0, all.len() as int) =~= all);
    }
    while i < lines.len()
        invariant
            i <= lines.len(),
            text::texts(lines@) == all,
            all.len() == lines@.len(),
            all == text::lines_of(body@),
            first_instruction(all) == first_instruction(all.subrange(i as int, all.len() as int)),
        decreases lines.len() - i,
    {
        let v: Vec<char> = text::chars_of(lines[i].as_str());
        let t: &[char] = text::trim(v.as_slice());
        proof {
            let rest = all.subrange(i as int, all.len() as int);
            assert(text::texts(lines@)[i as int] == lines@[i as int]@);
            assert(rest[0] == all[i as int]);
            assert(rest.subrange(1, rest.len() as int) =~= all.subrange(i + 1, all.len() as int));
        }
        if t.len() > 0 {
            assert(first_instruction(all.subrange(i as int, all.len() as int)) == Some(t@));
            return Some(text::string_of(t));
        }
        i += 1;
    }
    None
}

/// The installer removes what it installed before as the first step of the
/// installation, and not already when it is opened.
pub open spec fn installer_replacement_rule(installer: Seq<char>) -> bool {
    &&& text::contains(installer, "Function RemovePreviousUserInstallation"@)
    &&& text::contains(installer, "ExecWait '\"$R0\\uninstall.exe\" /S _?=$R0' $R1"@)
    &&& match between(installer, "Function .onInit"@, "FunctionEnd"@) {
        Some(body) => !text::contains(body, "Call RemovePreviousUserInstallation"@),
        None => false,
    }
    &&& match between(installer, "Section \"!${PRODUCT_NAME}\" SEC_MAIN"@, "SectionEnd"@) {
        Some(body) => first_instruction(text::lines_of(body)) == Some(
            "Call RemovePreviousUserInstallation"@,
        ),
        None => false,
    }
}

pub fn installer_replacement(installer: &str) -> (r: bool)
    ensures
        r == installer_replacement_rule(installer@),
{
    let initialization: Option<String> = section(installer, "Function .onInit", "FunctionEnd");
    let untouched: bool = match initialization {
        Some(body) => !text::has(body.as_str(), "Call RemovePreviousUserInstallation"),
        None => false,
    };
    let main: Option<String> = section(installer, "Section \"!${PRODUCT_NAME}\" SEC_MAIN", "SectionEnd");
    let first: bool = match main {
        Some(body) => match instruction_of(body.as_str()) {
            Some(line) => text::same(line.as_str(), "Call RemovePreviousUserInstallation"),
            None => false,
        },
        None => false,
    };
    text::has(installer, "Function RemovePreviousUserInstallation")
        && text::has(installer, "ExecWait '\"$R0\\uninstall.exe\" /S _?=$R0' $R1")
        && untouched
        && first
}

/// The Cranelift crates are updated as one group, the first of the groups.
pub open spec fn cranelift_group_rule(config: Seq<char>) -> bool {
    match after(config, "\n    groups:\n"@) {
        Some(groups) => text::starts_with(groups, "      cranelift:\n"@) && text::contains(
            groups,
            "\n          - \"cranelift-*\"\n"@,
        ),
        None => false,
    }
}

pub fn cranelift_group(config: &str) -> (r: bool)
    ensures
        r == cranelift_group_rule(config@),
{
    match split_once(config, "\n    groups:\n") {
        None => false,
        Some(parts) => text::begins_with(parts.1.as_str(), "      cranelift:\n") && text::has(
            parts.1.as_str(),
            "\n          - \"cranelift-*\"\n",
        ),
    }
}

/// The trimmed lines that declare a Cranelift crate.
pub open spec fn cranelift_lines(lines: Seq<Seq<char>>) -> Seq<Seq<char>>
    decreases lines.len(),
{
    if lines.len() == 0 {
        Seq::empty()
    } else {
        let earlier = cranelift_lines(lines.drop_last());
        let t = text::trimmed(lines.last());
        if text::starts_with(t, "cranelift-"@) {
            earlier.push(t)
        } else {
            earlier
        }
    }
}

pub fn cranelift_declarations(manifest: &str) -> (r: Vec<String>)
    ensures
        text::texts(r@) == cranelift_lines(text::lines_of(manifest@)),
{
    let lines: Vec<String> = text::lines(manifest);
    let ghost all = text::lines_of(manifest@);
    let mut out: Vec<String> = Vec::new();
    let mut i: usize = 0;
    let lead: Vec<char> = text::chars_of("cranelift-");
    proof {
        assert(text::texts(lines@).len() == lines@.len());
        assert(text::texts(out@) =~= cranelift_lines(all.subrange(0, 0)));
    }
    while i < lines.len()
        invariant
            i <= lines.len(),
            lead@ == "cranelift-"@,
            text::texts(lines@) == all,
            all.len() == lines@.len(),
            text::texts(out@) == cranelift_lines(all.subrange(0, i as int)),
        decreases lines.len() - i,
    {
        let v: Vec<char> = text::chars_of(lines[i].as_str());
        let t: &[char] = text::trim(v.as_slice());
        proof {
            assert(text::texts(lines@)[i as int] == lines@[i as int]@);
            assert(all.subrange(0, i + 1).drop_last() =~= all.subrange(0, i as int));
            assert(all.subrange(0, i + 1).last() == all[i as int]);
        }
        if text::begins(t, lead.as_slice()) {
            let kept: String = text::string_of(t);
            proof {
                text::lemma_texts_push(out@, kept);
            }
            out.push(kept);
        }
        i += 1;
    }
    proof {
        assert(all.subrange(0, all.len() as int) =~= all);
    }
    out
}

/// The text up to the first quote.
pub open spec fn up_to_quote(s: Seq<char>) -> Seq<char> {
    s.subrange(0, text::index_of_char(s, '"'))
}

/// The version that a declaration asks for: the requirement itself where it is a
/// quoted text, else the one behind `version = `.
pub open spec fn declared_version(line: Seq<char>) -> Option<Seq<char>> {
    match after(line, " = "@) {
        None => None,
        Some(requirement) => if text::starts_with(requirement, "\""@) {
            Some(up_to_quote(requirement.subrange("\""@.len() as int, requirement.len() as int)))
        } else {
            match after(requirement, "version = \""@) {
                Some(tail) => Some(up_to_quote(tail)),
                None => None,
            }
        },
    }
}

fn quoted(s: &[char]) -> (r: String)
    ensures
        r@ == up_to_quote(s@),
{
    proof {
        text::lemma_index_nonneg(s@, '"');
    }
    let n: usize = text::char_index(s, '"');
    text::string_of(vstd::slice::slice_subrange(s, 0, n))
}

pub fn version_of(line: &str) -> (r: Option<String>)
    ensures
        match r {
            Some(version) => declared_version(line@) == Some(version@),
            None => declared_version(line@) is None,
        },
{
    match split_once(line, " = ") {
        None => None,
        Some(parts) => {
            let requirement: Vec<char> = text::chars_of(parts.1.as_str());
            let quote: Vec<char> = text::chars_of("\"");
            if text::begins(requirement.as_slice(), quote.as_slice()) {
                let tail: &[char] = vstd::slice::slice_subrange(
                    requirement.as_slice(),
                    quote.len(),
                    requirement.len(),
                );
                return Some(quoted(tail));
            }
            match split_once(parts.1.as_str(), "version = \"") {
                Some(inner) => {
                    let tail: Vec<char> = text::chars_of(inner.1.as_str());
                    Some(quoted(tail.as_slice()))
                },
                None => None,
            }
        },
    }
}

/// The version without its last component.
pub open spec fn release_line(version: Seq<char>) -> Option<Seq<char>>
    decreases version.len(),
{
    if version.len() == 0 {
        None
    } else if version.last() == '.' {
        Some(version.drop_last())
    } else {
        release_line(version.drop_last())
    }
}

pub fn release_line_of(version: &str) -> (r: Option<String>)
    ensures
        match r {
            Some(line) => release_line(version@) == Some(line@),
            None => release_line(version@) is None,
        },
{
    let v: Vec<char> = text::chars_of(version);
    let mut n: usize = v.len();
    proof {
        assert(v@.subrange(0, n as int) =~= v@);
    }
    while n > 0
        invariant
            n <= v.len(),
            v@ == version@,
            release_line(version@) == release_line(v@.subrange(0, n as int)),
        decreases n,
    {
        proof {
            assert(v@.subrange(0, n as int).drop_last() =~= v@.subrange(0, n - 1));
        }
        if v[n - 1] == '.' {
            return Some(
                text::string_of(vstd::slice::slice_subrange(v.as_slice(), 0, n - 1)),
            );
        }
        n -= 1;
    }
    None
}

/// The release line that a declaration is on.
pub open spec fn line_of_declaration(line: Seq<char>) -> Option<Seq<char>> {
    match declared_version(line) {
        Some(version) => release_line(version),
        None => None,
    }
}

/// How many Cranelift crates there are.
pub const CRANELIFT_CRATES: usize = 6;

/// The workspace declares every Cranelift crate, all on one release line.
pub open spec fn cranelift_workspace_rule(manifest: Seq<char>) -> bool {
    let lines = cranelift_lines(text::lines_of(manifest));
    &&& lines.len() == CRANELIFT_CRATES
    &&& line_of_declaration(lines[0]) is Some
    &&& forall|i: int|
        0 <= i < lines.len() ==> line_of_declaration(#[trigger] lines[i]) == line_of_declaration(
            lines[0],
        )
}

fn declaration_line(line: &str) -> (r: Option<String>)
    ensures
        match r {
            Some(found) => line_of_declaration(line@) == Some(found@),
            None => line_of_declaration(line@) is None,
        },
{
    match version_of(line) {
        Some(version) => release_line_of(version.as_str()),
        None => None,
    }
}

pub fn cranelift_workspace(manifest: &str) -> (r: bool)
    ensures
        r == cranelift_workspace_rule(manifest@),
{
    let declared: Vec<String> = cranelift_declarations(manifest);
    let ghost lines = cranelift_lines(text::lines_of(manifest@));
    assert(text::texts(declared@).len() == declared@.len());
    if declared.len() != CRANELIFT_CRATES {
        return false;
    }
    assert(text::texts(declared@)[0] == declared@[0]@);
    let expected: String = match declaration_line(declared[0].as_str()) {
        Some(line) => line,
        None => {
            return false;
        },
    };
    let mut i: usize = 1;
    while i < declared.len()
        invariant
            1 <= i <= declared.len(),
            text::texts(declared@) == lines,
            lines.len() == declared@.len(),
            line_of_declaration(lines[0]) == Some(expected@),
            forall|j: int|
                0 <= j < i ==> line_of_declaration(#[trigger] lines[j]) == line_of_declaration(
                    lines[0],
                ),
            lines == cranelift_lines(text::lines_of(manifest@)),
        decreases declared.len() - i,
    {
        assert(text::texts(declared@)[i as int] == declared@[i as int]@);
        let same: bool = match declaration_line(declared[i].as_str()) {
            Some(line) => text::same(line.as_str(), expected.as_str()),
            None => false,
        };
        if !same {
            assert(line_of_declaration(lines[i as int]) != line_of_declaration(lines[0]));
            return false;
        }
        i += 1;
    }
    true
}

/// The declaration takes its version from the workspace and is optional.
pub open spec fn is_workspace_owned(line: Seq<char>) -> bool {
    text::contains(line, "workspace = true"@) && text::contains(line, "optional = true"@)
}

/// The crate declares every Cranelift crate, each owned by the workspace.
pub open spec fn cranelift_consumer_rule(manifest: Seq<char>) -> bool {
    let lines = cranelift_lines(text::lines_of(manifest));
    &&& lines.len() == CRANELIFT_CRATES
    &&& forall|i: int| 0 <= i < lines.len() ==> is_workspace_owned(#[trigger] lines[i])
}

pub fn cranelift_consumer(manifest: &str) -> (r: bool)
    ensures
        r == cranelift_consumer_rule(manifest@),
{
    let declared: Vec<String> = cranelift_declarations(manifest);
    let ghost lines = cranelift_lines(text::lines_of(manifest@));
    assert(text::texts(declared@).len() == declared@.len());
    if declared.len() != CRANELIFT_CRATES {
        return false;
    }
    let mut i: usize = 0;
    while i < declared.len()
        invariant
            i <= declared.len(),
            text::texts(declared@) == lines,
            lines.len() == declared@.len(),
            forall|j: int| 0 <= j < i ==> is_workspace_owned(#[trigger] lines[j]),
            lines == cranelift_lines(text::lines_of(manifest@)),
        decreases declared.len() - i,
    {
        assert(text::texts(declared@)[i as int] == declared@[i as int]@);
        let line: &str = declared[i].as_str();
        if !(text::has(line, "workspace = true") && text::has(line, "optional = true")) {
            assert(!is_workspace_owned(lines[i as int]));
            return false;
        }
        i += 1;
    }
    true
}

} // verus!
