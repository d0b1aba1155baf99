//! What walking a Lisp tree is for: what belongs is found, all of it, in order, and nothing
//! else.
use vstd::prelude::*;

use crate::build_laws;
use crate::disk;
use crate::disk::Disk;
use crate::lisp_tree;
use crate::lisp_tree::{DirListing, DirScan, SubdirsAction, UpdateSubdirsChange};
use crate::paths;
use crate::paths::Collation;
use crate::text;

verus! {

proof fn lemma_sorted_members(v: Seq<Seq<char>>, x: Seq<char>)
    ensures
        paths::in_order(Collation::Path, v).contains(x) <==> v.contains(x),
        paths::in_order(Collation::Text, v).contains(x) <==> v.contains(x),
{
    broadcast use vstd::seq_lib::group_to_multiset_ensures;

    paths::law_in_order(Collation::Path, v);
    paths::law_in_order(Collation::Text, v);
    let (a, b) = (paths::in_order(Collation::Path, v), paths::in_order(Collation::Text, v));
    assert(a.to_multiset().count(x) == v.to_multiset().count(x));
    assert(b.to_multiset().count(x) == v.to_multiset().count(x));
    assert(a.contains(x) <==> a.to_multiset().count(x) > 0);
    assert(b.contains(x) <==> b.to_multiset().count(x) > 0);
    assert(v.contains(x) <==> v.to_multiset().count(x) > 0);
}

/// Compiled files are those with that extension, all of them.
pub proof fn law_compiled_files(files: &Vec<String>, r: Vec<String>, x: Seq<char>)
    requires
        call_ensures(lisp_tree::generated_lisp_bytecode_files, (files,), r),
    ensures
        text::texts(r@).contains(x) <==> text::texts(files@).contains(x) && paths::extension_of(x)
            == Some("elc"@),
{
    let v = text::texts(files@);
    let p = |f: Seq<char>| paths::extension_of(f) == Some("elc"@);
    build_laws::lemma_filtered(v, p);
    lemma_sorted_members(v.filter(p), x);
    if v.contains(x) && p(x) {
        let k = choose|k: int| 0 <= k < v.len() && v[k] == x;
        assert(v.filter(p).contains(v[k]));
    }
}

/// What a path is below the Lisp root.
pub open spec fn is_below(root: Seq<char>, path: Seq<char>, rel: Seq<Seq<char>>) -> bool {
    paths::components_of(path) == paths::components_of(root) + rel
}

proof fn lemma_below(root: Seq<char>, path: Seq<char>, rel: Seq<Seq<char>>)
    requires
        is_below(root, path, rel),
    ensures
        paths::relative_components(root, path) == Some(rel),
{
    let (r, p) = (paths::components_of(root), paths::components_of(path));
    assert(p.subrange(0, r.len() as int) =~= r);
    assert(p.subrange(r.len() as int, p.len() as int) =~= rel);
}

/// The directories that are scanned: none that is obsolete or for terminals, where it is
/// right below the root; for the finder none of the input methods either; and the lists of
/// subdirectories are not kept for those nor for CEDET.
pub proof fn law_scanned_directories(
    scan: DirScan,
    root: &str,
    dirs: &Vec<String>,
    r: Vec<String>,
    d: Seq<char>,
    rel: Seq<Seq<char>>,
)
    requires
        call_ensures(lisp_tree::lisp_dirs_matching_gnu_subdirs, (scan, root, dirs), r),
        text::texts(dirs@).contains(d),
        is_below(root@, d, rel),
    ensures
        scan is Loaddefs || scan is CustomDependencies ==> (text::texts(r@).contains(d) <==> rel
            != seq!["obsolete"@] && rel != seq!["term"@]),
        scan is FinderData ==> (text::texts(r@).contains(d) <==> rel != seq!["obsolete"@] && rel
            != seq!["term"@] && !(rel.len() > 0 && rel[0] == "leim"@)),
        scan is SubdirsUpdate ==> (text::texts(r@).contains(d) <==> !(rel.len() > 0 && (
        text::starts_with(rel[0], "cedet"@) || text::starts_with(rel[0], "leim"@)))),
{
    let v = text::texts(dirs@);
    let p = |x: Seq<char>| lisp_tree::scans(scan, root@, x);
    build_laws::lemma_filtered(v, p);
    lemma_sorted_members(v.filter(p), d);
    lemma_below(root@, d, rel);
    let k = choose|k: int| 0 <= k < v.len() && v[k] == d;
    assert(v.filter(p).contains(v[k]) == p(v[k]));
}

/// Only directories that were given are scanned.
pub proof fn law_nothing_else_is_scanned(
    scan: DirScan,
    root: &str,
    dirs: &Vec<String>,
    r: Vec<String>,
    d: Seq<char>,
)
    requires
        call_ensures(lisp_tree::lisp_dirs_matching_gnu_subdirs, (scan, root, dirs), r),
        text::texts(r@).contains(d),
    ensures
        text::texts(dirs@).contains(d),
{
    let v = text::texts(dirs@);
    let p = |x: Seq<char>| lisp_tree::scans(scan, root@, x);
    build_laws::lemma_filtered(v, p);
    lemma_sorted_members(v.filter(p), d);
    assert(v.filter(p).contains(d));
}

/// A name with quotes around it.
pub open spec fn in_quotes(n: Seq<char>) -> Seq<char> {
    seq!['"'] + n + seq!['"']
}

proof fn lemma_subdirs_list(names: Seq<Seq<char>>, k: int)
    requires
        0 <= k < names.len(),
        !lisp_tree::ignored_name(names[k]),
    ensures
        text::contains(lisp_tree::subdirs_list(names), in_quotes(names[k])),
    decreases names.len(),
{
    reveal_strlit("\"");
    reveal_strlit(" \"");
    reveal_strlit("\" ");
    let all = lisp_tree::subdirs_list(names);
    let before = lisp_tree::subdirs_list(names.drop_last());
    let n = names.last();
    let q = in_quotes(names[k]);
    if k == names.len() - 1 {
        if n == "obsolete"@ {
            let at = before.len() as int + 1;
            assert(all.subrange(at, at + q.len()) =~= q);
            assert(text::occurs_at(all, q, at));
        } else {
            assert(all.subrange(0, q.len() as int) =~= q);
            assert(text::occurs_at(all, q, 0));
        }
    } else {
        assert(names.drop_last()[k] == names[k]);
        lemma_subdirs_list(names.drop_last(), k);
        let i = choose|i: int| text::occurs_at(before, q, i);
        if lisp_tree::ignored_name(n) {
            assert(text::occurs_at(all, q, i));
        } else if n == "obsolete"@ {
            assert(all.subrange(i, i + q.len()) =~= before.subrange(i, i + q.len()));
            assert(text::occurs_at(all, q, i));
        } else {
            let s = all.len() - before.len();
            assert(all.subrange(s + i, s + i + q.len()) =~= before.subrange(i, i + q.len()));
            assert(text::occurs_at(all, q, s + i));
        }
    }
}

/// The list of a directory's subdirectories: it is written where it is missing or says
/// something else, kept where it says what it should, and removed where there is nothing to
/// say. Every subdirectory that counts is on it.
pub proof fn law_list_of_subdirectories(
    dirs: &Vec<String>,
    existing: Option<&str>,
    r: SubdirsAction,
    t: &str,
    again: SubdirsAction,
    k: int,
)
    requires
        call_ensures(lisp_tree::update_subdirs_file, (dirs, existing), r),
        r is Write ==> t@ == (r->Write_0)@,
        call_ensures(lisp_tree::update_subdirs_file, (dirs, Some(t)), again),
        0 <= k < dirs@.len(),
        !lisp_tree::ignored_name(dirs@[k]@),
    ensures
        !(r is Remove),
        existing is None ==> r is Write,
        r is Write ==> again is Keep,
        r is Write ==> text::contains((r->Write_0)@, in_quotes(dirs@[k]@)),
        r is Keep ==> existing is Some && text::contains((existing->0)@, in_quotes(dirs@[k]@)),
{
    let v = text::texts(dirs@);
    let s = paths::in_order(Collation::Text, v);
    let n = dirs@[k]@;
    assert(v[k] == n);
    lemma_sorted_members(v, n);
    assert(s.contains(n));
    let j = choose|j: int| 0 <= j < s.len() && s[j] == n;
    lemma_subdirs_list(s, j);
    let list = lisp_tree::subdirs_list(s);
    let q = in_quotes(n);
    let i = choose|i: int| text::occurs_at(list, q, i);
    assert(list.len() > 0);
    let wanted = lisp_tree::subdirs_head() + list + lisp_tree::subdirs_tail();
    let h = lisp_tree::subdirs_head().len() as int;
    assert(wanted.subrange(h + i, h + i + q.len()) =~= list.subrange(i, i + q.len()));
    assert(text::occurs_at(wanted, q, h + i));
}

/// What does not count as a subdirectory: what is hidden, Lisp files, version control and
/// leftovers.
pub proof fn law_names_that_do_not_count(n: &str, r: bool)
    requires
        call_ensures(lisp_tree::update_subdirs_ignores_name, (n,), r),
    ensures
        n@.len() > 0 && (n@[0] == '.' || n@[0] == '=') ==> r,
        n@.len() > 0 && n@.last() == '~' ==> r,
        n@ == "term"@ || n@ == "RCS"@ || n@ == "CVS"@ || n@ == "Old"@ ==> r,
        text::ends_with(n@, ".el"@) || text::ends_with(n@, ".elc"@) || text::ends_with(
            n@,
            ".orig"@,
        ) || text::ends_with(n@, ".rej"@) ==> r,
        n@ == "obsolete"@ ==> !r,
{
    reveal_strlit(".");
    reveal_strlit("=");
    reveal_strlit("~");
    reveal_strlit("obsolete");
    reveal_strlit("term");
    reveal_strlit("RCS");
    reveal_strlit("CVS");
    reveal_strlit("Old");
    reveal_strlit(".el");
    reveal_strlit(".elc");
    reveal_strlit(".orig");
    reveal_strlit(".rej");
    let s = n@;
    if s.len() > 0 {
        if s[0] == '.' {
            assert(s.subrange(0, 1) =~= "."@);
        }
        if s[0] == '=' {
            assert(s.subrange(0, 1) =~= "="@);
        }
        if s.last() == '~' {
            assert(s.subrange(s.len() - 1, s.len() as int) =~= "~"@);
        }
    }
    if s == "obsolete"@ {
        assert(s.subrange(0, 1)[0] == 'o');
        assert(s.subrange(7, 8)[0] == 'e');
        assert(s.subrange(5, 8)[0] == 'e');
        assert(s.subrange(4, 8)[0] == 'l');
        assert(s.subrange(3, 8)[0] == 'o');
        assert("."@[0] == '.' && "="@[0] == '=' && "~"@[0] == '~' && ".el"@[0] == '.'
            && ".elc"@[0] == '.' && ".orig"@[0] == '.' && ".rej"@[0] == '.');
    }
}

/// What was done to a list of subdirectories is what is said of it.
pub proof fn law_change_is_said(action: &SubdirsAction, r: UpdateSubdirsChange)
    requires
        call_ensures(lisp_tree::subdirs_change, (action,), r),
    ensures
        action is Keep <==> r is Unchanged,
        action is Remove <==> r is Removed,
        action is Write <==> r is Written,
{
}

/// A text without its carriage returns.
pub open spec fn without_returns(s: Seq<char>) -> Seq<char> {
    s.filter(|c: char| c != '\r')
}

proof fn lemma_filter_add(a: Seq<char>, b: Seq<char>)
    ensures
        without_returns(a + b) == without_returns(a) + without_returns(b),
    decreases b.len(),
{
    reveal(Seq::filter);
    if b.len() == 0 {
        assert(a + b =~= a);
        assert(without_returns(b) =~= Seq::<char>::empty());
    } else {
        lemma_filter_add(a, b.drop_last());
        assert((a + b).drop_last() =~= a + b.drop_last());
        assert((a + b).last() == b.last());
        assert(without_returns(a + b) =~= without_returns(a) + without_returns(b));
    }
}

proof fn lemma_unix_lines(s: Seq<char>)
    ensures
        without_returns(lisp_tree::unix_lines(s)) == without_returns(s),
        lisp_tree::unix_lines(s).len() <= s.len(),
    decreases s.len(),
{
    reveal(Seq::filter);
    let t = lisp_tree::unix_lines(s);
    if s.len() == 0 {
        assert(t =~= s);
    } else if s.len() > 1 && s[0] == '\r' && s[1] == '\n' {
        let u = s.subrange(2, s.len() as int);
        lemma_unix_lines(u);
        let (a, b) = (seq!['\n'], seq!['\r', '\n']);
        lemma_filter_add(a, lisp_tree::unix_lines(u));
        lemma_filter_add(b, u);
        assert(s =~= b + u);
        assert(b.drop_last() =~= seq!['\r']);
        assert(seq!['\r'].drop_last() =~= Seq::<char>::empty());
        assert(a.drop_last() =~= Seq::<char>::empty());
        reveal_with_fuel(Seq::filter, 3);
        assert(without_returns(b) =~= seq!['\n']);
        assert(without_returns(a) =~= seq!['\n']);
    } else {
        let u = s.subrange(1, s.len() as int);
        lemma_unix_lines(u);
        let a = seq![s[0]];
        lemma_filter_add(a, lisp_tree::unix_lines(u));
        lemma_filter_add(a, u);
        assert(s =~= a + u);
    }
}

/// Line ends are made those of Unix where they are not, and nothing but carriage returns
/// goes; a text that has none of the others is left alone.
pub proof fn law_line_ends(contents: &str, r: Option<String>)
    requires
        call_ensures(lisp_tree::normalize_lisp_line_endings, (contents,), r),
    ensures
        r is Some <==> text::contains(contents@, "\r\n"@),
        r is Some ==> without_returns((r->0)@) == without_returns(contents@) && (r->0)@.len()
            <= contents@.len(),
{
    lemma_unix_lines(contents@);
}

/// A text that is marked not to be compiled says so, and says all that it said.
pub proof fn law_marked_text(contents: &str, r: String)
    requires
        call_ensures(lisp_tree::inject_no_byte_compile, (contents,), r),
        !text::contains(contents@, ";; Local Variables:"@),
    ensures
        text::contains(r@, ";; no-byte-compile: t\n"@),
        text::starts_with(r@, contents@),
        text::ends_with(r@, ";; End:\n"@),
{
    reveal_strlit("\n");
    let s = contents@;
    let base = if text::ends_with(s, "\n"@) {
        s
    } else {
        s.push('\n')
    };
    let (a, b, c) = (";; Local Variables:\n"@, ";; no-byte-compile: t\n"@, ";; End:\n"@);
    assert(r@ == base + a + b + c);
    let k = (base.len() + a.len()) as int;
    assert(r@.subrange(k, k + b.len()) =~= b);
    assert(text::occurs_at(r@, b, k));
    assert(r@.subrange(0, s.len() as int) =~= s);
    assert(r@.subrange(r@.len() - c.len(), r@.len() as int) =~= c);
}

proof fn lemma_dir_sources(disk: Disk, files: Seq<Seq<char>>)
    ensures
        match lisp_tree::dir_sources(disk, files) {
            Some(v) => {
                &&& forall|x: Seq<char>| #[trigger]
                    v.contains(x) <==> files.contains(x) && lisp_tree::is_source_name(x)
                        && disk::considered(disk, x)
            },
            None => true,
        },
    decreases files.len(),
{
    if files.len() > 0 {
        let w = files.drop_last();
        lemma_dir_sources(disk, w);
        if lisp_tree::dir_sources(disk, files) is Some {
            let (v, before) = (
                lisp_tree::dir_sources(disk, files)->0,
                lisp_tree::dir_sources(disk, w)->0,
            );
            let f = files.last();
            assert forall|x: Seq<char>| #[trigger] v.contains(x) <==> files.contains(x)
                && lisp_tree::is_source_name(x) && disk::considered(disk, x) by {
                if v.contains(x) {
                    let k = choose|k: int| 0 <= k < v.len() && v[k] == x;
                    if k < before.len() {
                        assert(before[k] == x);
                        assert(before.contains(x));
                        let m = choose|m: int| 0 <= m < w.len() && w[m] == x;
                        assert(files[m] == x);
                    } else {
                        assert(files[files.len() - 1] == x);
                    }
                }
                if files.contains(x) && lisp_tree::is_source_name(x) && disk::considered(disk, x) {
                    let m = choose|m: int| 0 <= m < files.len() && files[m] == x;
                    if m < w.len() {
                        assert(w[m] == x);
                        assert(w.contains(x));
                        assert(before.contains(x));
                        let k = choose|k: int| 0 <= k < before.len() && before[k] == x;
                        assert(v[k] == x);
                    } else {
                        assert(v[v.len() - 1] == x);
                    }
                }
            }
        }
    }
}

proof fn lemma_tree_sources(
    disk: Disk,
    listings: Seq<DirListing>,
    dirs: Seq<Seq<char>>,
    x: Seq<char>,
)
    ensures
        match lisp_tree::tree_sources(disk, listings, dirs) {
            Some(v) => v.contains(x) <==> lisp_tree::is_source_name(x) && disk::considered(disk, x)
                && exists|k: int|
                0 <= k < dirs.len() && lisp_tree::listed_files(
                    listings,
                    #[trigger] dirs[k],
                ).contains(x),
            None => true,
        },
    decreases dirs.len(),
{
    if dirs.len() > 0 && lisp_tree::tree_sources(disk, listings, dirs) is Some {
        let w = dirs.drop_last();
        lemma_tree_sources(disk, listings, w, x);
        let v = lisp_tree::tree_sources(disk, listings, dirs)->0;
        let before = lisp_tree::tree_sources(disk, listings, w)->0;
        let listed = lisp_tree::listed_files(listings, dirs.last());
        let files = paths::in_order(Collation::Path, listed);
        lemma_dir_sources(disk, files);
        lemma_sorted_members(listed, x);
        let s = lisp_tree::dir_sources(disk, files)->0;
        assert(s.contains(x) <==> files.contains(x) && lisp_tree::is_source_name(x)
            && disk::considered(disk, x));
        if v.contains(x) {
            let k = choose|k: int| 0 <= k < v.len() && v[k] == x;
            if k < before.len() {
                assert(before[k] == x);
                assert(before.contains(x));
                let m = choose|m: int|
                    0 <= m < w.len() && lisp_tree::listed_files(listings, #[trigger] w[m]).contains(
                        x,
                    );
                assert(dirs[m] == w[m]);
            } else {
                assert(s[k - before.len()] == x);
                assert(s.contains(x));
                assert(dirs[dirs.len() - 1] == dirs.last());
            }
        }
        if lisp_tree::is_source_name(x) && disk::considered(disk, x) && exists|k: int|
            0 <= k < dirs.len() && lisp_tree::listed_files(listings, #[trigger] dirs[k]).contains(
                x,
            ) {
            let m = choose|m: int|
                0 <= m < dirs.len() && lisp_tree::listed_files(
                    listings,
                    #[trigger] dirs[m],
                ).contains(x);
            if m < w.len() {
                assert(w[m] == dirs[m]);
                assert(before.contains(x));
                let k = choose|k: int| 0 <= k < before.len() && before[k] == x;
                assert(v[k] == x);
            } else {
                assert(s.contains(x));
                let k = choose|k: int| 0 <= k < s.len() && s[k] == x;
                assert(v[before.len() + k] == x);
            }
        }
    }
}

/// What the main compilation looks at: every Lisp file that is listed, is not hidden, and
/// may be compiled, and nothing else.
pub proof fn law_main_sources(
    disk: &Disk,
    listings: &Vec<DirListing>,
    r: Option<Vec<String>>,
    x: Seq<char>,
)
    requires
        call_ensures(lisp_tree::compile_main_sources, (disk, listings), r),
        r is Some,
    ensures
        text::texts((r->0)@).contains(x) ==> paths::extension_of(x) == Some("el"@)
            && build_laws::may_be_compiled(*disk, x) && exists|k: int|
            0 <= k < listings@.len() && text::texts((#[trigger] listings@[k]).files@).contains(x),
        paths::extension_of(x) == Some("el"@) && build_laws::may_be_compiled(*disk, x) && !(
        paths::file_name_of(x) is Some && text::starts_with(paths::file_name_of(x)->0, "."@))
            && listings@.len() == 1 && text::texts(listings@[0].files@).contains(x)
            ==> text::texts((r->0)@).contains(x),
{
    let dirs = lisp_tree::listing_dirs(listings@);
    let sorted = paths::in_order(Collation::Path, dirs);
    lemma_tree_sources(*disk, listings@, sorted, x);
    if text::texts((r->0)@).contains(x) {
        let k = choose|k: int|
            0 <= k < sorted.len() && lisp_tree::listed_files(
                listings@,
                #[trigger] sorted[k],
            ).contains(x);
        lemma_listed_files(listings@, sorted[k], x);
    }
    if listings@.len() == 1 && text::texts(listings@[0].files@).contains(x) {
        let d = listings@[0].dir@;
        assert(dirs[0] == d);
        assert(dirs.contains(d));
        lemma_sorted_members(dirs, d);
        let k = choose|k: int| 0 <= k < sorted.len() && sorted[k] == d;
        assert(lisp_tree::listed_files(listings@, sorted[k]).contains(x));
    }
}

proof fn lemma_listed_files(v: Seq<DirListing>, dir: Seq<char>, x: Seq<char>)
    requires
        lisp_tree::listed_files(v, dir).contains(x),
    ensures
        exists|k: int| 0 <= k < v.len() && text::texts((#[trigger] v[k]).files@).contains(x),
    decreases v.len(),
{
    if v.len() > 0 {
        if v[0].dir@ == dir {
            assert(text::texts(v[0].files@).contains(x));
        } else {
            let t = v.subrange(1, v.len() as int);
            lemma_listed_files(t, dir, x);
            let k = choose|k: int|
                0 <= k < t.len() && text::texts((#[trigger] t[k]).files@).contains(x);
            assert(v[k + 1] == t[k]);
        }
    }
}

} // verus!
