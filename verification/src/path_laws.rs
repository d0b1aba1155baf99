//! What a path is for: a directory and a name, and a name with an ending.
use vstd::prelude::*;

use crate::paths;
use crate::paths::Collation;
use crate::text;

verus! {

/// What comes before a name: nothing, or a directory with its slash.
pub open spec fn is_directory(s: Seq<char>) -> bool {
    s.len() == 0 || s.last() == '/'
}

/// A name: some letters, no slash among them, and not one that means a directory.
pub open spec fn is_name(s: Seq<char>) -> bool {
    &&& s.len() > 0
    &&& forall|i: int| 0 <= i < s.len() ==> #[trigger] s[i] != '/'
    &&& s != seq!['.'] && s != seq!['.', '.']
}

/// Text without a dot.
pub open spec fn is_dotless(s: Seq<char>) -> bool {
    forall|i: int| 0 <= i < s.len() ==> #[trigger] s[i] != '.'
}

/// Joining: below a directory, with one slash between, but for a path that stands alone,
/// which replaces it.
pub proof fn law_joined(base: &str, rel: &str, r: String)
    requires
        call_ensures(paths::join, (base, rel), r),
    ensures
        rel@.len() > 0 && rel@[0] == '/' ==> r@ == rel@,
        !(rel@.len() > 0 && rel@[0] == '/') && base@.len() == 0 ==> r@ == rel@,
        !(rel@.len() > 0 && rel@[0] == '/') && base@.len() > 0 ==> {
            let gap = if base@.last() == '/' {
                0int
            } else {
                1int
            };
            &&& r@.len() == base@.len() + gap + rel@.len()
            &&& r@.subrange(0, base@.len() as int) == base@
            &&& r@.subrange(base@.len() + gap, r@.len() as int) == rel@
            &&& r@[base@.len() + gap - 1] == '/'
        },
{
    if !(rel@.len() > 0 && rel@[0] == '/') {
        if base@.len() == 0 {
            assert(r@ =~= rel@);
        } else {
            let gap = if base@.last() == '/' {
                0int
            } else {
                1int
            };
            assert(r@.subrange(0, base@.len() as int) =~= base@);
            assert(r@.subrange(base@.len() + gap, r@.len() as int) =~= rel@);
        }
    }
}

proof fn lemma_name(dir: Seq<char>, name: Seq<char>)
    requires
        is_directory(dir),
        is_name(name),
    ensures
        paths::name_end(dir + name) == (dir + name).len(),
        paths::name_start(dir + name) == dir.len(),
        paths::file_name_of(dir + name) == Some(name),
{
    let s = dir + name;
    let n = s.len() as int;
    assert(s[n - 1] == name[name.len() - 1]);
    if n > 1 && s[n - 1] == '.' && s[n - 2] == '/' {
        if name.len() == 1 {
            assert(name =~= seq!['.']);
        } else {
            assert(s[n - 2] == name[name.len() - 2]);
        }
    }
    lemma_name_start(dir, name);
    assert(s.subrange(0, n) =~= s);
    assert(s.subrange(dir.len() as int, n) =~= name);
    if paths::is_dot(name) {
        assert(name =~= seq!['.']);
    }
    if paths::is_dot_dot(name) {
        assert(name =~= seq!['.', '.']);
    }
}

proof fn lemma_name_start(dir: Seq<char>, name: Seq<char>)
    requires
        is_directory(dir),
        forall|i: int| 0 <= i < name.len() ==> #[trigger] name[i] != '/',
    ensures
        paths::name_start(dir + name) == dir.len(),
    decreases name.len(),
{
    let s = dir + name;
    if name.len() > 0 {
        let t = name.drop_last();
        assert forall|i: int| 0 <= i < t.len() implies #[trigger] t[i] != '/' by {
            assert(t[i] == name[i]);
        }
        lemma_name_start(dir, t);
        assert(s.last() == name[name.len() - 1]);
        assert(s.drop_last() =~= dir + t);
    } else {
        assert(s =~= dir);
    }
}

proof fn lemma_last_dot(stem: Seq<char>, ext: Seq<char>)
    requires
        is_dotless(ext),
    ensures
        paths::last_dot(stem.push('.') + ext) == stem.len(),
    decreases ext.len(),
{
    let s = stem.push('.') + ext;
    if ext.len() > 0 {
        let t = ext.drop_last();
        assert forall|i: int| 0 <= i < t.len() implies #[trigger] t[i] != '.' by {
            assert(t[i] == ext[i]);
        }
        lemma_last_dot(stem, t);
        assert(s.last() == ext[ext.len() - 1]);
        assert(s.drop_last() =~= stem.push('.') + t);
    } else {
        assert(s =~= stem.push('.'));
    }
}

proof fn lemma_no_dot(s: Seq<char>)
    requires
        is_dotless(s),
    ensures
        paths::last_dot(s) == -1,
    decreases s.len(),
{
    if s.len() > 0 {
        let t = s.drop_last();
        assert forall|i: int| 0 <= i < t.len() implies #[trigger] t[i] != '.' by {
            assert(t[i] == s[i]);
        }
        lemma_no_dot(t);
        assert(s.last() == s[s.len() - 1]);
    }
}

/// The name at the end of a path is its file name. What comes after the last dot in it is
/// its extension, unless the dot is at its beginning; another extension takes its place, and
/// is read back.
pub proof fn law_extension_is_replaced(
    s: &str,
    ext: &str,
    dir: Seq<char>,
    stem: Seq<char>,
    was: Seq<char>,
    name: Option<String>,
    before: Option<String>,
    r: String,
    after: Option<String>,
    t: &str,
)
    requires
        is_directory(dir),
        is_name(stem.push('.') + was),
        stem.len() > 0,
        is_dotless(was),
        s@ == dir + (stem.push('.') + was),
        call_ensures(paths::file_name, (s,), name),
        call_ensures(paths::extension, (s,), before),
        call_ensures(paths::with_extension, (s, ext), r),
        t@ == r@,
        call_ensures(paths::extension, (t,), after),
        is_dotless(ext@),
        is_name(stem.push('.') + ext@),
    ensures
        name is Some && (name->0)@ == stem.push('.') + was,
        before is Some && (before->0)@ == was,
        r@ == dir + (stem.push('.') + ext@),
        after is Some && (after->0)@ == ext@,
{
    let full = stem.push('.') + was;
    lemma_name(dir, full);
    lemma_last_dot(stem, was);
    assert(full.subrange(stem.len() as int + 1, full.len() as int) =~= was);
    assert(s@.subrange(0, (dir.len() + stem.len()) as int) =~= dir + stem);
    assert(r@ =~= dir + (stem.push('.') + ext@));
    let new = stem.push('.') + ext@;
    lemma_name(dir, new);
    lemma_last_dot(stem, ext@);
    assert(new.subrange(stem.len() as int + 1, new.len() as int) =~= ext@);
}

/// A name without a dot has no extension, and gets one at its end.
pub proof fn law_extension_is_added(
    s: &str,
    ext: &str,
    dir: Seq<char>,
    stem: Seq<char>,
    before: Option<String>,
    r: String,
)
    requires
        is_directory(dir),
        is_name(stem),
        is_dotless(stem),
        s@ == dir + stem,
        call_ensures(paths::extension, (s,), before),
        call_ensures(paths::with_extension, (s, ext), r),
    ensures
        before is None,
        r@ == s@.push('.') + ext@,
{
    lemma_name(dir, stem);
    lemma_no_dot(stem);
    assert(s@.subrange(0, s@.len() as int) =~= s@);
}

/// A path has an extension where that is the one it has.
pub proof fn law_has_extension(s: &str, ext: &str, r: bool, e: Option<String>)
    requires
        call_ensures(paths::has_extension, (s, ext), r),
        call_ensures(paths::extension, (s,), e),
    ensures
        r <==> e is Some && (e->0)@ == ext@,
{
}

/// A path stands alone where it begins with a slash.
pub proof fn law_absolute(s: &str, r: bool)
    requires
        call_ensures(paths::absolute, (s,), r),
    ensures
        r <==> s@.len() > 0 && s@[0] == '/',
{
}

/// One text comes before another: it is a beginning of it, or has the smaller character
/// where they first differ.
pub open spec fn comes_before(a: Seq<char>, b: Seq<char>) -> bool {
    exists|k: int|
        0 <= k <= a.len() && k <= b.len() && (#[trigger] a.subrange(0, k)) == b.subrange(0, k) && k
            < b.len() && (k == a.len() || a[k] < b[k])
}

proof fn lemma_code(c: char)
    ensures
        ((c as u32) as u64 + 1) as u64 == c as int + 1,
{
}

proof fn lemma_lex(a: Seq<char>, b: Seq<char>)
    ensures
        paths::lex_lt(paths::char_codes(a), paths::char_codes(b)) <==> comes_before(a, b),
    decreases a.len(),
{
    let (x, y) = (paths::char_codes(a), paths::char_codes(b));
    if b.len() == 0 {
    } else if a.len() == 0 {
        assert(a.subrange(0, 0) =~= b.subrange(0, 0));
    } else if a[0] != b[0] {
        assert(x[0] == ((a[0] as u32) as u64 + 1) as u64);
        assert(y[0] == ((b[0] as u32) as u64 + 1) as u64);
        if a[0] < b[0] {
            assert(a.subrange(0, 0) =~= b.subrange(0, 0));
        }
        if comes_before(a, b) {
            let k = choose|k: int|
                0 <= k <= a.len() && k <= b.len() && (#[trigger] a.subrange(0, k)) == b.subrange(
                    0,
                    k,
                ) && k < b.len() && (k == a.len() || a[k] < b[k]);
            if k > 0 {
                assert(a.subrange(0, k)[0] == b.subrange(0, k)[0]);
            }
        }
        lemma_code(a[0]);
        lemma_code(b[0]);
        assert(paths::lex_lt(x, y) <==> a[0] < b[0]);
        assert(comes_before(a, b) <==> a[0] < b[0]);
    } else {
        let (c, d) = (a.subrange(1, a.len() as int), b.subrange(1, b.len() as int));
        lemma_lex(c, d);
        assert(x.subrange(1, x.len() as int) =~= paths::char_codes(c));
        assert(y.subrange(1, y.len() as int) =~= paths::char_codes(d));
        assert(paths::lex_lt(x, y) <==> comes_before(c, d));
        if comes_before(c, d) {
            let k = choose|k: int|
                0 <= k <= c.len() && k <= d.len() && (#[trigger] c.subrange(0, k)) == d.subrange(
                    0,
                    k,
                ) && k < d.len() && (k == c.len() || c[k] < d[k]);
            assert(a.subrange(0, k + 1) =~= seq![a[0]] + c.subrange(0, k));
            assert(b.subrange(0, k + 1) =~= seq![b[0]] + d.subrange(0, k));
            assert(a.subrange(0, k + 1) == b.subrange(0, k + 1));
            assert(d[k] == b[k + 1]);
            if k < c.len() {
                assert(c[k] == a[k + 1]);
            }
        }
        if comes_before(a, b) {
            let k = choose|k: int|
                0 <= k <= a.len() && k <= b.len() && (#[trigger] a.subrange(0, k)) == b.subrange(
                    0,
                    k,
                ) && k < b.len() && (k == a.len() || a[k] < b[k]);
            assert(k > 0);
            assert(a.subrange(0, k).subrange(1, k) =~= c.subrange(0, k - 1));
            assert(b.subrange(0, k).subrange(1, k) =~= d.subrange(0, k - 1));
            assert(c.subrange(0, k - 1) == d.subrange(0, k - 1));
        }
    }
}

/// Sorting keeps what is there, and nothing stands before what comes before it.
pub proof fn law_sorted_texts(v: &Vec<String>, r: Vec<String>)
    requires
        call_ensures(paths::sorted, (Collation::Text, v), r),
    ensures
        text::texts(r@).to_multiset() == text::texts(v@).to_multiset(),
        forall|i: int, j: int|
            0 <= i < j < r@.len() ==> !comes_before(#[trigger] r@[j]@, #[trigger] r@[i]@),
{
    let w = text::texts(r@);
    paths::law_in_order(Collation::Text, text::texts(v@));
    assert forall|i: int, j: int| 0 <= i < j < r@.len() implies !comes_before(
        #[trigger] r@[j]@,
        #[trigger] r@[i]@,
    ) by {
        assert(w[i] == r@[i]@ && w[j] == r@[j]@);
        lemma_lex(w[j], w[i]);
        assert(!paths::before(Collation::Text, w[j], w[i]));
    }
}

/// A set of paths holds each path once, as it was first written, in the order of paths, and
/// no other.
pub proof fn law_set_of_paths(v: &Vec<String>, r: Vec<String>, s: &str, there: bool, was: bool)
    requires
        call_ensures(paths::name_set_of, (Collation::Path, v), r),
        call_ensures(paths::contains_name, (Collation::Path, &r, s), there),
        call_ensures(paths::contains_name, (Collation::Path, v, s), was),
    ensures
        there == was,
        forall|i: int|
            0 <= i < r@.len() ==> exists|k: int|
                0 <= k < v@.len() && #[trigger] v@[k]@ == #[trigger] r@[i]@,
        forall|i: int, j: int|
            0 <= i < j < r@.len() ==> !paths::same_name(
                Collation::Path,
                #[trigger] r@[i]@,
                #[trigger] r@[j]@,
            ),
{
    let (a, b) = (text::texts(v@), text::texts(r@));
    paths::law_name_set(Collation::Path, a);
    assert forall|i: int| 0 <= i < r@.len() implies exists|k: int|
        0 <= k < v@.len() && #[trigger] v@[k]@ == #[trigger] r@[i]@ by {
        assert(b[i] == r@[i]@);
        assert(b.contains(b[i]));
        let k = choose|k: int| 0 <= k < a.len() && a[k] == b[i];
        assert(v@[k]@ == r@[i]@);
    }
    assert forall|i: int, j: int| 0 <= i < j < r@.len() implies !paths::same_name(
        Collation::Path,
        #[trigger] r@[i]@,
        #[trigger] r@[j]@,
    ) by {
        assert(b[i] == r@[i]@ && b[j] == r@[j]@);
        assert(paths::before(Collation::Path, b[i], b[j]));
        paths::lemma_lex_irreflexive(paths::key_of(Collation::Path, b[i]));
    }
}

/// Two paths with the same components are the same, and a path is the same as itself.
pub proof fn law_same_path(a: &str, b: &str, r: bool, x: Vec<String>, y: Vec<String>)
    requires
        call_ensures(paths::same_path, (a, b), r),
        call_ensures(paths::components, (a,), x),
        call_ensures(paths::components, (b,), y),
    ensures
        text::texts(x@) == text::texts(y@) ==> r,
        a@ == b@ ==> r,
{
}

/// What is below a directory: the components that a path has beyond those of the directory,
/// where it begins with them.
pub proof fn law_below_a_directory(
    root: &str,
    path: &str,
    r: Option<Vec<String>>,
    x: Vec<String>,
    y: Vec<String>,
)
    requires
        call_ensures(paths::relative_to, (root, path), r),
        call_ensures(paths::components, (root,), x),
        call_ensures(paths::components, (path,), y),
    ensures
        r is Some ==> text::texts(y@) == text::texts(x@) + text::texts((r->0)@),
        r is None ==> forall|rest: Seq<Seq<char>>|
            text::texts(y@) != #[trigger] (text::texts(x@) + rest),
{
    let (p, q) = (text::texts(x@), text::texts(y@));
    if r is Some {
        assert(q =~= p + text::texts((r->0)@));
    } else {
        assert forall|rest: Seq<Seq<char>>| q != #[trigger] (p + rest) by {
            if q == p + rest {
                assert(q.subrange(0, p.len() as int) =~= p);
            }
        }
    }
}

} // verus!
