//! What taking text apart is for: the parts make up the text.
use vstd::prelude::*;

use crate::makefile;
use crate::paths;
use crate::paths::Collation;
use crate::text;

verus! {

/// All of a text is white space.
pub open spec fn is_blank(s: Seq<char>) -> bool {
    forall|i: int| 0 <= i < s.len() ==> text::is_space(#[trigger] s[i])
}

proof fn lemma_trimmed_start(s: Seq<char>)
    ensures
        ({
            let (t, k) = (text::trimmed_start(s), s.len() - text::trimmed_start(s).len());
            &&& 0 <= k <= s.len()
            &&& t == s.subrange(k, s.len() as int)
            &&& is_blank(s.subrange(0, k))
            &&& t.len() > 0 ==> !text::is_space(t[0])
        }),
    decreases s.len(),
{
    if s.len() > 0 && text::is_space(s[0]) {
        let u = s.subrange(1, s.len() as int);
        lemma_trimmed_start(u);
        let (t, k) = (text::trimmed_start(s), s.len() - text::trimmed_start(s).len());
        assert(t =~= s.subrange(k, s.len() as int));
        assert forall|i: int| 0 <= i < k implies text::is_space(
            #[trigger] s.subrange(0, k)[i],
        ) by {
            if i > 0 {
                assert(u.subrange(0, k - 1)[i - 1] == s.subrange(0, k)[i]);
            }
        }
    } else {
        assert(s.subrange(0, s.len() as int) =~= s);
    }
}

proof fn lemma_trimmed_end(s: Seq<char>)
    ensures
        ({
            let t = text::trimmed_end(s);
            &&& t.len() <= s.len()
            &&& t == s.subrange(0, t.len() as int)
            &&& is_blank(s.subrange(t.len() as int, s.len() as int))
            &&& t.len() > 0 ==> !text::is_space(t.last())
        }),
    decreases s.len(),
{
    if s.len() > 0 && text::is_space(s[s.len() - 1]) {
        let u = s.subrange(0, s.len() - 1);
        lemma_trimmed_end(u);
        let t = text::trimmed_end(s);
        assert(t =~= s.subrange(0, t.len() as int));
        let rest = s.subrange(t.len() as int, s.len() as int);
        assert forall|i: int| 0 <= i < rest.len() implies text::is_space(#[trigger] rest[i]) by {
            if i < rest.len() - 1 {
                assert(u.subrange(t.len() as int, u.len() as int)[i] == rest[i]);
            }
        }
    } else {
        assert(s.subrange(0, s.len() as int) =~= s);
    }
}

/// Trimming takes white space off both ends, all of it and nothing else.
pub proof fn law_trimmed(s: &[char], r: &[char], left: &[char], right: &[char])
    requires
        call_ensures(text::trim, (s,), r),
        call_ensures(text::trim_start, (s,), left),
        call_ensures(text::trim_end, (s,), right),
    ensures
        r@.len() > 0 ==> !text::is_space(r@[0]) && !text::is_space(r@.last()),
        exists|k: int|
            0 <= k && k + r@.len() <= s@.len() && r@ == #[trigger] s@.subrange(k, k + r@.len())
                && is_blank(s@.subrange(0, k)) && is_blank(
                s@.subrange(k + r@.len(), s@.len() as int),
            ),
        left@.len() <= s@.len() && left@ == s@.subrange(s@.len() - left@.len(), s@.len() as int),
        is_blank(s@.subrange(0, s@.len() - left@.len())),
        right@.len() <= s@.len() && right@ == s@.subrange(0, right@.len() as int),
        is_blank(s@.subrange(right@.len() as int, s@.len() as int)),
        left@.len() > 0 ==> !text::is_space(left@[0]),
        right@.len() > 0 ==> !text::is_space(right@.last()),
{
    lemma_trimmed_start(s@);
    lemma_trimmed_end(s@);
    let t = text::trimmed_start(s@);
    lemma_trimmed_end(t);
    let k = s@.len() - t.len();
    assert(r@ =~= s@.subrange(k, k + r@.len()));
    if r@.len() > 0 {
        assert(r@[0] == t[0]);
    }
    let tail = s@.subrange(k + r@.len(), s@.len() as int);
    assert(tail =~= t.subrange(r@.len() as int, t.len() as int));
}

proof fn lemma_split(s: Seq<char>, c: char)
    ensures
        ({
            let v = text::split_at_char(s, c);
            &&& v.len() > 0
            &&& text::joined(v, seq![c]) == s
            &&& forall|i: int, k: int|
                0 <= i < v.len() && 0 <= k < v[i].len() ==> #[trigger] v[i][k] != c
        }),
    decreases s.len(),
{
    let i = text::index_of_char(s, c);
    text::lemma_index_nonneg(s, c);
    let v = text::split_at_char(s, c);
    if i < s.len() {
        let (a, u) = (s.subrange(0, i), s.subrange(i + 1, s.len() as int));
        lemma_split(u, c);
        let w = text::split_at_char(u, c);
        assert(v == seq![a] + w);
        lemma_joined_first(a, w, seq![c]);
        assert(a + seq![c] + u =~= s);
        assert forall|j: int, k: int| 0 <= j < v.len() && 0 <= k < v[j].len() implies #[trigger] v[j][k]
            != c by {
            if j > 0 {
                assert(v[j] == w[j - 1]);
            }
        }
    } else {
        assert(v == seq![s]);
    }
}

proof fn lemma_joined_first(a: Seq<char>, w: Seq<Seq<char>>, sep: Seq<char>)
    requires
        w.len() > 0,
    ensures
        text::joined(seq![a] + w, sep) == a + sep + text::joined(w, sep),
    decreases w.len(),
{
    let v = seq![a] + w;
    reveal_with_fuel(text::joined, 3);
    if w.len() == 1 {
        assert(v.drop_last() =~= seq![a]);
        assert(text::joined(seq![a], sep) == a);
        assert(v.last() == w[0]);
    } else {
        assert(v.drop_last() =~= seq![a] + w.drop_last());
        lemma_joined_first(a, w.drop_last(), sep);
        assert(v.last() == w.last());
        assert(a + sep + text::joined(w.drop_last(), sep) + sep + w.last() =~= a + sep + (
        text::joined(w.drop_last(), sep) + sep + w.last()));
    }
}

/// What is split at a character and joined with it again is the text, and no piece holds
/// the character.
pub proof fn law_split_and_joined(s: &[char], c: char, r: Vec<String>, sep: &str, back: String)
    requires
        call_ensures(text::split, (s, c), r),
        sep@ == seq![c],
        call_ensures(text::join, (&r, sep), back),
    ensures
        back@ == s@,
        forall|i: int, k: int|
            0 <= i < r@.len() && 0 <= k < r@[i]@.len() ==> #[trigger] r@[i]@[k] != c,
{
    lemma_split(s@, c);
    let v = text::split_at_char(s@, c);
    assert forall|i: int, k: int| 0 <= i < r@.len() && 0 <= k < r@[i]@.len() implies #[trigger] r@[i]@[k]
        != c by {
        assert(v[i] == r@[i]@);
        assert(v[i][k] != c);
    }
}

/// What is left of a text without its white space.
pub open spec fn letters(s: Seq<char>) -> Seq<char> {
    s.filter(|c: char| !text::is_space(c))
}

/// Several texts, one behind the other.
pub open spec fn run_together(v: Seq<Seq<char>>) -> Seq<char>
    decreases v.len(),
{
    if v.len() == 0 {
        Seq::empty()
    } else {
        v[0] + run_together(v.subrange(1, v.len() as int))
    }
}

proof fn lemma_letters_add(a: Seq<char>, b: Seq<char>)
    ensures
        letters(a + b) == letters(a) + letters(b),
    decreases b.len(),
{
    reveal(Seq::filter);
    if b.len() == 0 {
        assert(a + b =~= a);
        assert(letters(b) =~= Seq::<char>::empty());
    } else {
        lemma_letters_add(a, b.drop_last());
        assert((a + b).drop_last() =~= a + b.drop_last());
        assert((a + b).last() == b.last());
        assert(letters(a + b) =~= letters(a) + letters(b));
    }
}

proof fn lemma_letters_blank(s: Seq<char>)
    ensures
        is_blank(s) ==> letters(s) == Seq::<char>::empty(),
        (forall|i: int| 0 <= i < s.len() ==> !text::is_space(#[trigger] s[i])) ==> letters(s) == s,
    decreases s.len(),
{
    reveal(Seq::filter);
    if s.len() > 0 {
        let t = s.drop_last();
        lemma_letters_blank(t);
        if is_blank(s) {
            assert forall|i: int| 0 <= i < t.len() implies text::is_space(#[trigger] t[i]) by {
                assert(t[i] == s[i]);
            }
            assert(text::is_space(s[s.len() - 1]));
        }
        if forall|i: int| 0 <= i < s.len() ==> !text::is_space(#[trigger] s[i]) {
            assert forall|i: int| 0 <= i < t.len() implies !text::is_space(#[trigger] t[i]) by {
                assert(t[i] == s[i]);
            }
            assert(!text::is_space(s[s.len() - 1]));
            assert(t.push(s.last()) =~= s);
        }
    }
}

proof fn lemma_word(s: Seq<char>)
    ensures
        0 <= text::word_len(s) <= s.len(),
        forall|i: int| 0 <= i < text::word_len(s) ==> !text::is_space(#[trigger] s[i]),
        text::word_len(s) < s.len() ==> text::is_space(s[text::word_len(s)]),
        s.len() > 0 && !text::is_space(s[0]) ==> text::word_len(s) > 0,
    decreases s.len(),
{
    if s.len() > 0 && !text::is_space(s[0]) {
        let t = s.subrange(1, s.len() as int);
        lemma_word(t);
        assert forall|i: int| 0 <= i < text::word_len(s) implies !text::is_space(
            #[trigger] s[i],
        ) by {
            if i > 0 {
                assert(t[i - 1] == s[i]);
            }
        }
        if text::word_len(s) < s.len() {
            assert(t[text::word_len(t)] == s[text::word_len(s)]);
        }
    }
}

proof fn lemma_words(s: Seq<char>)
    ensures
        ({
            let v = text::words_of(s);
            &&& run_together(v) == letters(s)
            &&& forall|i: int| 0 <= i < v.len() ==> (#[trigger] v[i]).len() > 0
            &&& forall|i: int, k: int|
                0 <= i < v.len() && 0 <= k < v[i].len() ==> !text::is_space(#[trigger] v[i][k])
        }),
    decreases s.len(),
{
    let t = text::trimmed_start(s);
    lemma_trimmed_start(s);
    let gap = s.subrange(0, s.len() - t.len());
    assert(s =~= gap + t);
    lemma_letters_add(gap, t);
    lemma_letters_blank(gap);
    assert(letters(s) =~= letters(t));
    let v = text::words_of(s);
    if t.len() > 0 {
        let n = text::word_len(t);
        lemma_word(t);
        let (a, u) = (t.subrange(0, n), t.subrange(n, t.len() as int));
        lemma_words(u);
        let w = text::words_of(u);
        assert(v == seq![a] + w);
        assert(v.subrange(1, v.len() as int) =~= w);
        assert(t =~= a + u);
        lemma_letters_add(a, u);
        assert forall|i: int| 0 <= i < a.len() implies !text::is_space(#[trigger] a[i]) by {
            assert(a[i] == t[i]);
        }
        lemma_letters_blank(a);
        assert forall|i: int, k: int| 0 <= i < v.len() && 0 <= k < v[i].len() implies !text::is_space(
            #[trigger] v[i][k],
        ) by {
            if i > 0 {
                assert(v[i] == w[i - 1]);
            }
        }
        assert forall|i: int| 0 <= i < v.len() implies (#[trigger] v[i]).len() > 0 by {
            if i > 0 {
                assert(v[i] == w[i - 1]);
            }
        }
    } else {
        lemma_letters_blank(t);
        assert(letters(t) =~= Seq::<char>::empty());
    }
}

/// The words of a text are what is not white space in it, cut where there is some: none is
/// empty, none holds any, and together they are all the rest.
pub proof fn law_words_make_up_the_text(s: &[char], r: Vec<String>)
    requires
        call_ensures(text::words, (s,), r),
    ensures
        run_together(text::texts(r@)) == letters(s@),
        forall|i: int| 0 <= i < r@.len() ==> (#[trigger] r@[i])@.len() > 0,
        forall|i: int, k: int|
            0 <= i < r@.len() && 0 <= k < r@[i]@.len() ==> !text::is_space(#[trigger] r@[i]@[k]),
{
    lemma_words(s@);
    let v = text::words_of(s@);
    assert forall|i: int| 0 <= i < r@.len() implies (#[trigger] r@[i])@.len() > 0 by {
        assert(v[i] == r@[i]@);
    }
    assert forall|i: int, k: int| 0 <= i < r@.len() && 0 <= k < r@[i]@.len() implies !text::is_space(
        #[trigger] r@[i]@[k],
    ) by {
        assert(v[i] == r@[i]@);
        assert(!text::is_space(v[i][k]));
    }
}

proof fn lemma_lines(s: Seq<char>)
    ensures
        ({
            let v = text::lines_of(s);
            forall|i: int, k: int|
                0 <= i < v.len() && 0 <= k < v[i].len() ==> #[trigger] v[i][k] != '\n'
        }),
    decreases s.len(),
{
    let i = text::index_of_char(s, '\n');
    text::lemma_index_nonneg(s, '\n');
    let v = text::lines_of(s);
    if s.len() > 0 && i < s.len() {
        let u = s.subrange(i + 1, s.len() as int);
        lemma_lines(u);
        let w = text::lines_of(u);
        let a = text::without_cr(s.subrange(0, i));
        assert(v == seq![a] + w);
        assert forall|j: int, k: int| 0 <= j < v.len() && 0 <= k < v[j].len() implies #[trigger] v[j][k]
            != '\n' by {
            if j > 0 {
                assert(v[j] == w[j - 1]);
            } else {
                assert(v[0][k] == s[k]);
            }
        }
    }
}

/// The lines of a text hold no line end; a first line, with what ends it, and the lines of
/// the rest are the lines of the text.
pub proof fn law_lines_of_a_text(
    s: &str,
    r: Vec<String>,
    rest: &str,
    more: Vec<String>,
    first: Seq<char>,
)
    requires
        call_ensures(text::lines, (s,), r),
        call_ensures(text::lines, (rest,), more),
        s@ == first + seq!['\n'] + rest@,
        forall|k: int| 0 <= k < first.len() ==> #[trigger] first[k] != '\n',
        first.len() > 0 ==> first.last() != '\r',
    ensures
        text::texts(r@) == seq![first] + text::texts(more@),
        forall|i: int, k: int|
            0 <= i < r@.len() && 0 <= k < r@[i]@.len() ==> #[trigger] r@[i]@[k] != '\n',
{
    lemma_lines(s@);
    let v = text::lines_of(s@);
    assert forall|i: int, k: int| 0 <= i < r@.len() && 0 <= k < r@[i]@.len() implies #[trigger] r@[i]@[k]
        != '\n' by {
        assert(v[i] == r@[i]@);
        assert(v[i][k] != '\n');
    }
    let n = first.len() as int;
    assert(s@[n] == '\n');
    assert forall|j: int| 0 <= j < n implies s@[j] != '\n' by {
        assert(s@[j] == first[j]);
    }
    text::lemma_index_of_char(s@, '\n', n);
    assert(s@.subrange(0, n) =~= first);
    assert(s@.subrange(n + 1, s@.len() as int) =~= rest@);
}

/// A number as text: its last digit is the number's last, and what is before it is the text
/// of the rest.
pub proof fn law_decimal_digits(n: u64, r: String, m: u64, q: String)
    requires
        call_ensures(text::decimal_text, (n,), r),
        call_ensures(text::decimal_text, (m,), q),
        m == n / 10,
    ensures
        r@.len() > 0,
        r@.last() as int == '0' as int + n % 10,
        n < 10 ==> r@.len() == 1,
        n >= 10 ==> r@ == q@.push(r@.last()),
{
}

/// A line that gives a variable a value: the name, an equals sign, or a plus and one, and
/// the value. A line that begins with anything else gives it none.
pub proof fn law_assignment(line: &[char], variable: &str, r: Option<&[char]>, value: Seq<char>)
    requires
        call_ensures(makefile::strip_makefile_assignment, (line, variable), r),
        value.len() > 0 ==> !text::is_space(value[0]),
    ensures
        line@ == variable@ + "="@ + value ==> r is Some && (r->0)@ == value,
        line@ == variable@ + "+="@ + value ==> r is Some && (r->0)@ == value,
        !text::starts_with(line@, variable@) ==> r is None,
        line@ == variable@ ==> r is None,
{
    reveal_strlit("=");
    reveal_strlit("+=");
    let (s, v) = (line@, variable@);
    if text::starts_with(s, v) {
        let rest = s.subrange(v.len() as int, s.len() as int);
        if s == v + "="@ + value {
            assert(rest =~= "="@ + value);
            assert(rest[0] == '=');
            assert(text::trimmed_start(rest) == rest);
            if text::starts_with(rest, "+="@) {
                assert(rest.subrange(0, 2)[0] == rest[0]);
            }
            assert(rest.subrange(0, 1) =~= "="@);
            assert(rest.subrange(1, rest.len() as int) =~= value);
        }
        if s == v + "+="@ + value {
            assert(rest =~= "+="@ + value);
            assert(rest[0] == '+');
            assert(text::trimmed_start(rest) == rest);
            assert(rest.subrange(0, 2) =~= "+="@);
            assert(rest.subrange(2, rest.len() as int) =~= value);
        }
        if s == v {
            assert(rest.len() == 0);
        }
    }
    if s == v + "="@ + value || s == v + "+="@ + value || s == v {
        assert(s.subrange(0, v.len() as int) =~= v);
    }
}

proof fn lemma_with_sources(out: Seq<Seq<char>>, words: Seq<Seq<char>>, root: Seq<char>)
    ensures
        ({
            let v = makefile::with_sources(out, words, root);
            &&& v.len() >= out.len()
            &&& v.subrange(0, out.len() as int) == out
            &&& forall|k: int|
                0 <= k < words.len() && makefile::token_source(#[trigger] words[k], root) is Some
                    ==> paths::has_name(
                    Collation::Path,
                    v,
                    makefile::token_source(words[k], root)->0,
                )
            &&& forall|i: int|
                out.len() <= i < v.len() ==> exists|k: int|
                    0 <= k < words.len() && makefile::token_source(#[trigger] words[k], root)
                        == Some(#[trigger] v[i])
        }),
    decreases words.len(),
{
    let v = makefile::with_sources(out, words, root);
    if words.len() > 0 {
        let u = words.drop_last();
        lemma_with_sources(out, u, root);
        let w = makefile::with_sources(out, u, root);
        assert(v.subrange(0, out.len() as int) =~= out) by {
            assert(w.subrange(0, out.len() as int) == out);
            assert forall|i: int| 0 <= i < out.len() implies v[i] == #[trigger] out[i] by {
                assert(w.subrange(0, out.len() as int)[i] == w[i]);
            }
        }
        assert forall|k: int|
            0 <= k < words.len() && makefile::token_source(
                #[trigger] words[k],
                root,
            ) is Some implies paths::has_name(
            Collation::Path,
            v,
            makefile::token_source(words[k], root)->0,
        ) by {
            let p = makefile::token_source(words[k], root)->0;
            if k < u.len() {
                assert(u[k] == words[k]);
                let i = choose|i: int|
                    0 <= i < w.len() && paths::same_name(Collation::Path, #[trigger] w[i], p);
                assert(paths::same_name(Collation::Path, v[i], p));
            } else if paths::has_name(Collation::Path, w, p) {
            } else {
                assert(paths::same_name(Collation::Path, v[w.len() as int], p));
            }
        }
        assert forall|i: int| out.len() <= i < v.len() implies exists|k: int|
            0 <= k < words.len() && makefile::token_source(#[trigger] words[k], root) == Some(
                #[trigger] v[i],
            ) by {
            if i < w.len() {
                assert(w[i] == v[i]);
                let k = choose|k: int|
                    0 <= k < u.len() && makefile::token_source(#[trigger] u[k], root) == Some(w[i]);
                assert(words[k] == u[k]);
            } else {
                assert(words[words.len() - 1] == words.last());
            }
        }
    } else {
        assert(v.subrange(0, out.len() as int) =~= out);
    }
}

/// Sources that a line names are added behind those that are there: each word that names
/// one, below the root, is there then, and nothing is added that no word names.
pub proof fn law_sources_of_a_line(
    fragment: &[char],
    root: &str,
    out: &mut Vec<String>,
    k: int,
    rel: Seq<char>,
)
    requires
        call_ensures(makefile::emit_lisp_source_paths, (fragment, root, out), ()),
        0 <= k < makefile::tokens(fragment@).len(),
        makefile::tokens(fragment@)[k] == "$(lisp)/"@ + rel,
        paths::extension_of(paths::joined_path(root@, rel)) != Some("elc"@),
    ensures
        final(out)@.len() >= old(out)@.len(),
        text::texts(final(out)@).subrange(0, old(out)@.len() as int) == text::texts(old(out)@),
        paths::has_name(
            Collation::Path,
            text::texts(final(out)@),
            paths::joined_path(root@, rel),
        ),
{
    let words = makefile::tokens(fragment@);
    lemma_with_sources(text::texts(old(out)@), words, root@);
    let (w, p) = (words[k], "$(lisp)/"@);
    assert(w.subrange(0, p.len() as int) =~= p);
    assert(w.subrange(p.len() as int, w.len() as int) =~= rel);
    assert(makefile::token_source(w, root@) == Some(paths::joined_path(root@, rel)));
}

} // verus!
