//! What a job is for: it is told of every file that it has to work on, and what it is told
//! reads back as what was meant.
use vstd::prelude::*;

use crate::build_options::FreshBuildOptions;
use crate::lisp_jobs;
use crate::lisp_jobs::PipelinePaths;
use crate::paths;
use crate::text;

verus! {

/// Batches hold what is to be compiled, all of it, in its order; each is full but the last,
/// and none is empty. With native compilation each source is a batch of its own.
pub proof fn law_batches_hold_the_sources(
    native: bool,
    sources: &Vec<String>,
    r: Vec<Vec<String>>,
)
    requires
        call_ensures(lisp_jobs::compile_main_batches, (native, sources), r),
    ensures
        lisp_jobs::flattened(lisp_jobs::text_lists(r@)) == text::texts(sources@),
        forall|i: int| 0 <= i < r@.len() ==> 1 <= (#[trigger] r@[i])@.len() <= 16,
        native ==> forall|i: int| 0 <= i < r@.len() ==> (#[trigger] r@[i])@.len() == 1,
        !native ==> forall|i: int| 0 <= i < r@.len() - 1 ==> (#[trigger] r@[i])@.len() == 16,
{
    let v = text::texts(sources@);
    let n = if native {
        1int
    } else {
        16int
    };
    let c = lisp_jobs::chunks(v, n);
    lisp_jobs::law_batches(v, n);
    lemma_full(v, n);
    assert forall|i: int| 0 <= i < r@.len() implies 1 <= (#[trigger] r@[i])@.len() <= n by {
        assert(c[i] == text::texts(r@[i]@));
        assert(c[i].len() == r@[i]@.len());
    }
    assert forall|i: int| 0 <= i < r@.len() - 1 implies (#[trigger] r@[i])@.len() == n by {
        assert(c[i] == text::texts(r@[i]@));
        assert(c[i].len() == n);
    }
}

proof fn lemma_full(v: Seq<Seq<char>>, n: int)
    requires
        n >= 1,
    ensures
        forall|i: int|
            0 <= i < lisp_jobs::chunks(v, n).len() - 1 ==> (#[trigger] lisp_jobs::chunks(
                v,
                n,
            )[i]).len() == n,
    decreases v.len(),
{
    if v.len() > n {
        let rest = v.subrange(n, v.len() as int);
        lemma_full(rest, n);
        let (c, d) = (lisp_jobs::chunks(v, n), lisp_jobs::chunks(rest, n));
        assert(c == seq![v.subrange(0, n)] + d);
        assert forall|i: int| 0 <= i < c.len() - 1 implies (#[trigger] c[i]).len() == n by {
            if i > 0 {
                assert(c[i] == d[i - 1]);
            }
        }
    }
}

/// The last of the arguments are others.
pub open spec fn ends_in(v: Seq<Seq<char>>, tail: Seq<Seq<char>>) -> bool {
    tail.len() <= v.len() && v.subrange(v.len() - tail.len(), v.len() as int) == tail
}

/// An argument is right before another part of them.
pub open spec fn calls(v: Seq<Seq<char>>, tail: Seq<Seq<char>>, function: Seq<char>) -> bool {
    let k = v.len() - tail.len();
    k >= 2 && v[k - 2] == "-f"@ && v[k - 1] == function
}

/// A compiler gets the sources at the end of its arguments, in their order, right behind
/// the function that compiles them; it runs in batch mode.
pub proof fn law_compiler_gets_the_sources(
    native: bool,
    sources: &Vec<String>,
    main: Vec<String>,
    first: Vec<String>,
    source: &str,
    preloaded: Vec<String>,
    one: Vec<String>,
)
    requires
        call_ensures(lisp_jobs::compile_main_args_for_sources, (native, sources), main),
        call_ensures(lisp_jobs::compile_first_args_for_sources, (native, sources), first),
        call_ensures(lisp_jobs::preloaded_lisp_args_for_source, (native, source), preloaded),
        call_ensures(lisp_jobs::compile_main_args_for_source, (native, source), one),
    ensures
        ({
            let s = text::texts(sources@);
            let compiler = if native {
                "batch-byte+native-compile"@
            } else {
                "batch-byte-compile"@
            };
            &&& ends_in(text::texts(main@), s) && calls(text::texts(main@), s, compiler)
            &&& ends_in(text::texts(first@), s) && calls(
                text::texts(first@),
                s,
                "batch-byte-compile"@,
            )
            &&& ends_in(text::texts(preloaded@), seq![source@]) && calls(
                text::texts(preloaded@),
                seq![source@],
                compiler,
            )
            &&& ends_in(text::texts(one@), seq![source@]) && calls(
                text::texts(one@),
                seq![source@],
                compiler,
            )
            &&& text::texts(first@)[0] == "--batch"@
        }),
{
    let s = text::texts(sources@);
    let (a, b) = (text::texts(main@), text::texts(first@));
    let (c, d) = (text::texts(preloaded@), text::texts(one@));
    let h = lisp_jobs::compile_head();
    assert(a.subrange(a.len() - s.len(), a.len() as int) =~= s);
    assert(b.subrange(b.len() - s.len(), b.len() as int) =~= s);
    assert(c.subrange(c.len() - 1, c.len() as int) =~= seq![source@]);
    assert(d.subrange(d.len() - 1, d.len() as int) =~= seq![source@]);
    if native {
        let f = seq!["-l"@, "comp"@, "-f"@, "batch-byte+native-compile"@];
        assert(a =~= h + f + s);
        assert(a[h.len() as int + 2] == f[2] && a[h.len() as int + 3] == f[3]);
        assert(d[h.len() as int + 2] == f[2] && d[h.len() as int + 3] == f[3]);
    } else {
        let f = seq!["-f"@, "batch-byte-compile"@];
        assert(a =~= h + f + s);
        assert(a[h.len() as int] == f[0] && a[h.len() as int + 1] == f[1]);
        assert(d[h.len() as int] == f[0] && d[h.len() as int + 1] == f[1]);
    }
}

/// The text that a Lisp reader takes from what stands between the quotes of a string: a
/// backslash stands for the character behind it.
pub open spec fn read_string(t: Seq<char>) -> Seq<char>
    decreases t.len(),
{
    if t.len() == 0 {
        Seq::empty()
    } else if t[0] == '\\' && t.len() >= 2 {
        seq![t[1]] + read_string(t.subrange(2, t.len() as int))
    } else {
        seq![t[0]] + read_string(t.subrange(1, t.len() as int))
    }
}

proof fn lemma_escaped_first(s: Seq<char>)
    requires
        s.len() > 0,
    ensures
        lisp_jobs::escaped_text(s) == lisp_jobs::escaped(s[0]) + lisp_jobs::escaped_text(
            s.subrange(1, s.len() as int),
        ),
    decreases s.len(),
{
    let t = s.subrange(1, s.len() as int);
    if s.len() == 1 {
        assert(s.drop_last() =~= Seq::<char>::empty());
        assert(t =~= Seq::<char>::empty());
        assert(lisp_jobs::escaped_text(s.drop_last()) =~= Seq::<char>::empty());
        assert(lisp_jobs::escaped_text(s) =~= lisp_jobs::escaped(s[0])
            + lisp_jobs::escaped_text(t));
    } else {
        lemma_escaped_first(s.drop_last());
        assert(s.drop_last().subrange(1, s.drop_last().len() as int) =~= t.drop_last());
        assert(lisp_jobs::escaped_text(s) =~= lisp_jobs::escaped(s[0])
            + lisp_jobs::escaped_text(t));
    }
}

proof fn lemma_read_string(s: Seq<char>)
    ensures
        read_string(lisp_jobs::escaped_text(s)) == s,
        forall|i: int|
            0 <= i < lisp_jobs::escaped_text(s).len() && lisp_jobs::escaped_text(s)[i] == '"' ==> i
                > 0 && #[trigger] lisp_jobs::escaped_text(s)[i - 1] == '\\',
    decreases s.len(),
{
    let e = lisp_jobs::escaped_text(s);
    if s.len() > 0 {
        let t = s.subrange(1, s.len() as int);
        lemma_escaped_first(s);
        lemma_read_string(t);
        let f = lisp_jobs::escaped_text(t);
        let h = lisp_jobs::escaped(s[0]);
        assert(e == h + f);
        assert(e.subrange(h.len() as int, e.len() as int) =~= f);
        assert(seq![s[0]] + t =~= s);
        assert forall|i: int| 0 <= i < e.len() && e[i] == '"' implies i > 0 && #[trigger] e[i - 1]
            == '\\' by {
            if i >= h.len() {
                assert(f[i - h.len()] == '"');
                assert(f[i - h.len() - 1] == '\\');
            }
        }
    }
}

/// A text as a Lisp string is in quotes, and a reader gets the text back from it: no quote
/// within it ends it.
pub proof fn law_lisp_string_reads_back(s: &str, r: String)
    requires
        call_ensures(lisp_jobs::elisp_string_literal, (s,), r),
    ensures
        r@.len() >= 2 && r@[0] == '"' && r@.last() == '"',
        read_string(r@.subrange(1, r@.len() - 1)) == s@,
        forall|i: int| 1 < i < r@.len() - 1 && r@[i] == '"' ==> #[trigger] r@[i - 1] == '\\',
{
    lemma_read_string(s@);
    let e = lisp_jobs::escaped_text(s@);
    assert(r@.subrange(1, r@.len() - 1) =~= e);
    assert forall|i: int| 1 < i < r@.len() - 1 && r@[i] == '"' implies #[trigger] r@[i - 1]
        == '\\' by {
        assert(e[i - 1] == '"');
        assert(e[i - 2] == '\\');
    }
}

/// What a shell is within.
pub enum Quotes {
    Outside,
    Single,
    Double,
}

/// The word that a shell takes from a text without white space outside of quotes.
pub open spec fn read_word(t: Seq<char>, q: Quotes) -> Seq<char>
    decreases t.len(),
{
    if t.len() == 0 {
        Seq::empty()
    } else {
        let rest = t.subrange(1, t.len() as int);
        match q {
            Quotes::Outside => if t[0] == '\'' {
                read_word(rest, Quotes::Single)
            } else if t[0] == '"' {
                read_word(rest, Quotes::Double)
            } else {
                seq![t[0]] + read_word(rest, Quotes::Outside)
            },
            Quotes::Single => if t[0] == '\'' {
                read_word(rest, Quotes::Outside)
            } else {
                seq![t[0]] + read_word(rest, Quotes::Single)
            },
            Quotes::Double => if t[0] == '"' {
                read_word(rest, Quotes::Outside)
            } else {
                seq![t[0]] + read_word(rest, Quotes::Double)
            },
        }
    }
}

proof fn lemma_quoted_first(s: Seq<char>)
    requires
        s.len() > 0,
    ensures
        lisp_jobs::quoted_chars(s) == lisp_jobs::quoted_char(s[0]) + lisp_jobs::quoted_chars(
            s.subrange(1, s.len() as int),
        ),
    decreases s.len(),
{
    let t = s.subrange(1, s.len() as int);
    if s.len() == 1 {
        assert(s.drop_last() =~= Seq::<char>::empty());
        assert(t =~= Seq::<char>::empty());
        assert(lisp_jobs::quoted_chars(s.drop_last()) =~= Seq::<char>::empty());
    } else {
        lemma_quoted_first(s.drop_last());
        assert(s.drop_last().subrange(1, s.drop_last().len() as int) =~= t.drop_last());
    }
    assert(lisp_jobs::quoted_chars(s) =~= lisp_jobs::quoted_char(s[0]) + lisp_jobs::quoted_chars(
        t,
    ));
}

proof fn lemma_read_quoted(s: Seq<char>)
    ensures
        read_word(lisp_jobs::quoted_chars(s) + seq!['\''], Quotes::Single) == s,
    decreases s.len(),
{
    let e = lisp_jobs::quoted_chars(s) + seq!['\''];
    if s.len() == 0 {
        assert(e =~= seq!['\'']);
        assert(e.subrange(1, 1).len() == 0);
        reveal_with_fuel(read_word, 3);
        assert(read_word(e, Quotes::Single) =~= s);
    } else {
        let t = s.subrange(1, s.len() as int);
        lemma_quoted_first(s);
        lemma_read_quoted(t);
        let f = lisp_jobs::quoted_chars(t) + seq!['\''];
        let h = lisp_jobs::quoted_char(s[0]);
        assert(e =~= h + f);
        assert(seq![s[0]] + t =~= s);
        if s[0] == '\'' {
            let e1 = e.subrange(1, e.len() as int);
            let e2 = e1.subrange(1, e1.len() as int);
            let e3 = e2.subrange(1, e2.len() as int);
            let e4 = e3.subrange(1, e3.len() as int);
            let e5 = e4.subrange(1, e4.len() as int);
            assert(e5 =~= f);
            assert(e[0] == '\'' && e1[0] == '"' && e2[0] == '\'' && e3[0] == '"' && e4[0] == '\'');
            assert(read_word(e, Quotes::Single) == read_word(e1, Quotes::Outside));
            assert(read_word(e1, Quotes::Outside) == read_word(e2, Quotes::Double));
            assert(read_word(e2, Quotes::Double) == seq!['\''] + read_word(e3, Quotes::Double));
            assert(read_word(e3, Quotes::Double) == read_word(e4, Quotes::Outside));
            assert(read_word(e4, Quotes::Outside) == read_word(e5, Quotes::Single));
        } else {
            assert(e.subrange(1, e.len() as int) =~= f);
        }
    }
}

proof fn lemma_read_plain(s: Seq<char>)
    requires
        forall|i: int| 0 <= i < s.len() ==> #[trigger] s[i] != '\'' && s[i] != '"',
    ensures
        read_word(s, Quotes::Outside) == s,
    decreases s.len(),
{
    if s.len() > 0 {
        let t = s.subrange(1, s.len() as int);
        assert forall|i: int| 0 <= i < t.len() implies #[trigger] t[i] != '\'' && t[i] != '"' by {
            assert(t[i] == s[i + 1]);
        }
        lemma_read_plain(t);
        assert(s[0] != '\'' && s[0] != '"');
        assert(seq![s[0]] + t =~= s);
    }
}

/// A word that is quoted for a shell is read back by it as the word, even an empty one; and
/// white space and what means something to a shell stands in quotes only.
pub proof fn law_shell_word_reads_back(s: &str, r: String)
    requires
        call_ensures(lisp_jobs::shell_quote, (s,), r),
    ensures
        read_word(r@, Quotes::Outside) == s@,
        r@.len() > 0,
        r@[0] == '\'' || forall|i: int|
            0 <= i < r@.len() ==> !text::is_space(#[trigger] r@[i]) && r@[i] != '$' && r@[i] != '`'
                && r@[i] != ';' && r@[i] != '&' && r@[i] != '|' && r@[i] != '<' && r@[i] != '>'
                && r@[i] != '\\' && r@[i] != '*' && r@[i] != '?',
{
    let t = s@;
    if t.len() == 0 || exists|i: int| 0 <= i < t.len() && lisp_jobs::needs_quote(#[trigger] t[i]) {
        lemma_read_quoted(t);
        assert(r@[0] == '\'');
        assert(r@.subrange(1, r@.len() as int) =~= lisp_jobs::quoted_chars(t) + seq!['\'']);
    } else {
        assert forall|i: int| 0 <= i < t.len() implies #[trigger] t[i] != '\'' && t[i] != '"' by {
            assert(!lisp_jobs::needs_quote(t[i]));
        }
        lemma_read_plain(t);
        assert forall|i: int| 0 <= i < r@.len() implies !text::is_space(#[trigger] r@[i]) && r@[i]
            != '$' && r@[i] != '`' && r@[i] != ';' && r@[i] != '&' && r@[i] != '|' && r@[i] != '<'
            && r@[i] != '>' && r@[i] != '\\' && r@[i] != '*' && r@[i] != '?' by {
            assert(!lisp_jobs::needs_quote(t[i]));
        }
    }
}

/// The places of a build: the binaries below the directory for them, Lisp and data below
/// the runtime root, and what generates them below the repository.
pub proof fn law_places_of_a_build(o: &FreshBuildOptions, suffix: &str, r: PipelinePaths)
    requires
        call_ensures(lisp_jobs::pipeline_paths, (o, suffix), r),
    ensures
        r.final_bin@ == paths::joined_path(o.bin_dir@, "neomacs"@ + suffix@),
        r.bootstrap@ == paths::joined_path(o.bin_dir@, "bootstrap-neomacs"@ + suffix@),
        r.temacs@ == paths::joined_path(o.bin_dir@, "neomacs-temacs"@ + suffix@),
        r.lisp_root@ == paths::joined_path(o.runtime_root@, "lisp"@),
        r.etc_root@ == paths::joined_path(o.runtime_root@, "etc"@),
        r.leim_root@ == paths::joined_path(o.repo_root@, "leim"@),
{
}

/// The environment of a dump: what it had, and the preload switch where that was asked for.
pub proof fn law_environment_of_a_dump(
    o: &FreshBuildOptions,
    base: &Vec<(String, String)>,
    r: Vec<(String, String)>,
    q: Vec<(String, String)>,
)
    requires
        call_ensures(lisp_jobs::aot_preload_dump_envs, (o, base), r),
        call_ensures(lisp_jobs::aot_preload_dry_run_envs, (base,), q),
    ensures
        !o.aot_preload ==> lisp_jobs::env_texts(r@) == lisp_jobs::env_texts(base@),
        o.aot_preload ==> r@.len() == base@.len() + 1 && r@.last().0@ == "NEOVM_AOT_PRELOAD"@
            && r@.last().1@ == "1"@,
        q@.len() == base@.len() + 2,
        q@[base@.len() as int].0@ == "NEOVM_AOT_PRELOAD"@,
        q@.last().0@ == "NEOVM_AOT_PRELOAD_DRY_RUN"@,
        forall|i: int|
            0 <= i < base@.len() ==> (#[trigger] q@[i]).0@ == base@[i].0@ && q@[i].1@
                == base@[i].1@,
{
    let (e, f, b) = (
        lisp_jobs::env_texts(r@),
        lisp_jobs::env_texts(q@),
        lisp_jobs::env_texts(base@),
    );
    assert(e.len() == r@.len() && f.len() == q@.len() && b.len() == base@.len());
    if o.aot_preload {
        assert(e[b.len() as int] == (r@[b.len() as int].0@, r@[b.len() as int].1@));
    }
    assert(f[b.len() as int] == (q@[b.len() as int].0@, q@[b.len() as int].1@));
    assert(f[b.len() as int + 1] == (q@[b.len() as int + 1].0@, q@[b.len() as int + 1].1@));
    assert forall|i: int| 0 <= i < base@.len() implies (#[trigger] q@[i]).0@ == base@[i].0@
        && q@[i].1@ == base@[i].1@ by {
        assert(f[i] == b[i]);
    }
}

} // verus!
