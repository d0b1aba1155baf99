//! File names as text: components, extensions, joining, and the order in which
//! lists of names are kept.
//!
//! A path is a text in which `/` separates the components. Two paths are the
//! same path where their components agree.
use vstd::prelude::*;
use vstd::slice::slice_subrange;
use vstd::string::StringExecFns;

use crate::text;

verus! {

/// How names in a list are told apart and ordered: character by character, or
/// component by component.
#[derive(Clone, Copy, Debug, PartialEq, Eq, Structural)]
pub enum Collation {
    Text,
    Path,
}

/// A path component that only says where its neighbours start from.
pub open spec fn is_dot(s: Seq<char>) -> bool {
    s =~= seq!['.']
}

pub open spec fn is_dot_dot(s: Seq<char>) -> bool {
    s =~= seq!['.', '.']
}

pub open spec fn is_root(s: Seq<char>) -> bool {
    s =~= seq!['/']
}

/// The pieces that name something: neither empty nor a dot.
pub open spec fn named_pieces(v: Seq<Seq<char>>) -> Seq<Seq<char>> {
    v.filter(|p: Seq<char>| p.len() > 0 && !is_dot(p))
}

/// The components of a path: the root, a leading dot, and the named pieces.
pub open spec fn components_of(s: Seq<char>) -> Seq<Seq<char>> {
    let pieces = text::split_at_char(s, '/');
    (if s.len() > 0 && s[0] == '/' {
        seq![seq!['/']]
    } else {
        Seq::empty()
    }) + (if is_dot(pieces[0]) {
        seq![seq!['.']]
    } else {
        Seq::empty()
    }) + named_pieces(pieces)
}

/// Root, dot and dot-dot come before every name.
pub open spec fn component_rank(c: Seq<char>) -> u64 {
    if is_root(c) {
        1
    } else if is_dot(c) {
        2
    } else if is_dot_dot(c) {
        3
    } else {
        4
    }
}

/// The characters of `s` as numbers, each raised by one so that zero can end
/// the list.
pub open spec fn char_codes(s: Seq<char>) -> Seq<u64> {
    Seq::new(s.len(), |i: int| ((s[i] as u32) as u64 + 1) as u64)
}

pub open spec fn component_key(c: Seq<char>) -> Seq<u64> {
    seq![component_rank(c)] + char_codes(c) + seq![0u64]
}

/// The keys of the components, one after the other.
pub open spec fn components_key(v: Seq<Seq<char>>) -> Seq<u64>
    decreases v.len(),
{
    if v.len() == 0 {
        Seq::empty()
    } else {
        components_key(v.drop_last()) + component_key(v.last())
    }
}

/// What a name is ordered by: its characters, or its components with the
/// shorter of two that agree first.
pub open spec fn key_of(order: Collation, s: Seq<char>) -> Seq<u64> {
    match order {
        Collation::Text => char_codes(s),
        Collation::Path => components_key(components_of(s)),
    }
}

/// Lexicographic order.
pub open spec fn lex_lt(a: Seq<u64>, b: Seq<u64>) -> bool
    decreases a.len(),
{
    if b.len() == 0 {
        false
    } else if a.len() == 0 {
        true
    } else if a[0] != b[0] {
        a[0] < b[0]
    } else {
        lex_lt(a.subrange(1, a.len() as int), b.subrange(1, b.len() as int))
    }
}

pub open spec fn before(order: Collation, a: Seq<char>, b: Seq<char>) -> bool {
    lex_lt(key_of(order, a), key_of(order, b))
}

pub open spec fn same_name(order: Collation, a: Seq<char>, b: Seq<char>) -> bool {
    key_of(order, a) == key_of(order, b)
}

pub proof fn lemma_lex_irreflexive(a: Seq<u64>)
    ensures
        !lex_lt(a, a),
    decreases a.len(),
{
    if a.len() > 0 {
        lemma_lex_irreflexive(a.subrange(1, a.len() as int));
    }
}

pub proof fn lemma_lex_transitive(a: Seq<u64>, b: Seq<u64>, c: Seq<u64>)
    requires
        lex_lt(a, b),
        lex_lt(b, c),
    ensures
        lex_lt(a, c),
    decreases a.len(),
{
    if a.len() > 0 && b.len() > 0 && c.len() > 0 && a[0] == b[0] && b[0] == c[0] {
        lemma_lex_transitive(
            a.subrange(1, a.len() as int),
            b.subrange(1, b.len() as int),
            c.subrange(1, c.len() as int),
        );
    }
}

pub proof fn lemma_lex_total(a: Seq<u64>, b: Seq<u64>)
    ensures
        lex_lt(a, b) || lex_lt(b, a) || a == b,
    decreases a.len(),
{
    if a.len() > 0 && b.len() > 0 && a[0] == b[0] {
        let x = a.subrange(1, a.len() as int);
        let y = b.subrange(1, b.len() as int);
        lemma_lex_total(x, y);
        if x == y {
            assert(a =~= seq![a[0]] + x);
            assert(b =~= seq![b[0]] + y);
        }
    } else if a.len() == 0 && b.len() == 0 {
        assert(a =~= b);
    }
}

/// The list in which `s` is put behind the last name that is not after it.
pub open spec fn placed(order: Collation, v: Seq<Seq<char>>, s: Seq<char>) -> Seq<Seq<char>>
    decreases v.len(),
{
    if v.len() == 0 || !before(order, s, v.last()) {
        v.push(s)
    } else {
        placed(order, v.drop_last(), s).push(v.last())
    }
}

/// The names of `v` in order; equal ones keep the order they had.
pub open spec fn in_order(order: Collation, v: Seq<Seq<char>>) -> Seq<Seq<char>>
    decreases v.len(),
{
    if v.len() == 0 {
        Seq::empty()
    } else {
        placed(order, in_order(order, v.drop_last()), v.last())
    }
}

/// The list has a name with the key of `s`.
pub open spec fn has_name(order: Collation, v: Seq<Seq<char>>, s: Seq<char>) -> bool {
    exists|i: int| 0 <= i < v.len() && same_name(order, #[trigger] v[i], s)
}

/// `s` put in its place, unless a name with its key is there.
pub open spec fn with_name(order: Collation, v: Seq<Seq<char>>, s: Seq<char>) -> Seq<Seq<char>> {
    if has_name(order, v, s) {
        v
    } else {
        placed(order, v, s)
    }
}

/// The names of `v` in order, the first of each key.
pub open spec fn name_set(order: Collation, v: Seq<Seq<char>>) -> Seq<Seq<char>>
    decreases v.len(),
{
    if v.len() == 0 {
        Seq::empty()
    } else {
        with_name(order, name_set(order, v.drop_last()), v.last())
    }
}

/// Each name is before every later one.
pub open spec fn strictly_ordered(order: Collation, v: Seq<Seq<char>>) -> bool {
    forall|i: int, j: int| 0 <= i < j < v.len() ==> before(order, #[trigger] v[i], #[trigger] v[j])
}

/// No name is before an earlier one.
pub open spec fn ordered(order: Collation, v: Seq<Seq<char>>) -> bool {
    forall|i: int, j: int|
        0 <= i < j < v.len() ==> !before(order, #[trigger] v[j], #[trigger] v[i])
}

proof fn lemma_not_before_transitive(order: Collation, a: Seq<char>, b: Seq<char>, c: Seq<char>)
    requires
        !before(order, b, a),
        !before(order, c, b),
    ensures
        !before(order, c, a),
{
    if before(order, c, a) {
        lemma_lex_total(key_of(order, a), key_of(order, b));
        if key_of(order, a) != key_of(order, b) {
            lemma_lex_transitive(key_of(order, c), key_of(order, a), key_of(order, b));
        }
    }
}

proof fn lemma_placed_ordered(order: Collation, v: Seq<Seq<char>>, s: Seq<char>)
    requires
        ordered(order, v),
    ensures
        ordered(order, placed(order, v, s)),
        placed(order, v, s).to_multiset() == v.to_multiset().insert(s),
        placed(order, v, s).len() == v.len() + 1,
        forall|x: Seq<char>| #[trigger] placed(order, v, s).contains(x) <==> v.contains(x) || x == s,
    decreases v.len(),
{
    broadcast use vstd::seq_lib::group_to_multiset_ensures;
    if v.len() == 0 || !before(order, s, v.last()) {
        let r = v.push(s);
        assert forall|i: int, j: int| 0 <= i < j < r.len() implies !before(
            order,
            #[trigger] r[j],
            #[trigger] r[i],
        ) by {
            if j == v.len() && i < v.len() - 1 {
                lemma_not_before_transitive(order, v[i], v.last(), s);
            }
        }
        assert forall|x: Seq<char>| #[trigger] r.contains(x) <==> v.contains(x) || x == s by {
            if v.contains(x) {
                let i = choose|i: int| 0 <= i < v.len() && v[i] == x;
                assert(r[i] == x);
            }
            if x == s {
                assert(r[v.len() as int] == x);
            }
        }
    } else {
        let w = v.drop_last();
        let p = placed(order, w, s);
        lemma_placed_ordered(order, w, s);
        let r = p.push(v.last());
        assert forall|i: int, j: int| 0 <= i < j < r.len() implies !before(
            order,
            #[trigger] r[j],
            #[trigger] r[i],
        ) by {
            if j == p.len() {
                assert(p.contains(p[i]));
                if p[i] == s {
                    lemma_lex_irreflexive(key_of(order, s));
                    if before(order, v.last(), s) {
                        lemma_lex_transitive(
                            key_of(order, s),
                            key_of(order, v.last()),
                            key_of(order, s),
                        );
                    }
                } else {
                    let k = choose|k: int| 0 <= k < w.len() && w[k] == p[i];
                    assert(v[k] == p[i]);
                    assert(!before(order, v[v.len() - 1], v[k]));
                }
            }
        }
        assert(v =~= w.push(v.last()));
        assert(r.to_multiset() =~= v.to_multiset().insert(s));
        assert forall|x: Seq<char>| #[trigger] r.contains(x) <==> v.contains(x) || x == s by {
            if r.contains(x) {
                let i = choose|i: int| 0 <= i < r.len() && r[i] == x;
                if i < p.len() {
                    assert(p.contains(x));
                    if w.contains(x) {
                        let k = choose|k: int| 0 <= k < w.len() && w[k] == x;
                        assert(v[k] == x);
                    }
                } else {
                    assert(v[v.len() - 1] == x);
                }
            }
            if v.contains(x) {
                let k = choose|k: int| 0 <= k < v.len() && v[k] == x;
                if k < w.len() {
                    assert(w[k] == x);
                    assert(p.contains(x));
                    let i = choose|i: int| 0 <= i < p.len() && p[i] == x;
                    assert(r[i] == x);
                } else {
                    assert(r[p.len() as int] == x);
                }
            }
            if x == s {
                assert(p.contains(x));
                let i = choose|i: int| 0 <= i < p.len() && p[i] == x;
                assert(r[i] == x);
            }
        }
    }
}

/// A sorted list is in order and holds what the list held, as often.
pub proof fn law_in_order(order: Collation, v: Seq<Seq<char>>)
    ensures
        ordered(order, in_order(order, v)),
        in_order(order, v).to_multiset() == v.to_multiset(),
        in_order(order, v).len() == v.len(),
    decreases v.len(),
{
    broadcast use vstd::seq_lib::group_to_multiset_ensures;
    if v.len() > 0 {
        law_in_order(order, v.drop_last());
        lemma_placed_ordered(order, in_order(order, v.drop_last()), v.last());
        assert(v =~= v.drop_last().push(v.last()));
    } else {
        assert(v =~= Seq::empty());
    }
}

/// A set of names is strictly ordered, has the names of the list and no others.
pub proof fn law_name_set(order: Collation, v: Seq<Seq<char>>)
    ensures
        strictly_ordered(order, name_set(order, v)),
        forall|x: Seq<char>| #[trigger]
            has_name(order, name_set(order, v), x) <==> has_name(order, v, x),
        forall|x: Seq<char>| #[trigger] name_set(order, v).contains(x) ==> v.contains(x),
    decreases v.len(),
{
    if v.len() > 0 {
        let w = v.drop_last();
        let s = v.last();
        let t = name_set(order, w);
        law_name_set(order, w);
        assert(ordered(order, t)) by {
            assert forall|i: int, j: int| 0 <= i < j < t.len() implies !before(
                order,
                #[trigger] t[j],
                #[trigger] t[i],
            ) by {
                if before(order, t[j], t[i]) {
                    lemma_lex_transitive(
                        key_of(order, t[i]),
                        key_of(order, t[j]),
                        key_of(order, t[i]),
                    );
                    lemma_lex_irreflexive(key_of(order, t[i]));
                }
            }
        }
        lemma_placed_ordered(order, t, s);
        if !has_name(order, t, s) {
            lemma_placed_strict(order, t, s);
        }
        let r = name_set(order, v);
        assert forall|x: Seq<char>| #[trigger] has_name(order, r, x) <==> has_name(order, v, x) by {
            if has_name(order, r, x) {
                let i = choose|i: int| 0 <= i < r.len() && same_name(order, #[trigger] r[i], x);
                assert(r.contains(r[i]));
                if r[i] == s {
                    assert(same_name(order, v[v.len() - 1], x));
                } else {
                    let k = choose|k: int| 0 <= k < t.len() && t[k] == r[i];
                    assert(same_name(order, t[k], x));
                    assert(has_name(order, t, x));
                    let m = choose|m: int| 0 <= m < w.len() && same_name(order, #[trigger] w[m], x);
                    assert(v[m] == w[m]);
                }
            }
            if has_name(order, v, x) {
                let m = choose|m: int| 0 <= m < v.len() && same_name(order, #[trigger] v[m], x);
                if m < w.len() {
                    assert(w[m] == v[m]);
                    assert(has_name(order, w, x));
                    assert(has_name(order, t, x));
                    let k = choose|k: int| 0 <= k < t.len() && same_name(order, #[trigger] t[k], x);
                    assert(t.contains(t[k]));
                    assert(r.contains(t[k]));
                    let i = choose|i: int| 0 <= i < r.len() && r[i] == t[k];
                    assert(same_name(order, r[i], x));
                } else if has_name(order, t, s) {
                    let k = choose|k: int| 0 <= k < t.len() && same_name(order, #[trigger] t[k], s);
                    assert(same_name(order, r[k], x));
                } else {
                    assert(r.contains(s));
                    let i = choose|i: int| 0 <= i < r.len() && r[i] == s;
                    assert(same_name(order, r[i], x));
                }
            }
        }
        assert forall|x: Seq<char>| #[trigger] r.contains(x) implies v.contains(x) by {
            if x != s {
                assert(t.contains(x));
                assert(w.contains(x));
                let k = choose|k: int| 0 <= k < w.len() && w[k] == x;
                assert(v[k] == x);
            } else {
                assert(v[v.len() - 1] == x);
            }
        }
    }
}

proof fn lemma_placed_strict(order: Collation, v: Seq<Seq<char>>, s: Seq<char>)
    requires
        strictly_ordered(order, v),
        !has_name(order, v, s),
    ensures
        strictly_ordered(order, placed(order, v, s)),
        forall|x: Seq<char>| #[trigger] placed(order, v, s).contains(x) ==> v.contains(x) || x == s,
    decreases v.len(),
{
    if v.len() == 0 || !before(order, s, v.last()) {
        let r = v.push(s);
        assert forall|i: int, j: int| 0 <= i < j < r.len() implies before(
            order,
            #[trigger] r[i],
            #[trigger] r[j],
        ) by {
            if j == v.len() {
                lemma_lex_total(key_of(order, v.last()), key_of(order, s));
                assert(!same_name(order, v[v.len() - 1], s));
                if i < v.len() - 1 {
                    assert(before(order, v[i], v[v.len() - 1]));
                    lemma_lex_transitive(
                        key_of(order, v[i]),
                        key_of(order, v.last()),
                        key_of(order, s),
                    );
                }
            }
        }
    } else {
        let w = v.drop_last();
        assert forall|i: int| 0 <= i < w.len() implies !same_name(order, #[trigger] w[i], s) by {
            assert(!same_name(order, v[i], s));
        }
        lemma_placed_strict(order, w, s);
        let p = placed(order, w, s);
        let r = p.push(v.last());
        assert forall|i: int, j: int| 0 <= i < j < r.len() implies before(
            order,
            #[trigger] r[i],
            #[trigger] r[j],
        ) by {
            if j == p.len() {
                assert(p.contains(p[i]));
                if p[i] != s {
                    let k = choose|k: int| 0 <= k < w.len() && w[k] == p[i];
                    assert(before(order, v[k], v[v.len() - 1]));
                }
            }
        }
        assert forall|x: Seq<char>| #[trigger] r.contains(x) implies v.contains(x) || x == s by {
            let i = choose|i: int| 0 <= i < r.len() && r[i] == x;
            if i < p.len() {
                assert(p.contains(x));
                if x != s {
                    let k = choose|k: int| 0 <= k < w.len() && w[k] == x;
                    assert(v[k] == x);
                }
            } else {
                assert(v[v.len() - 1] == x);
            }
        }
    }
}


/// A strictly ordered list stays so when a name is put in its place, and gains
/// at most that name.
pub proof fn lemma_set_insert(order: Collation, v: Seq<Seq<char>>, s: Seq<char>)
    requires
        strictly_ordered(order, v),
    ensures
        strictly_ordered(order, with_name(order, v, s)),
        forall|x: Seq<char>| #[trigger]
            with_name(order, v, s).contains(x) <==> v.contains(x) || (x == s && !has_name(
                order,
                v,
                s,
            )),
{
    if !has_name(order, v, s) {
        lemma_placed_strict(order, v, s);
        assert(ordered(order, v)) by {
            assert forall|i: int, j: int| 0 <= i < j < v.len() implies !before(
                order,
                #[trigger] v[j],
                #[trigger] v[i],
            ) by {
                if before(order, v[j], v[i]) {
                    lemma_lex_transitive(
                        key_of(order, v[i]),
                        key_of(order, v[j]),
                        key_of(order, v[i]),
                    );
                    lemma_lex_irreflexive(key_of(order, v[i]));
                }
            }
        }
        lemma_placed_ordered(order, v, s);
    }
}

/// Appending one element to a list filters it last.
pub proof fn lemma_filter_step<A>(v: Seq<A>, i: int, p: spec_fn(A) -> bool)
    requires
        0 <= i < v.len(),
    ensures
        v.subrange(0, i + 1).filter(p) == if p(v[i]) {
            v.subrange(0, i).filter(p).push(v[i])
        } else {
            v.subrange(0, i).filter(p)
        },
{
    reveal(Seq::filter);
    assert(v.subrange(0, i + 1).drop_last() =~= v.subrange(0, i));
}

/// The texts among `v` that `keep` answers yes for, which says what `p` says.
pub(crate) fn kept<F: Fn(&str) -> bool>(
    v: &Vec<String>,
    keep: F,
    Ghost(p): Ghost<spec_fn(Seq<char>) -> bool>,
) -> (r: Vec<String>)
    requires
        forall|s: &str| call_requires(keep, (s,)),
        forall|s: &str, b: bool| call_ensures(keep, (s,), b) ==> b == p(s@),
    ensures
        text::texts(r@) == text::texts(v@).filter(p),
{
    let ghost all = text::texts(v@);
    let mut out: Vec<String> = Vec::new();
    let mut i: usize = 0;
    proof {
        reveal(Seq::filter);
        assert(text::texts(out@) =~= all.subrange(0, 0).filter(p));
    }
    while i < v.len()
        invariant
            i <= v.len(),
            all == text::texts(v@),
            forall|s: &str| call_requires(keep, (s,)),
            forall|s: &str, b: bool| call_ensures(keep, (s,), b) ==> b == p(s@),
            text::texts(out@) == all.subrange(0, i as int).filter(p),
        decreases v.len() - i,
    {
        proof {
            assert(all[i as int] == v@[i as int]@);
            lemma_filter_step(all, i as int, p);
        }
        if keep(v[i].as_str()) {
            let s: String = text::copy(v[i].as_str());
            proof {
                text::lemma_texts_push(out@, s);
            }
            out.push(s);
        }
        i += 1;
    }
    proof {
        assert(all.subrange(0, all.len() as int) =~= all);
    }
    out
}

/// The components of the path `s`.
pub fn components(s: &str) -> (r: Vec<String>)
    ensures
        text::texts(r@) == components_of(s@),
{
    let chars: Vec<char> = text::chars_of(s);
    let pieces: Vec<String> = text::split(chars.as_slice(), '/');
    let ghost all = text::split_at_char(s@, '/');
    let dot: String = text::copy(".");
    let mut out: Vec<String> = Vec::new();
    proof {
        reveal_strlit("/");
        reveal_strlit(".");
        assert(text::texts(out@) =~= Seq::empty());
        assert("."@ =~= seq!['.']);
        assert("/"@ =~= seq!['/']);
    }
    if chars.len() > 0 && chars[0] == '/' {
        proof {
            assert(text::texts(out@).push("/"@) =~= seq![seq!['/']]);
        }
        let root: String = text::copy("/");
        proof {
            text::lemma_texts_push(out@, root);
        }
        out.push(root);
    }
    if pieces.len() > 0 && text::same(pieces[0].as_str(), ".") {
        let ghost so_far = text::texts(out@);
        let head: String = text::copy(".");
        proof {
            text::lemma_texts_push(out@, head);
            assert(so_far.push("."@) =~= so_far + seq![seq!['.']]);
        }
        out.push(head);
    }
    let ghost start = text::texts(out@);
    proof {
        lemma_split_nonempty(s@, '/');
        assert(text::texts(pieces@)[0] == pieces@[0]@);
        assert(is_dot(all[0]) == (all[0] == "."@));
        reveal(Seq::filter);
        assert(named_pieces(all.subrange(0, 0)) =~= Seq::empty());
        assert(start + Seq::<Seq<char>>::empty() =~= start);
        assert(components_of(s@) =~= start + named_pieces(all));
    }
    let mut i: usize = 0;
    while i < pieces.len()
        invariant
            i <= pieces.len(),
            text::texts(pieces@) == all,
            "."@ =~= seq!['.'],
            text::texts(out@) == start + named_pieces(all.subrange(0, i as int)),
        decreases pieces.len() - i,
    {
        let ghost p = |p: Seq<char>| p.len() > 0 && !is_dot(p);
        proof {
            lemma_filter_step(all, i as int, p);
            assert(all[i as int] == pieces@[i as int]@);
        }
        if !pieces[i].as_str().is_empty() && !text::same(pieces[i].as_str(), ".") {
            let piece: String = text::copy(pieces[i].as_str());
            proof {
                text::lemma_texts_push(out@, piece);
                let done = named_pieces(all.subrange(0, i as int));
                assert((start + done).push(piece@) =~= start + done.push(piece@));
            }
            out.push(piece);
        }
        i += 1;
    }
    proof {
        assert(all.subrange(0, all.len() as int) =~= all);
    }
    out
}

pub proof fn lemma_split_nonempty(s: Seq<char>, c: char)
    ensures
        text::split_at_char(s, c).len() > 0,
{
    text::lemma_index_nonneg(s, c);
}

fn push_codes(key: &mut Vec<u64>, s: &[char])
    ensures
        final(key)@ == old(key)@ + char_codes(s@),
{
    let ghost start = key@;
    let mut i: usize = 0;
    while i < s.len()
        invariant
            i <= s.len(),
            key@ == start + char_codes(s@).subrange(0, i as int),
        decreases s.len() - i,
    {
        let c: char = s[i];
        let code: u64 = (c as u32) as u64 + 1;
        proof {
            assert(char_codes(s@).subrange(0, i + 1) =~= char_codes(s@).subrange(0, i as int).push(
                code,
            ));
        }
        key.push(code);
        proof {
            assert(key@ =~= start + char_codes(s@).subrange(0, i + 1));
        }
        i += 1;
    }
    proof {
        assert(char_codes(s@).subrange(0, s@.len() as int) =~= char_codes(s@));
    }
}

/// What `s` is ordered by.
pub fn key(order: Collation, s: &str) -> (r: Vec<u64>)
    ensures
        r@ == key_of(order, s@),
{
    let mut out: Vec<u64> = Vec::new();
    match order {
        Collation::Text => {
            let chars: Vec<char> = text::chars_of(s);
            push_codes(&mut out, chars.as_slice());
            proof {
                assert(out@ =~= char_codes(s@));
            }
        },
        Collation::Path => {
            let parts: Vec<String> = components(s);
            let ghost all = components_of(s@);
            let mut i: usize = 0;
            while i < parts.len()
                invariant
                    i <= parts.len(),
                    text::texts(parts@) == all,
                    out@ == components_key(all.subrange(0, i as int)),
                decreases parts.len() - i,
            {
                let chars: Vec<char> = text::chars_of(parts[i].as_str());
                let rank: u64 = if text::same(parts[i].as_str(), "/") {
                    1
                } else if text::same(parts[i].as_str(), ".") {
                    2
                } else if text::same(parts[i].as_str(), "..") {
                    3
                } else {
                    4
                };
                let ghost start = out@;
                proof {
                    reveal_strlit("/");
                    reveal_strlit(".");
                    reveal_strlit("..");
                    assert("/"@ =~= seq!['/']);
                    assert("."@ =~= seq!['.']);
                    assert(".."@ =~= seq!['.', '.']);
                    assert(all[i as int] == parts@[i as int]@);
                    assert(rank == component_rank(all[i as int]));
                    assert(all.subrange(0, i + 1).drop_last() =~= all.subrange(0, i as int));
                }
                out.push(rank);
                push_codes(&mut out, chars.as_slice());
                out.push(0);
                proof {
                    assert(out@ =~= start + component_key(all[i as int]));
                }
                i += 1;
            }
            proof {
                assert(all.subrange(0, all.len() as int) =~= all);
            }
        },
    }
    out
}

/// Whether one key is before another.
pub fn key_less(a: &[u64], b: &[u64]) -> (r: bool)
    ensures
        r == lex_lt(a@, b@),
{
    let mut i: usize = 0;
    proof {
        assert(a@.subrange(0, a@.len() as int) =~= a@);
        assert(b@.subrange(0, b@.len() as int) =~= b@);
    }
    while i < a.len() && i < b.len() && a[i] == b[i]
        invariant
            i <= a.len(),
            i <= b.len(),
            lex_lt(a@, b@) == lex_lt(
                a@.subrange(i as int, a@.len() as int),
                b@.subrange(i as int, b@.len() as int),
            ),
        decreases a.len() - i,
    {
        proof {
            let x = a@.subrange(i as int, a@.len() as int);
            let y = b@.subrange(i as int, b@.len() as int);
            assert(x.subrange(1, x.len() as int) =~= a@.subrange(i + 1, a@.len() as int));
            assert(y.subrange(1, y.len() as int) =~= b@.subrange(i + 1, b@.len() as int));
        }
        i += 1;
    }
    if i >= b.len() {
        false
    } else if i >= a.len() {
        true
    } else {
        a[i] < b[i]
    }
}

fn key_equal(a: &[u64], b: &[u64]) -> (r: bool)
    ensures
        r == (a@ == b@),
{
    if a.len() != b.len() {
        return false;
    }
    let mut i: usize = 0;
    while i < a.len()
        invariant
            a.len() == b.len(),
            i <= a.len(),
            forall|j: int| 0 <= j < i ==> a@[j] == b@[j],
        decreases a.len() - i,
    {
        if a[i] != b[i] {
            return false;
        }
        i += 1;
    }
    proof {
        assert(a@ =~= b@);
    }
    true
}

/// Whether two paths are the same path.
pub fn same_path(a: &str, b: &str) -> (r: bool)
    ensures
        r == same_name(Collation::Path, a@, b@),
{
    let x: Vec<u64> = key(Collation::Path, a);
    let y: Vec<u64> = key(Collation::Path, b);
    key_equal(x.as_slice(), y.as_slice())
}

/// Whether the list has a name with the key of `s`.
pub fn contains_name(order: Collation, v: &Vec<String>, s: &str) -> (r: bool)
    ensures
        r == has_name(order, text::texts(v@), s@),
{
    let wanted: Vec<u64> = key(order, s);
    let mut i: usize = 0;
    while i < v.len()
        invariant
            i <= v.len(),
            wanted@ == key_of(order, s@),
            forall|j: int| 0 <= j < i ==> !same_name(order, #[trigger] text::texts(v@)[j], s@),
        decreases v.len() - i,
    {
        let k: Vec<u64> = key(order, v[i].as_str());
        proof {
            assert(text::texts(v@)[i as int] == v@[i as int]@);
        }
        if key_equal(k.as_slice(), wanted.as_slice()) {
            return true;
        }
        i += 1;
    }
    false
}

/// Puts `s` behind the last name that is not after it.
pub fn place(order: Collation, v: &mut Vec<String>, s: String)
    ensures
        text::texts(final(v)@) == placed(order, text::texts(old(v)@), s@),
{
    let ghost all = text::texts(v@);
    let wanted: Vec<u64> = key(order, s.as_str());
    let mut n: usize = v.len();
    let ghost tail = Seq::<Seq<char>>::empty();
    proof {
        assert(all.subrange(0, all.len() as int) =~= all);
        assert(placed(order, all, s@) + tail =~= placed(order, all, s@));
    }
    while n > 0
        invariant_except_break
            n <= v.len(),
            all == text::texts(v@),
            wanted@ == key_of(order, s@),
            tail == all.subrange(n as int, all.len() as int),
            placed(order, all, s@) == placed(order, all.subrange(0, n as int), s@) + tail,
        ensures
            n <= v.len(),
            all == text::texts(v@),
            tail == all.subrange(n as int, all.len() as int),
            placed(order, all, s@) == all.subrange(0, n as int).push(s@) + tail,
        decreases n,
    {
        let k: Vec<u64> = key(order, v[n - 1].as_str());
        let ghost head = all.subrange(0, n as int);
        proof {
            assert(head.last() == v@[n - 1]@);
            assert(head.drop_last() =~= all.subrange(0, n - 1));
        }
        if !key_less(wanted.as_slice(), k.as_slice()) {
            break;
        }
        proof {
            let deeper = placed(order, all.subrange(0, n - 1), s@);
            assert(deeper.push(head.last()) + tail =~= deeper + (seq![head.last()] + tail));
            tail = seq![head.last()] + tail;
            assert(tail =~= all.subrange(n - 1, all.len() as int));
        }
        n -= 1;
    }
    v.insert(n, s);
    proof {
        assert(text::texts(v@) =~= all.subrange(0, n as int).push(s@) + tail);
    }
}

/// The names of `v` in order.
pub fn sorted(order: Collation, v: &Vec<String>) -> (r: Vec<String>)
    ensures
        text::texts(r@) == in_order(order, text::texts(v@)),
{
    let ghost all = text::texts(v@);
    let mut out: Vec<String> = Vec::new();
    let mut i: usize = 0;
    while i < v.len()
        invariant
            i <= v.len(),
            all == text::texts(v@),
            text::texts(out@) == in_order(order, all.subrange(0, i as int)),
        decreases v.len() - i,
    {
        proof {
            assert(all.subrange(0, i + 1).drop_last() =~= all.subrange(0, i as int));
            assert(all[i as int] == v@[i as int]@);
        }
        place(order, &mut out, text::copy(v[i].as_str()));
        i += 1;
    }
    proof {
        assert(all.subrange(0, all.len() as int) =~= all);
    }
    out
}

/// Puts `s` in its place unless a name with its key is there; says whether it did.
pub fn insert_name(order: Collation, v: &mut Vec<String>, s: &str) -> (r: bool)
    ensures
        text::texts(final(v)@) == with_name(order, text::texts(old(v)@), s@),
        r == !has_name(order, text::texts(old(v)@), s@),
{
    if contains_name(order, v, s) {
        false
    } else {
        place(order, v, text::copy(s));
        true
    }
}

/// The names of `v` in order, the first of each key.
pub fn name_set_of(order: Collation, v: &Vec<String>) -> (r: Vec<String>)
    ensures
        text::texts(r@) == name_set(order, text::texts(v@)),
{
    let ghost all = text::texts(v@);
    let mut out: Vec<String> = Vec::new();
    let mut i: usize = 0;
    while i < v.len()
        invariant
            i <= v.len(),
            all == text::texts(v@),
            text::texts(out@) == name_set(order, all.subrange(0, i as int)),
        decreases v.len() - i,
    {
        proof {
            assert(all.subrange(0, i + 1).drop_last() =~= all.subrange(0, i as int));
            assert(all[i as int] == v@[i as int]@);
        }
        insert_name(order, &mut out, v[i].as_str());
        i += 1;
    }
    proof {
        assert(all.subrange(0, all.len() as int) =~= all);
    }
    out
}

pub open spec fn is_absolute(s: Seq<char>) -> bool {
    s.len() > 0 && s[0] == '/'
}

/// `rel` seen from `base`: an absolute path stands for itself.
pub open spec fn joined_path(base: Seq<char>, rel: Seq<char>) -> Seq<char> {
    if is_absolute(rel) {
        rel
    } else if base.len() == 0 || base.last() == '/' {
        base + rel
    } else {
        base.push('/') + rel
    }
}

pub fn absolute(s: &str) -> (r: bool)
    ensures
        r == is_absolute(s@),
{
    let chars: Vec<char> = text::chars_of(s);
    chars.len() > 0 && chars[0] == '/'
}

pub fn join(base: &str, rel: &str) -> (r: String)
    ensures
        r@ == joined_path(base@, rel@),
{
    if absolute(rel) {
        return text::copy(rel);
    }
    let chars: Vec<char> = text::chars_of(base);
    let mut out: String = text::copy(base);
    if chars.len() > 0 && chars[chars.len() - 1] != '/' {
        out.push('/');
    }
    out.append(rel);
    out
}

/// Where the last component ends: trailing separators, and dots behind a
/// separator, name nothing.
pub open spec fn name_end(s: Seq<char>) -> int
    decreases s.len(),
{
    let n = s.len();
    if n > 0 && s[n - 1] == '/' {
        name_end(s.drop_last())
    } else if n > 1 && s[n - 1] == '.' && s[n - 2] == '/' {
        name_end(s.drop_last())
    } else {
        n as int
    }
}

/// Where the text behind the last `/` starts.
pub open spec fn name_start(s: Seq<char>) -> int
    decreases s.len(),
{
    if s.len() == 0 || s.last() == '/' {
        s.len() as int
    } else {
        name_start(s.drop_last())
    }
}

/// The last component of a path where it is a name.
pub open spec fn file_name_of(s: Seq<char>) -> Option<Seq<char>> {
    let core = s.subrange(0, name_end(s));
    let name = core.subrange(name_start(core), core.len() as int);
    if name.len() == 0 || is_dot(name) || is_dot_dot(name) {
        None
    } else {
        Some(name)
    }
}

/// Where the extension's dot stands in a file name; its length where there is none.
pub open spec fn stem_len(name: Seq<char>) -> int {
    let d = last_dot(name);
    if d <= 0 {
        name.len() as int
    } else {
        d
    }
}

/// The index of the last dot, or minus one.
pub open spec fn last_dot(name: Seq<char>) -> int
    decreases name.len(),
{
    if name.len() == 0 {
        -1
    } else if name.last() == '.' {
        name.len() - 1
    } else {
        last_dot(name.drop_last())
    }
}

pub open spec fn extension_of(s: Seq<char>) -> Option<Seq<char>> {
    match file_name_of(s) {
        None => None,
        Some(name) => if stem_len(name) >= name.len() {
            None
        } else {
            Some(name.subrange(stem_len(name) + 1, name.len() as int))
        },
    }
}

/// The path whose file name has the extension `ext`.
pub open spec fn with_extension_of(s: Seq<char>, ext: Seq<char>) -> Seq<char> {
    match file_name_of(s) {
        None => s,
        Some(name) => s.subrange(0, name_end(s) - name.len() + stem_len(name)).push('.') + ext,
    }
}

proof fn lemma_name_bounds(s: Seq<char>)
    ensures
        0 <= name_end(s) <= s.len(),
        0 <= name_start(s) <= s.len(),
        -1 <= last_dot(s) < s.len(),
    decreases s.len(),
{
    if s.len() > 0 {
        lemma_name_bounds(s.drop_last());
    }
}

fn end_of_name(s: &[char]) -> (r: usize)
    ensures
        r == name_end(s@),
        r <= s@.len(),
{
    let mut n: usize = s.len();
    proof {
        assert(s@.subrange(0, n as int) =~= s@);
    }
    while n > 0 && (s[n - 1] == '/' || (n > 1 && s[n - 1] == '.' && s[n - 2] == '/'))
        invariant
            n <= s.len(),
            name_end(s@) == name_end(s@.subrange(0, n as int)),
        decreases n,
    {
        proof {
            assert(s@.subrange(0, n as int).drop_last() =~= s@.subrange(0, n - 1));
        }
        n -= 1;
    }
    n
}

fn start_of_name(s: &[char]) -> (r: usize)
    ensures
        r == name_start(s@),
        r <= s@.len(),
{
    let mut n: usize = s.len();
    proof {
        assert(s@.subrange(0, n as int) =~= s@);
    }
    while n > 0 && s[n - 1] != '/'
        invariant
            n <= s.len(),
            name_start(s@) == name_start(s@.subrange(0, n as int)),
        decreases n,
    {
        proof {
            assert(s@.subrange(0, n as int).drop_last() =~= s@.subrange(0, n - 1));
        }
        n -= 1;
    }
    n
}

fn stem_length(s: &[char]) -> (r: usize)
    ensures
        r == stem_len(s@),
        r <= s@.len(),
{
    let mut n: usize = s.len();
    proof {
        assert(s@.subrange(0, n as int) =~= s@);
        lemma_name_bounds(s@);
    }
    while n > 0 && s[n - 1] != '.'
        invariant
            n <= s.len(),
            last_dot(s@) == last_dot(s@.subrange(0, n as int)),
        decreases n,
    {
        proof {
            assert(s@.subrange(0, n as int).drop_last() =~= s@.subrange(0, n - 1));
        }
        n -= 1;
    }
    if n <= 1 {
        s.len()
    } else {
        n - 1
    }
}

fn name_chars(s: &[char]) -> (r: Option<&[char]>)
    ensures
        match r {
            None => file_name_of(s@) is None,
            Some(name) => file_name_of(s@) == Some(name@),
        },
{
    let core: &[char] = slice_subrange(s, 0, end_of_name(s));
    let name: &[char] = slice_subrange(core, start_of_name(core), core.len());
    let dot: bool = name.len() == 1 && name[0] == '.';
    let dots: bool = name.len() == 2 && name[0] == '.' && name[1] == '.';
    if name.len() == 0 || dot || dots {
        None
    } else {
        Some(name)
    }
}

/// The last component of a path where it is a name.
pub fn file_name(s: &str) -> (r: Option<String>)
    ensures
        match r {
            None => file_name_of(s@) is None,
            Some(name) => file_name_of(s@) == Some(name@),
        },
{
    let chars: Vec<char> = text::chars_of(s);
    match name_chars(chars.as_slice()) {
        None => None,
        Some(name) => Some(text::string_of(name)),
    }
}

/// The text behind the last dot of the file name, if a stem stands before it.
pub fn extension(s: &str) -> (r: Option<String>)
    ensures
        match r {
            None => extension_of(s@) is None,
            Some(ext) => extension_of(s@) == Some(ext@),
        },
{
    let chars: Vec<char> = text::chars_of(s);
    match name_chars(chars.as_slice()) {
        None => None,
        Some(name) => {
            let n: usize = stem_length(name);
            if n >= name.len() {
                None
            } else {
                Some(text::string_of(slice_subrange(name, n + 1, name.len())))
            }
        },
    }
}

/// Whether the file name has the extension `ext`.
pub fn has_extension(s: &str, ext: &str) -> (r: bool)
    ensures
        r == (extension_of(s@) == Some(ext@)),
{
    match extension(s) {
        None => false,
        Some(e) => text::same(e.as_str(), ext),
    }
}

/// The path whose file name has the extension `ext`.
pub fn with_extension(s: &str, ext: &str) -> (r: String)
    ensures
        r@ == with_extension_of(s@, ext@),
{
    let chars: Vec<char> = text::chars_of(s);
    let all: &[char] = chars.as_slice();
    match name_chars(all) {
        None => text::copy(s),
        Some(name) => {
            proof {
                let core = s@.subrange(0, name_end(s@));
                lemma_name_bounds(s@);
                lemma_name_bounds(core);
            }
            let end: usize = end_of_name(all) - name.len() + stem_length(name);
            let mut out: String = text::string_of(slice_subrange(all, 0, end));
            out.push('.');
            out.append(ext);
            out
        },
    }
}

/// The components of `path` behind those of `root`, where `path` is under `root`.
pub open spec fn relative_components(root: Seq<char>, path: Seq<char>) -> Option<Seq<Seq<char>>> {
    let r = components_of(root);
    let p = components_of(path);
    if r.len() <= p.len() && p.subrange(0, r.len() as int) == r {
        Some(p.subrange(r.len() as int, p.len() as int))
    } else {
        None
    }
}

/// The components of `path` behind those of `root`, where `path` is under `root`.
pub fn relative_to(root: &str, path: &str) -> (r: Option<Vec<String>>)
    ensures
        match r {
            None => relative_components(root@, path@) is None,
            Some(v) => relative_components(root@, path@) == Some(text::texts(v@)),
        },
{
    let base: Vec<String> = components(root);
    let full: Vec<String> = components(path);
    let ghost b = text::texts(base@);
    let ghost f = text::texts(full@);
    if base.len() > full.len() {
        return None;
    }
    let mut i: usize = 0;
    while i < base.len()
        invariant
            i <= base.len() <= full.len(),
            b == text::texts(base@),
            f == text::texts(full@),
            b == components_of(root@),
            f == components_of(path@),
            forall|j: int| 0 <= j < i ==> b[j] == f[j],
        decreases base.len() - i,
    {
        proof {
            assert(b[i as int] == base@[i as int]@);
            assert(f[i as int] == full@[i as int]@);
        }
        if !text::same(base[i].as_str(), full[i].as_str()) {
            proof {
                assert(f.subrange(0, b.len() as int)[i as int] == f[i as int]);
            }
            return None;
        }
        i += 1;
    }
    proof {
        assert(f.subrange(0, b.len() as int) =~= b);
    }
    let mut out: Vec<String> = Vec::new();
    while i < full.len()
        invariant
            base.len() <= i <= full.len(),
            f == text::texts(full@),
            text::texts(out@) == f.subrange(base.len() as int, i as int),
        decreases full.len() - i,
    {
        let piece: String = text::copy(full[i].as_str());
        proof {
            text::lemma_texts_push(out@, piece);
            assert(f.subrange(base.len() as int, i + 1) =~= f.subrange(
                base.len() as int,
                i as int,
            ).push(f[i as int]));
        }
        out.push(piece);
        i += 1;
    }
    Some(out)
}

} // verus!
