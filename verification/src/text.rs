//! Text as sequences of characters: searching, trimming, splitting and joining.
use vstd::prelude::*;
use vstd::slice::slice_subrange;
use vstd::string::StringExecFns;

verus! {

/// `String::push` appends one character.
pub assume_specification[ String::push ](s: &mut String, c: char)
    ensures
        final(s)@ == old(s)@.push(c),
;

/// The contents of a list of strings.
pub open spec fn texts(v: Seq<String>) -> Seq<Seq<char>> {
    Seq::new(v.len(), |i: int| v[i]@)
}

pub proof fn lemma_texts_push(v: Seq<String>, s: String)
    ensures
        texts(v.push(s)) == texts(v).push(s@),
{
    assert(texts(v.push(s)) =~= texts(v).push(s@));
}

/// `needle` stands in `s` at index `i`.
pub open spec fn occurs_at(s: Seq<char>, needle: Seq<char>, i: int) -> bool {
    &&& 0 <= i
    &&& i + needle.len() <= s.len()
    &&& s.subrange(i, i + needle.len()) == needle
}

pub open spec fn starts_with(s: Seq<char>, prefix: Seq<char>) -> bool {
    occurs_at(s, prefix, 0)
}

pub open spec fn ends_with(s: Seq<char>, suffix: Seq<char>) -> bool {
    suffix.len() <= s.len() && s.subrange(s.len() - suffix.len(), s.len() as int) == suffix
}

pub open spec fn contains(s: Seq<char>, needle: Seq<char>) -> bool {
    exists|i: int| occurs_at(s, needle, i)
}

/// `i` is the least index at or after `from` where `needle` stands in `s`.
pub open spec fn first_at(s: Seq<char>, needle: Seq<char>, from: int, i: int) -> bool {
    &&& from <= i
    &&& occurs_at(s, needle, i)
    &&& forall|j: int| from <= j < i ==> !occurs_at(s, needle, j)
}

/// The index of the first `c` in `s`, or the length of `s`.
pub open spec fn index_of_char(s: Seq<char>, c: char) -> int
    decreases s.len(),
{
    if s.len() == 0 || s[0] == c {
        0
    } else {
        1 + index_of_char(s.subrange(1, s.len() as int), c)
    }
}

pub proof fn lemma_index_of_char(s: Seq<char>, c: char, k: int)
    requires
        0 <= k <= s.len(),
        forall|j: int| 0 <= j < k ==> s[j] != c,
        k < s.len() ==> s[k] == c,
    ensures
        index_of_char(s, c) == k,
    decreases s.len(),
{
    if s.len() > 0 && s[0] != c {
        let t = s.subrange(1, s.len() as int);
        assert forall|j: int| 0 <= j < k - 1 implies t[j] != c by {
            assert(t[j] == s[j + 1]);
        }
        if k < s.len() {
            assert(t[k - 1] == s[k]);
        }
        lemma_index_of_char(t, c, k - 1);
    }
}

/// The White_Space property of Unicode.
pub open spec fn is_space(c: char) -> bool {
    ||| '\u{9}' <= c <= '\u{d}'
    ||| c == ' '
    ||| c == '\u{85}'
    ||| c == '\u{a0}'
    ||| c == '\u{1680}'
    ||| '\u{2000}' <= c <= '\u{200a}'
    ||| c == '\u{2028}'
    ||| c == '\u{2029}'
    ||| c == '\u{202f}'
    ||| c == '\u{205f}'
    ||| c == '\u{3000}'
}

pub fn is_whitespace(c: char) -> (r: bool)
    ensures
        r == is_space(c),
{
    ('\u{9}' <= c && c <= '\u{d}') || c == ' ' || c == '\u{85}' || c == '\u{a0}' || c == '\u{1680}'
        || ('\u{2000}' <= c && c <= '\u{200a}') || c == '\u{2028}' || c == '\u{2029}' || c
        == '\u{202f}' || c == '\u{205f}' || c == '\u{3000}'
}

/// The characters of `s`.
pub fn chars_of(s: &str) -> (r: Vec<char>)
    ensures
        r@ == s@,
{
    let mut out: Vec<char> = Vec::new();
    for c in it: s.chars()
        invariant
            out@ == s@.subrange(0, it.index()),
            it.seq() == s@,
    {
        proof {
            assert(s@.subrange(0, it.index() + 1) =~= s@.subrange(0, it.index()).push(c));
        }
        out.push(c);
    }
    proof {
        assert(s@.subrange(0, s@.len() as int) =~= s@);
    }
    out
}

/// The string made of `v`.
pub fn string_of(v: &[char]) -> (r: String)
    ensures
        r@ == v@,
{
    let mut out: String = String::new();
    let mut i: usize = 0;
    while i < v.len()
        invariant
            i <= v.len(),
            out@ == v@.subrange(0, i as int),
        decreases v.len() - i,
    {
        proof {
            assert(v@.subrange(0, i + 1) =~= v@.subrange(0, i as int).push(v@[i as int]));
        }
        out.push(v[i]);
        i += 1;
    }
    proof {
        assert(v@.subrange(0, v@.len() as int) =~= v@);
    }
    out
}

/// A copy of `s`.
pub fn copy(s: &str) -> (r: String)
    ensures
        r@ == s@,
{
    s.to_owned()
}

pub fn chars_equal(a: &[char], b: &[char]) -> (r: bool)
    ensures
        r == (a@ == b@),
{
    if a.len() != b.len() {
        return false;
    }
    let mut i: usize = 0;
    while i < a.len()
        invariant
            a.len() == b.len(),
            i <= a.len(),
            forall|j: int| 0 <= j < i ==> a@[j] == b@[j],
        decreases a.len() - i,
    {
        if a[i] != b[i] {
            return false;
        }
        i += 1;
    }
    proof {
        assert(a@ =~= b@);
    }
    true
}

/// Whether two strings hold the same characters.
pub fn same(a: &str, b: &str) -> (r: bool)
    ensures
        r == (a@ == b@),
{
    let x: Vec<char> = chars_of(a);
    let y: Vec<char> = chars_of(b);
    chars_equal(x.as_slice(), y.as_slice())
}

/// Whether `needle` stands in `s` at index `i`.
pub fn matches_at(s: &[char], needle: &[char], i: usize) -> (r: bool)
    ensures
        r == occurs_at(s@, needle@, i as int),
{
    if i > s.len() || needle.len() > s.len() - i {
        return false;
    }
    let mut j: usize = 0;
    while j < needle.len()
        invariant
            j <= needle.len(),
            i + needle.len() <= s.len(),
            forall|k: int| 0 <= k < j ==> s@[i + k] == needle@[k],
        decreases needle.len() - j,
    {
        if s[i + j] != needle[j] {
            proof {
                assert(s@.subrange(i as int, i + needle@.len())[j as int] == s@[i + j]);
            }
            return false;
        }
        j += 1;
    }
    proof {
        assert(s@.subrange(i as int, i + needle@.len()) =~= needle@);
    }
    true
}

/// The first index at or after `from` where `needle` stands.
pub fn find_from(s: &[char], needle: &[char], from: usize) -> (r: Option<usize>)
    ensures
        match r {
            Some(i) => first_at(s@, needle@, from as int, i as int),
            None => forall|j: int| from <= j ==> !occurs_at(s@, needle@, j),
        },
{
    let mut i: usize = from;
    while i <= s.len()
        invariant
            from <= i,
            i <= s.len() + 1 || i == from,
            forall|j: int| from <= j < i ==> !occurs_at(s@, needle@, j),
        decreases s.len() + 1 - i,
    {
        if matches_at(s, needle, i) {
            return Some(i);
        }
        if i == s.len() {
            return None;
        }
        i += 1;
    }
    None
}

/// Whether `needle` stands anywhere in `s`.
pub fn has(s: &str, needle: &str) -> (r: bool)
    ensures
        r == contains(s@, needle@),
{
    let x: Vec<char> = chars_of(s);
    let y: Vec<char> = chars_of(needle);
    find_from(x.as_slice(), y.as_slice(), 0).is_some()
}

pub fn begins(s: &[char], prefix: &[char]) -> (r: bool)
    ensures
        r == starts_with(s@, prefix@),
{
    matches_at(s, prefix, 0)
}

pub fn finishes(s: &[char], suffix: &[char]) -> (r: bool)
    ensures
        r == ends_with(s@, suffix@),
{
    if suffix.len() > s.len() {
        return false;
    }
    matches_at(s, suffix, s.len() - suffix.len())
}

pub fn begins_with(s: &str, prefix: &str) -> (r: bool)
    ensures
        r == starts_with(s@, prefix@),
{
    let x: Vec<char> = chars_of(s);
    let y: Vec<char> = chars_of(prefix);
    begins(x.as_slice(), y.as_slice())
}

pub fn finishes_with(s: &str, suffix: &str) -> (r: bool)
    ensures
        r == ends_with(s@, suffix@),
{
    let x: Vec<char> = chars_of(s);
    let y: Vec<char> = chars_of(suffix);
    finishes(x.as_slice(), y.as_slice())
}

/// The index of the first `c`, or the length.
pub fn char_index(s: &[char], c: char) -> (r: usize)
    ensures
        r == index_of_char(s@, c),
        r <= s@.len(),
        r < s@.len() ==> s@[r as int] == c,
        forall|j: int| 0 <= j < r ==> s@[j] != c,
{
    let mut i: usize = 0;
    while i < s.len() && s[i] != c
        invariant
            i <= s.len(),
            forall|j: int| 0 <= j < i ==> s@[j] != c,
        decreases s.len() - i,
    {
        i += 1;
    }
    proof {
        lemma_index_of_char(s@, c, i as int);
    }
    i
}

/// `s` without its leading white space.
pub open spec fn trimmed_start(s: Seq<char>) -> Seq<char>
    decreases s.len(),
{
    if s.len() > 0 && is_space(s[0]) {
        trimmed_start(s.subrange(1, s.len() as int))
    } else {
        s
    }
}

/// `s` without its trailing white space.
pub open spec fn trimmed_end(s: Seq<char>) -> Seq<char>
    decreases s.len(),
{
    if s.len() > 0 && is_space(s[s.len() - 1]) {
        trimmed_end(s.subrange(0, s.len() - 1))
    } else {
        s
    }
}

pub open spec fn trimmed(s: Seq<char>) -> Seq<char> {
    trimmed_end(trimmed_start(s))
}

pub fn trim_start(s: &[char]) -> (r: &[char])
    ensures
        r@ == trimmed_start(s@),
{
    let mut i: usize = 0;
    proof {
        assert(s@.subrange(0, s@.len() as int) =~= s@);
    }
    while i < s.len() && is_whitespace(s[i])
        invariant
            i <= s.len(),
            trimmed_start(s@.subrange(i as int, s@.len() as int)) == trimmed_start(s@),
        decreases s.len() - i,
    {
        proof {
            let t = s@.subrange(i as int, s@.len() as int);
            assert(t.subrange(1, t.len() as int) =~= s@.subrange(i + 1, s@.len() as int));
        }
        i += 1;
    }
    slice_subrange(s, i, s.len())
}

pub fn trim_end(s: &[char]) -> (r: &[char])
    ensures
        r@ == trimmed_end(s@),
{
    let mut n: usize = s.len();
    proof {
        assert(s@.subrange(0, s@.len() as int) =~= s@);
    }
    while n > 0 && is_whitespace(s[n - 1])
        invariant
            n <= s.len(),
            trimmed_end(s@.subrange(0, n as int)) == trimmed_end(s@),
        decreases n,
    {
        proof {
            let t = s@.subrange(0, n as int);
            assert(t.subrange(0, t.len() - 1) =~= s@.subrange(0, n - 1));
        }
        n -= 1;
    }
    slice_subrange(s, 0, n)
}

pub fn trim(s: &[char]) -> (r: &[char])
    ensures
        r@ == trimmed(s@),
{
    trim_end(trim_start(s))
}

/// A line without the carriage return that ends it.
pub open spec fn without_cr(s: Seq<char>) -> Seq<char> {
    if s.len() > 0 && s[s.len() - 1] == '\r' {
        s.subrange(0, s.len() - 1)
    } else {
        s
    }
}

/// The lines of `s`: each ends at a newline or at the end of the text; the
/// newline, and a carriage return before it, are not part of the line.
pub open spec fn lines_of(s: Seq<char>) -> Seq<Seq<char>>
    decreases s.len(),
    when s.len() >= 0
    via lines_of_decreases
{
    let i = index_of_char(s, '\n');
    if s.len() == 0 {
        Seq::empty()
    } else if i >= s.len() {
        seq![s]
    } else {
        seq![without_cr(s.subrange(0, i))] + lines_of(s.subrange(i + 1, s.len() as int))
    }
}

pub proof fn lemma_index_nonneg(s: Seq<char>, c: char)
    ensures
        0 <= index_of_char(s, c) <= s.len(),
        index_of_char(s, c) < s.len() ==> s[index_of_char(s, c)] == c,
        forall|j: int| 0 <= j < index_of_char(s, c) ==> s[j] != c,
    decreases s.len(),
{
    if s.len() > 0 && s[0] != c {
        let t = s.subrange(1, s.len() as int);
        lemma_index_nonneg(t, c);
        assert forall|j: int| 0 <= j < index_of_char(s, c) implies s[j] != c by {
            if j > 0 {
                assert(t[j - 1] == s[j]);
            }
        }
    }
}

#[via_fn]
proof fn lines_of_decreases(s: Seq<char>) {
    lemma_index_nonneg(s, '\n');
}

/// The lines of `s`.
pub fn lines(s: &str) -> (r: Vec<String>)
    ensures
        texts(r@) == lines_of(s@),
{
    let v: Vec<char> = chars_of(s);
    let all: &[char] = v.as_slice();
    let mut out: Vec<String> = Vec::new();
    let mut at: usize = 0;
    proof {
        assert(all@.subrange(0, all@.len() as int) =~= all@);
        assert(texts(out@) =~= Seq::<Seq<char>>::empty());
        assert(texts(out@) + lines_of(all@) =~= lines_of(all@));
    }
    while at < all.len()
        invariant
            all@ == s@,
            at <= all.len(),
            texts(out@) + lines_of(all@.subrange(at as int, all@.len() as int)) == lines_of(s@),
        decreases all.len() - at,
    {
        let rest: &[char] = slice_subrange(all, at, all.len());
        let n: usize = char_index(rest, '\n');
        let ghost before = texts(out@);
        if n >= rest.len() {
            let line: String = string_of(rest);
            proof {
                lemma_texts_push(out@, line);
                assert(before.push(rest@) =~= before + seq![rest@]);
            }
            out.push(line);
            at = all.len();
            proof {
                assert(lines_of(all@.subrange(at as int, all@.len() as int)) =~= Seq::<Seq<char>>::empty());
                assert(texts(out@) + Seq::<Seq<char>>::empty() =~= texts(out@));
            }
        } else {
            let end: usize = if n > 0 && rest[n - 1] == '\r' {
                n - 1
            } else {
                n
            };
            let line: String = string_of(slice_subrange(rest, 0, end));
            proof {
                let cut = rest@.subrange(0, n as int);
                assert(line@ =~= without_cr(cut));
                lemma_texts_push(out@, line);
                let tail = rest@.subrange(n + 1, rest@.len() as int);
                assert(tail =~= all@.subrange(at + n + 1, all@.len() as int));
                assert(before.push(line@) + lines_of(tail) =~= before + (seq![line@] + lines_of(tail)));
            }
            out.push(line);
            at = at + n + 1;
        }
    }
    proof {
        assert(lines_of(all@.subrange(at as int, all@.len() as int)) =~= Seq::<Seq<char>>::empty());
        assert(texts(out@) + Seq::<Seq<char>>::empty() =~= texts(out@));
    }
    out
}

/// The words of `s`: its maximal runs of characters that are not white space.
pub open spec fn words_of(s: Seq<char>) -> Seq<Seq<char>>
    decreases s.len(),
    when s.len() >= 0
    via words_of_decreases
{
    let t = trimmed_start(s);
    let n = word_len(t);
    if t.len() == 0 {
        Seq::empty()
    } else {
        seq![t.subrange(0, n)] + words_of(t.subrange(n, t.len() as int))
    }
}

/// How many characters stand before the first white space.
pub open spec fn word_len(s: Seq<char>) -> int
    decreases s.len(),
{
    if s.len() == 0 || is_space(s[0]) {
        0
    } else {
        1 + word_len(s.subrange(1, s.len() as int))
    }
}

pub proof fn lemma_word_len(s: Seq<char>, k: int)
    requires
        0 <= k <= s.len(),
        forall|j: int| 0 <= j < k ==> !is_space(s[j]),
        k < s.len() ==> is_space(s[k]),
    ensures
        word_len(s) == k,
    decreases s.len(),
{
    if s.len() > 0 && !is_space(s[0]) {
        let t = s.subrange(1, s.len() as int);
        assert forall|j: int| 0 <= j < k - 1 implies !is_space(t[j]) by {
            assert(t[j] == s[j + 1]);
        }
        if k < s.len() {
            assert(t[k - 1] == s[k]);
        }
        lemma_word_len(t, k - 1);
    }
}

pub proof fn lemma_word_len_bounds(s: Seq<char>)
    ensures
        0 <= word_len(s) <= s.len(),
        s.len() > 0 && !is_space(s[0]) ==> word_len(s) > 0,
    decreases s.len(),
{
    if s.len() > 0 && !is_space(s[0]) {
        lemma_word_len_bounds(s.subrange(1, s.len() as int));
    }
}

pub proof fn lemma_trimmed_start(s: Seq<char>)
    ensures
        trimmed_start(s).len() <= s.len(),
        trimmed_start(s).len() > 0 ==> !is_space(trimmed_start(s)[0]),
    decreases s.len(),
{
    if s.len() > 0 && is_space(s[0]) {
        lemma_trimmed_start(s.subrange(1, s.len() as int));
    }
}

#[via_fn]
proof fn words_of_decreases(s: Seq<char>) {
    lemma_trimmed_start(s);
    lemma_word_len_bounds(trimmed_start(s));
}

/// The words of `s`.
pub fn words(s: &[char]) -> (r: Vec<String>)
    ensures
        texts(r@) == words_of(s@),
{
    let mut out: Vec<String> = Vec::new();
    let mut rest: &[char] = s;
    proof {
        assert(texts(out@) + words_of(s@) =~= words_of(s@));
    }
    loop
        invariant_except_break
            texts(out@) + words_of(rest@) == words_of(s@),
        ensures
            texts(out@) == words_of(s@),
        decreases rest@.len(),
    {
        let t: &[char] = trim_start(rest);
        proof {
            lemma_trimmed_start(rest@);
        }
        if t.len() == 0 {
            proof {
                assert(texts(out@) + words_of(rest@) =~= texts(out@));
            }
            break;
        }
        let mut n: usize = 0;
        while n < t.len() && !is_whitespace(t[n])
            invariant
                n <= t.len(),
                forall|j: int| 0 <= j < n ==> !is_space(t@[j]),
            decreases t.len() - n,
        {
            n += 1;
        }
        let word: String = string_of(slice_subrange(t, 0, n));
        proof {
            lemma_word_len(t@, n as int);
            lemma_word_len_bounds(t@);
            lemma_texts_push(out@, word);
            let tail = t@.subrange(n as int, t@.len() as int);
            assert(texts(out@).push(word@) + words_of(tail) =~= texts(out@) + (seq![word@]
                + words_of(tail)));
        }
        out.push(word);
        rest = slice_subrange(t, n, t.len());
    }
    out
}

/// `s` with every `from` replaced by `to`.
pub open spec fn with_char_replaced(s: Seq<char>, from: char, to: char) -> Seq<char> {
    s.map_values(|c: char| if c == from { to } else { c })
}

pub fn replace_char(s: &[char], from: char, to: char) -> (r: Vec<char>)
    ensures
        r@ == with_char_replaced(s@, from, to),
{
    let mut out: Vec<char> = Vec::new();
    let mut i: usize = 0;
    while i < s.len()
        invariant
            i <= s.len(),
            out@.len() == i,
            forall|j: int| 0 <= j < i ==> out@[j] == with_char_replaced(s@, from, to)[j],
        decreases s.len() - i,
    {
        out.push(if s[i] == from { to } else { s[i] });
        i += 1;
    }
    proof {
        assert(out@ =~= with_char_replaced(s@, from, to));
    }
    out
}

/// The pieces of `s` between the occurrences of `c`.
pub open spec fn split_at_char(s: Seq<char>, c: char) -> Seq<Seq<char>>
    decreases s.len(),
    when s.len() >= 0
    via split_at_char_decreases
{
    let i = index_of_char(s, c);
    if i >= s.len() {
        seq![s]
    } else {
        seq![s.subrange(0, i)] + split_at_char(s.subrange(i + 1, s.len() as int), c)
    }
}

#[via_fn]
proof fn split_at_char_decreases(s: Seq<char>, c: char) {
    lemma_index_nonneg(s, c);
}

pub fn split(s: &[char], c: char) -> (r: Vec<String>)
    ensures
        texts(r@) == split_at_char(s@, c),
{
    let mut out: Vec<String> = Vec::new();
    let mut rest: &[char] = s;
    proof {
        assert(texts(out@) + split_at_char(s@, c) =~= split_at_char(s@, c));
    }
    loop
        invariant
            texts(out@) + split_at_char(rest@, c) == split_at_char(s@, c),
        decreases rest@.len(),
    {
        let n: usize = char_index(rest, c);
        let piece: String = string_of(slice_subrange(rest, 0, n));
        let ghost before = texts(out@);
        proof {
            lemma_texts_push(out@, piece);
        }
        out.push(piece);
        if n >= rest.len() {
            proof {
                assert(rest@.subrange(0, n as int) =~= rest@);
                assert(before.push(rest@) =~= before + seq![rest@]);
            }
            return out;
        }
        proof {
            let tail = rest@.subrange(n + 1, rest@.len() as int);
            assert(before.push(piece@) + split_at_char(tail, c) =~= before + (seq![piece@]
                + split_at_char(tail, c)));
        }
        rest = slice_subrange(rest, n + 1, rest.len());
    }
}

/// The texts one after the other, with `between` between two neighbours.
pub open spec fn joined(v: Seq<Seq<char>>, between: Seq<char>) -> Seq<char>
    decreases v.len(),
{
    if v.len() == 0 {
        Seq::empty()
    } else if v.len() == 1 {
        v[0]
    } else {
        joined(v.drop_last(), between) + between + v.last()
    }
}

pub fn join(v: &Vec<String>, between: &str) -> (r: String)
    ensures
        r@ == joined(texts(v@), between@),
{
    let mut out: String = String::new();
    let mut i: usize = 0;
    while i < v.len()
        invariant
            i <= v.len(),
            out@ == joined(texts(v@).subrange(0, i as int), between@),
        decreases v.len() - i,
    {
        let ghost next = texts(v@).subrange(0, i + 1);
        proof {
            assert(next.drop_last() =~= texts(v@).subrange(0, i as int));
            assert(next.last() == v@[i as int]@);
        }
        if i > 0 {
            out.append(between);
        }
        out.append(v[i].as_str());
        proof {
            if i == 0 {
                assert(out@ =~= v@[0]@);
            }
        }
        i += 1;
    }
    proof {
        assert(texts(v@).subrange(0, v@.len() as int) =~= texts(v@));
    }
    out
}

/// `a` followed by `b`.
pub fn concat(a: &str, b: &str) -> (r: String)
    ensures
        r@ == a@ + b@,
{
    let mut out: String = a.to_owned();
    out.append(b);
    out
}

/// The digits of `n` in base ten.
pub open spec fn decimal(n: nat) -> Seq<char>
    decreases n,
{
    if n < 10 {
        seq![digit_char(n)]
    } else {
        decimal(n / 10).push(digit_char(n % 10))
    }
}

pub open spec fn digit_char(d: nat) -> char {
    (('0' as nat) + d) as char
}

/// The digits of `n` in base ten.
pub fn decimal_text(n: u64) -> (r: String)
    ensures
        r@ == decimal(n as nat),
    decreases n,
{
    let d: u64 = n % 10;
    let c: char = (('0' as u8) + (d as u8)) as char;
    let mut out: String = if n < 10 {
        String::new()
    } else {
        decimal_text(n / 10)
    };
    out.push(c);
    proof {
        if n < 10 {
            assert(out@ =~= decimal(n as nat));
        }
    }
    out
}

} // verus!
