//! What a start is for: variables that are defined can be looked up, and a log goes where
//! it was asked to go, once.
use vstd::prelude::*;

use crate::bootstrap_vars;
use crate::bootstrap_vars::{Definition, Obarray, Variable, VariableModel};
use crate::lisp::Datum;
use crate::logging;
use crate::logging::{DefaultWriter, LogLayers, LogSettings, LogStart, LogTarget, Logging};
use crate::text;

verus! {

proof fn lemma_place(s: Seq<VariableModel>, name: Seq<char>)
    ensures
        0 <= bootstrap_vars::variable_place(s, name) <= s.len(),
        bootstrap_vars::variable_place(s, name) < s.len()
            ==> s[bootstrap_vars::variable_place(s, name)].name == name,
        forall|i: int|
            0 <= i < bootstrap_vars::variable_place(s, name) ==> (#[trigger] s[i]).name != name,
    decreases s.len(),
{
    if s.len() > 0 && s[0].name != name {
        let t = s.subrange(1, s.len() as int);
        lemma_place(t, name);
        assert forall|i: int|
            0 <= i < bootstrap_vars::variable_place(s, name) implies (#[trigger] s[i]).name
            != name by {
            if i > 0 {
                assert(t[i - 1] == s[i]);
            }
        }
    }
}

proof fn lemma_place_is(s: Seq<VariableModel>, name: Seq<char>, k: int)
    requires
        0 <= k <= s.len(),
        k < s.len() ==> s[k].name == name,
        forall|i: int| 0 <= i < k ==> (#[trigger] s[i]).name != name,
    ensures
        bootstrap_vars::variable_place(s, name) == k,
{
    lemma_place(s, name);
    let p = bootstrap_vars::variable_place(s, name);
    if p < k {
        assert(s[p].name != name);
    } else if k < p {
        assert(s[k].name != name);
    }
}

/// A variable that is defined is there afterwards, with what the definition gives it: a
/// value, that it is special, or that it holds integers. Every other variable is as it was,
/// and what a definition does not speak of stays.
pub proof fn law_defined_variable_is_there(
    o: &mut Obarray,
    d: Definition,
    name: &str,
    before: Option<&Variable>,
    after: Option<&Variable>,
)
    requires
        call_ensures(Obarray::define, (o, d), ()),
        call_ensures(Obarray::lookup, (&*old(o), name), before),
        call_ensures(Obarray::lookup, (&*final(o), name), after),
    ensures
        d is SetValue && (d->SetValue_0)@ == name@ ==> after is Some && after->0.value is Some && (
        after->0.value->0)@ == (d->SetValue_1)@,
        d is MakeSpecial && (d->MakeSpecial_0)@ == name@ ==> after is Some && after->0.special,
        d is DefineSpecial && (d->DefineSpecial_0)@ == name@ ==> after is Some && after->0.special
            && after->0.value is Some && (after->0.value->0)@ == (d->DefineSpecial_1)@,
        d is DefineInt && (d->DefineInt_0)@ == name@ ==> after is Some && after->0.special
            && after->0.integer && after->0.value is Some && (after->0.value->0)@ == Datum::Fixnum(
            d->DefineInt_1 as int,
        ),
        d@.subject() != name@ ==> (after is Some <==> before is Some) && (after is Some ==> after->0@
            == before->0@),
        d is SetValue && (d->SetValue_0)@ == name@ && before is Some ==> after->0.special
            == before->0.special && after->0.integer == before->0.integer,
        d is MakeSpecial && (d->MakeSpecial_0)@ == name@ && before is Some ==> after->0@.value
            == before->0@.value,
        after is Some ==> after->0.name@ == name@,
{
    let (s, t) = (old(o)@, final(o)@);
    let n = d@.subject();
    lemma_place(s, n);
    lemma_place(s, name@);
    lemma_place(t, name@);
    let i = bootstrap_vars::variable_place(s, n);
    let j = bootstrap_vars::variable_place(s, name@);
    if name@ == n {
        assert forall|k: int| 0 <= k < i implies (#[trigger] t[k]).name != n by {
            assert(t[k] == s[k]);
        }
        assert(t[i].name == n);
        lemma_place_is(t, n, i);
    } else {
        if j < s.len() {
            assert(t[j] == s[j]);
            assert forall|k: int| 0 <= k < j implies (#[trigger] t[k]).name != name@ by {
                if k != i {
                    assert(t[k] == s[k]);
                }
            }
            lemma_place_is(t, name@, j);
        } else {
            assert forall|k: int| 0 <= k < t.len() implies (#[trigger] t[k]).name != name@ by {
                if k < s.len() && k != i {
                    assert(t[k] == s[k]);
                }
            }
            lemma_place_is(t, name@, t.len() as int);
        }
    }
}

/// Where a log is written to besides: the file that is named; else, where that is switched
/// on, one with the number of the process in its name.
pub proof fn law_log_file(s: &LogSettings, r: Option<String>)
    requires
        call_ensures(logging::resolve_env_log_file, (s,), r),
    ensures
        s.log_file is Some && (s.log_file->0)@.len() > 0 ==> r is Some && (r->0)@ == (
        s.log_file->0)@,
        s.log_file is Some && (s.log_file->0)@.len() == 0 ==> r is None,
        s.log_file is None && s.log_to_file is None ==> r is None,
        s.log_file is None && s.log_to_file is Some ==> (r is Some <==> (s.log_to_file->0)@
            == "1"@),
        s.log_file is None && r is Some ==> text::contains(
            (r->0)@,
            text::decimal(s.process_id as nat),
        ) && text::ends_with((r->0)@, ".log"@),
{
    if s.log_file is None && r is Some {
        let t = (r->0)@;
        let (a, n) = ("neomacs-"@, text::decimal(s.process_id as nat));
        assert(t.subrange(a.len() as int, (a.len() + n.len()) as int) =~= n);
        assert(text::occurs_at(t, n, a.len() as int));
        assert(t.subrange(t.len() - ".log"@.len(), t.len() as int) =~= ".log"@);
    }
}

/// A log is started once: the first time with the writer for its target, none for a file
/// that keeps the screen whole, and after that never again.
pub proof fn law_log_starts_once(
    state: &mut Logging,
    target: LogTarget,
    s: &LogSettings,
    r: LogStart,
    again: &mut Logging,
    other: LogTarget,
    q: LogStart,
    file: Option<String>,
)
    requires
        call_ensures(logging::init, (state, target, s), r),
        *old(again) == *final(state),
        call_ensures(logging::init, (again, other, s), q),
        !old(state).started,
        call_ensures(logging::resolve_env_log_file, (s,), file),
    ensures
        r is Start && q is Done,
        target is Stdout <==> r->default_layer == Some(DefaultWriter::Stdout),
        target is File <==> r->default_layer is None,
        target is Test <==> r->default_layer == Some(DefaultWriter::TestCapture),
        r->open is Some <==> file is Some,
        file is Some ==> (r->open->0)@ == (file->0)@,
{
}

/// What a log is written by: the writer for its target, and the file where it could be
/// opened.
pub proof fn law_layers_of_a_log(start: LogStart, opened: bool, r: LogLayers)
    requires
        call_ensures(logging::layers, (start, opened), r),
    ensures
        start is Done ==> r.default_layer is None && r.file is None,
        start is Start ==> r.default_layer == start->default_layer,
        start is Start && opened ==> r.file == start->open,
        !opened ==> r.file is None,
{
}

/// What is logged: what was asked for, where that can be read, and warnings else.
pub proof fn law_what_is_logged(given: Option<&str>, accepted: bool, r: String)
    requires
        call_ensures(logging::filter_directives, (given, accepted), r),
    ensures
        given is Some && accepted ==> r@ == (given->0)@,
        given is None || !accepted ==> r@ == "warn"@,
{
}

} // verus!
