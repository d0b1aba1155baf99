//! The variables of the window system that are there before any Lisp is loaded.
use vstd::prelude::*;

use crate::lisp;
use crate::lisp::{Datum, EmptyTable, TableTest, TableWeakness, Value};
use crate::text;

verus! {

/// A Lisp variable. A special one is bound dynamically; an integer one holds nothing
/// but integers.
#[derive(Debug)]
pub struct Variable {
    pub name: String,
    pub value: Option<Value>,
    pub special: bool,
    pub integer: bool,
}

pub struct VariableModel {
    pub name: Seq<char>,
    pub value: Option<Datum>,
    pub special: bool,
    pub integer: bool,
}

impl View for Variable {
    type V = VariableModel;

    open spec fn view(&self) -> VariableModel {
        VariableModel {
            name: self.name@,
            value: match self.value {
                Some(v) => Some(v@),
                None => None,
            },
            special: self.special,
            integer: self.integer,
        }
    }
}

/// The table of variables.
#[derive(Debug)]
pub struct Obarray {
    pub variables: Vec<Variable>,
}

impl View for Obarray {
    type V = Seq<VariableModel>;

    open spec fn view(&self) -> Seq<VariableModel> {
        Seq::new(self.variables@.len(), |i: int| self.variables@[i]@)
    }
}

/// What is done to a variable.
#[derive(Debug)]
pub enum Definition {
    /// It gets a value, and stays what it is.
    SetValue(&'static str, Value),
    MakeSpecial(&'static str),
    /// It gets a value, and is special.
    DefineSpecial(&'static str, Value),
    /// It gets a number, is special, and holds nothing but integers.
    DefineInt(&'static str, i64),
}

pub enum DefinitionModel {
    SetValue(Seq<char>, Datum),
    MakeSpecial(Seq<char>),
    DefineSpecial(Seq<char>, Datum),
    DefineInt(Seq<char>, int),
}

impl View for Definition {
    type V = DefinitionModel;

    open spec fn view(&self) -> DefinitionModel {
        match self {
            Definition::SetValue(n, v) => DefinitionModel::SetValue(n@, v@),
            Definition::MakeSpecial(n) => DefinitionModel::MakeSpecial(n@),
            Definition::DefineSpecial(n, v) => DefinitionModel::DefineSpecial(n@, v@),
            Definition::DefineInt(n, i) => DefinitionModel::DefineInt(n@, *i as int),
        }
    }
}

impl DefinitionModel {
    pub open spec fn subject(self) -> Seq<char> {
        match self {
            DefinitionModel::SetValue(n, _) => n,
            DefinitionModel::MakeSpecial(n) => n,
            DefinitionModel::DefineSpecial(n, _) => n,
            DefinitionModel::DefineInt(n, _) => n,
        }
    }

    /// What becomes of the variable.
    pub open spec fn applied(self, v: VariableModel) -> VariableModel {
        match self {
            DefinitionModel::SetValue(_, d) => VariableModel { value: Some(d), ..v },
            DefinitionModel::MakeSpecial(_) => VariableModel { special: true, ..v },
            DefinitionModel::DefineSpecial(_, d) => VariableModel {
                value: Some(d),
                special: true,
                ..v
            },
            DefinitionModel::DefineInt(_, i) => VariableModel {
                value: Some(Datum::Fixnum(i)),
                special: true,
                integer: true,
                ..v
            },
        }
    }

    pub open spec fn makes_special(self) -> bool {
        !(self is SetValue)
    }
}

pub open spec fn unknown(name: Seq<char>) -> VariableModel {
    VariableModel { name: name, value: None, special: false, integer: false }
}

/// The place of a variable, the end of the table where it is not there.
pub open spec fn variable_place(s: Seq<VariableModel>, name: Seq<char>) -> int
    decreases s.len(),
{
    if s.len() == 0 || s[0].name == name {
        0
    } else {
        1 + variable_place(s.subrange(1, s.len() as int), name)
    }
}

/// The variable of a name.
pub open spec fn variable(s: Seq<VariableModel>, name: Seq<char>) -> VariableModel {
    let i = variable_place(s, name);
    if i < s.len() {
        s[i]
    } else {
        unknown(name)
    }
}

/// The table after a definition.
pub open spec fn defined(s: Seq<VariableModel>, d: DefinitionModel) -> Seq<VariableModel> {
    let i = variable_place(s, d.subject());
    let v = d.applied(variable(s, d.subject()));
    if i < s.len() {
        s.update(i, v)
    } else {
        s.push(v)
    }
}

/// The table after some definitions.
pub open spec fn all_defined(s: Seq<VariableModel>, defs: Seq<DefinitionModel>) -> Seq<VariableModel>
    decreases defs.len(),
{
    if defs.len() == 0 {
        s
    } else {
        defined(all_defined(s, defs.drop_last()), defs.last())
    }
}

proof fn lemma_place(s: Seq<VariableModel>, name: Seq<char>)
    ensures
        0 <= variable_place(s, name) <= s.len(),
        variable_place(s, name) < s.len() ==> s[variable_place(s, name)].name == name,
        forall|k: int| 0 <= k < variable_place(s, name) ==> (#[trigger] s[k]).name != name,
    decreases s.len(),
{
    if s.len() > 0 && s[0].name != name {
        let t = s.subrange(1, s.len() as int);
        lemma_place(t, name);
        assert forall|k: int| 0 <= k < variable_place(s, name) implies (#[trigger] s[k]).name
            != name by {
            if k > 0 {
                assert(t[k - 1] == s[k]);
            }
        }
    }
}

proof fn lemma_place_is(s: Seq<VariableModel>, name: Seq<char>, i: int)
    requires
        0 <= i <= s.len(),
        i < s.len() ==> s[i].name == name,
        forall|k: int| 0 <= k < i ==> (#[trigger] s[k]).name != name,
    ensures
        variable_place(s, name) == i,
{
    lemma_place(s, name);
    let j = variable_place(s, name);
    if j < i {
        assert(s[j].name != name);
    } else if i < j {
        assert(s[i].name != name);
    }
}

/// A definition changes the variable that it names, and no other.
pub proof fn law_definition_changes_its_variable(s: Seq<VariableModel>, d: DefinitionModel)
    ensures
        variable(defined(s, d), d.subject()) == d.applied(variable(s, d.subject())),
        forall|n: Seq<char>|
            n != d.subject() ==> #[trigger] variable(defined(s, d), n) == variable(s, n),
{
    let name = d.subject();
    lemma_place(s, name);
    let i = variable_place(s, name);
    let r = defined(s, d);
    assert(d.applied(variable(s, name)).name == name);
    assert forall|k: int| 0 <= k < i implies (#[trigger] r[k]).name != name by {
        assert(r[k] == s[k]);
    }
    lemma_place_is(r, name, i);
    assert forall|n: Seq<char>| n != name implies #[trigger] variable(r, n) == variable(s, n) by {
        lemma_place(s, n);
        let j = variable_place(s, n);
        if j < s.len() {
            assert forall|k: int| 0 <= k < j implies (#[trigger] r[k]).name != n by {
                if k != i {
                    assert(r[k] == s[k]);
                }
            }
            lemma_place_is(r, n, j);
        } else {
            assert forall|k: int| 0 <= k < r.len() implies (#[trigger] r[k]).name != n by {
                if k != i {
                    assert(r[k] == s[k]);
                }
            }
            lemma_place_is(r, n, r.len() as int);
        }
    }
}

/// A variable that is special stays so.
proof fn lemma_special_stays(s: Seq<VariableModel>, defs: Seq<DefinitionModel>, n: Seq<char>, k: int)
    requires
        0 <= k < defs.len(),
        defs[k].subject() == n,
        defs[k].makes_special(),
    ensures
        variable(all_defined(s, defs), n).special,
    decreases defs.len(),
{
    let before = all_defined(s, defs.drop_last());
    law_definition_changes_its_variable(before, defs.last());
    if k < defs.len() - 1 {
        lemma_special_stays(s, defs.drop_last(), n, k);
    }
}

/// Every variable that a definition makes special is special once all of them are made,
/// whatever the others do.
pub proof fn law_special_variables_are_special(
    s: Seq<VariableModel>,
    defs: Seq<DefinitionModel>,
)
    ensures
        forall|k: int|
            0 <= k < defs.len() && (#[trigger] defs[k]).makes_special() ==> variable(
                all_defined(s, defs),
                defs[k].subject(),
            ).special,
{
    assert forall|k: int| 0 <= k < defs.len() && (#[trigger] defs[k]).makes_special() implies variable(
        all_defined(s, defs),
        defs[k].subject(),
    ).special by {
        lemma_special_stays(s, defs, defs[k].subject(), k);
    }
}

impl Obarray {
    pub fn new() -> (r: Obarray)
        ensures
            r@.len() == 0,
    {
        Obarray { variables: Vec::new() }
    }

    fn place(&self, name: &str) -> (r: usize)
        ensures
            r == variable_place(self@, name@),
            r <= self.variables@.len(),
    {
        let mut i: usize = 0;
        while i < self.variables.len()
            invariant
                i <= self.variables.len(),
                forall|k: int| 0 <= k < i ==> (#[trigger] self@[k]).name != name@,
            decreases self.variables.len() - i,
        {
            if text::same(self.variables[i].name.as_str(), name) {
                proof {
                    lemma_place_is(self@, name@, i as int);
                }
                return i;
            }
            i += 1;
        }
        proof {
            lemma_place_is(self@, name@, i as int);
        }
        i
    }

    /// The variable of a name, if it is known.
    pub fn lookup(&self, name: &str) -> (r: Option<&Variable>)
        ensures
            match r {
                Some(v) => v@ == variable(self@, name@) && variable_place(self@, name@)
                    < self@.len(),
                None => variable(self@, name@) == unknown(name@) && variable_place(self@, name@)
                    >= self@.len(),
            },
    {
        let i: usize = self.place(name);
        if i < self.variables.len() {
            Some(&self.variables[i])
        } else {
            None
        }
    }

    /// Makes a definition.
    pub fn define(&mut self, d: Definition)
        ensures
            final(self)@ == defined(old(self)@, d@),
    {
        let ghost m = d@;
        let (name, value, special, integer): (&'static str, Option<Value>, bool, bool) = match d {
            Definition::SetValue(n, v) => (n, Some(v), false, false),
            Definition::MakeSpecial(n) => (n, None, true, false),
            Definition::DefineSpecial(n, v) => (n, Some(v), true, false),
            Definition::DefineInt(n, i) => (n, Some(Value::Fixnum(i)), true, true),
        };
        let i: usize = self.place(name);
        if i < self.variables.len() {
            match value {
                Some(v) => {
                    self.variables[i].value = Some(v);
                },
                None => {},
            }
            if special {
                self.variables[i].special = true;
            }
            if integer {
                self.variables[i].integer = true;
            }
            proof {
                assert(self@ =~= defined(old(self)@, m));
            }
        } else {
            let v: Variable = Variable {
                name: text::copy(name),
                value: value,
                special: special,
                integer: integer,
            };
            self.variables.push(v);
            proof {
                assert(self@ =~= defined(old(self)@, m));
            }
        }
    }
}

/// The bits of one third, as a double.
pub const ONE_THIRD: u64 = 0x3fd5_5555_5555_5555;

/// The bits of one and a half, as a double.
pub const ONE_AND_A_HALF: u64 = 0x3ff8_0000_0000_0000;

/// The bits of thirteen sixteenths, as a double.
pub const THIRTEEN_SIXTEENTHS: u64 = 0x3fea_0000_0000_0000;

/// A table whose values do not stay alive for being in it.
pub open spec fn dead_windows_table() -> Datum {
    Datum::Table(
        EmptyTable {
            test: TableTest::Eql,
            size: 0,
            weakness: Some(TableWeakness::Value),
            rehash_size: ONE_AND_A_HALF,
            rehash_threshold: THIRTEEN_SIXTEENTHS,
        },
    )
}

/// The variables of the window system. That of the sizes of windows which share a
/// frame is not among them: it is defined in Lisp.
pub open spec fn bootstrap_definitions() -> Seq<DefinitionModel> {
    seq![
        DefinitionModel::DefineSpecial("window-dead-windows-table"@, dead_windows_table()),
        DefinitionModel::SetValue(
            "window-persistent-parameters"@,
            lisp::list_of(
                seq![
                    Datum::Pair(Box::new(Datum::Symbol("clone-of"@)), Box::new(Datum::T)),
                ],
            ),
        ),
        DefinitionModel::SetValue("recenter-redisplay"@, Datum::Symbol("tty"@)),
        DefinitionModel::SetValue("window-restore-killed-buffer-windows"@, Datum::Nil),
        DefinitionModel::SetValue("window-combination-resize"@, Datum::Nil),
        DefinitionModel::SetValue("window-combination-limit"@, Datum::Symbol("window-size"@)),
        DefinitionModel::MakeSpecial("window-persistent-parameters"@),
        DefinitionModel::MakeSpecial("recenter-redisplay"@),
        DefinitionModel::MakeSpecial("window-restore-killed-buffer-windows"@),
        DefinitionModel::MakeSpecial("window-combination-resize"@),
        DefinitionModel::MakeSpecial("window-combination-limit"@),
        DefinitionModel::DefineSpecial("delete-frame-functions"@, Datum::Nil),
        DefinitionModel::DefineSpecial("after-delete-frame-functions"@, Datum::Nil),
        DefinitionModel::DefineSpecial("window-buffer-change-functions"@, Datum::Nil),
        DefinitionModel::DefineSpecial("window-size-change-functions"@, Datum::Nil),
        DefinitionModel::DefineSpecial("window-selection-change-functions"@, Datum::Nil),
        DefinitionModel::DefineSpecial("window-state-change-functions"@, Datum::Nil),
        DefinitionModel::DefineSpecial("window-state-change-hook"@, Datum::Nil),
        DefinitionModel::SetValue("window-sides-vertical"@, Datum::Nil),
        DefinitionModel::SetValue("window-sides-slots"@, Datum::Nil),
        DefinitionModel::SetValue("fit-window-to-buffer-horizontally"@, Datum::Nil),
        DefinitionModel::SetValue("fit-frame-to-buffer"@, Datum::Nil),
        DefinitionModel::SetValue(
            "fit-frame-to-buffer-margins"@,
            lisp::list_of(
                seq![Datum::Fixnum(0), Datum::Fixnum(0), Datum::Fixnum(0), Datum::Fixnum(0)],
            ),
        ),
        DefinitionModel::SetValue("fit-frame-to-buffer-sizes"@, Datum::Nil),
        DefinitionModel::SetValue("window-min-height"@, Datum::Fixnum(4)),
        DefinitionModel::SetValue("window-min-width"@, Datum::Fixnum(10)),
        DefinitionModel::SetValue("window-safe-min-height"@, Datum::Fixnum(1)),
        DefinitionModel::SetValue("window-safe-min-width"@, Datum::Fixnum(2)),
        DefinitionModel::SetValue("scroll-preserve-screen-position"@, Datum::Nil),
        DefinitionModel::DefineSpecial("window-point-insertion-type"@, Datum::Nil),
        DefinitionModel::DefineInt("next-screen-context-lines"@, 2),
        DefinitionModel::SetValue("scroll-error-top-bottom"@, Datum::Nil),
        DefinitionModel::SetValue("temp-buffer-max-height"@, Datum::Float(ONE_THIRD)),
        DefinitionModel::SetValue("temp-buffer-max-width"@, Datum::Nil),
    ]
}

pub open spec fn models(v: Seq<Definition>) -> Seq<DefinitionModel> {
    Seq::new(v.len(), |i: int| v[i]@)
}

fn persistent_parameters() -> (r: Value)
    ensures
        r@ == lisp::list_of(
            seq![Datum::Pair(Box::new(Datum::Symbol("clone-of"@)), Box::new(Datum::T))],
        ),
{
    let mut items: Vec<Value> = Vec::new();
    items.push(lisp::pair(lisp::symbol("clone-of"), Value::T));
    proof {
        assert(lisp::data(items@) =~= seq![
            Datum::Pair(Box::new(Datum::Symbol("clone-of"@)), Box::new(Datum::T)),
        ]);
    }
    lisp::list(items)
}

fn no_margins() -> (r: Value)
    ensures
        r@ == lisp::list_of(
            seq![Datum::Fixnum(0), Datum::Fixnum(0), Datum::Fixnum(0), Datum::Fixnum(0)],
        ),
{
    let mut items: Vec<Value> = Vec::new();
    items.push(Value::Fixnum(0));
    items.push(Value::Fixnum(0));
    items.push(Value::Fixnum(0));
    items.push(Value::Fixnum(0));
    proof {
        assert(lisp::data(items@) =~= seq![
            Datum::Fixnum(0),
            Datum::Fixnum(0),
            Datum::Fixnum(0),
            Datum::Fixnum(0),
        ]);
    }
    lisp::list(items)
}

fn window_definitions() -> (r: Vec<Definition>)
    ensures
        models(r@) == bootstrap_definitions(),
{
    let table: EmptyTable = EmptyTable {
        test: TableTest::Eql,
        size: 0,
        weakness: Some(TableWeakness::Value),
        rehash_size: ONE_AND_A_HALF,
        rehash_threshold: THIRTEEN_SIXTEENTHS,
    };
    let r: Vec<Definition> = vec![
        Definition::DefineSpecial("window-dead-windows-table", Value::Table(table)),
        Definition::SetValue("window-persistent-parameters", persistent_parameters()),
        Definition::SetValue("recenter-redisplay", lisp::symbol("tty")),
        Definition::SetValue("window-restore-killed-buffer-windows", Value::Nil),
        Definition::SetValue("window-combination-resize", Value::Nil),
        Definition::SetValue("window-combination-limit", lisp::symbol("window-size")),
        Definition::MakeSpecial("window-persistent-parameters"),
        Definition::MakeSpecial("recenter-redisplay"),
        Definition::MakeSpecial("window-restore-killed-buffer-windows"),
        Definition::MakeSpecial("window-combination-resize"),
        Definition::MakeSpecial("window-combination-limit"),
        Definition::DefineSpecial("delete-frame-functions", Value::Nil),
        Definition::DefineSpecial("after-delete-frame-functions", Value::Nil),
        Definition::DefineSpecial("window-buffer-change-functions", Value::Nil),
        Definition::DefineSpecial("window-size-change-functions", Value::Nil),
        Definition::DefineSpecial("window-selection-change-functions", Value::Nil),
        Definition::DefineSpecial("window-state-change-functions", Value::Nil),
        Definition::DefineSpecial("window-state-change-hook", Value::Nil),
        Definition::SetValue("window-sides-vertical", Value::Nil),
        Definition::SetValue("window-sides-slots", Value::Nil),
        Definition::SetValue("fit-window-to-buffer-horizontally", Value::Nil),
        Definition::SetValue("fit-frame-to-buffer", Value::Nil),
        Definition::SetValue("fit-frame-to-buffer-margins", no_margins()),
        Definition::SetValue("fit-frame-to-buffer-sizes", Value::Nil),
        Definition::SetValue("window-min-height", Value::Fixnum(4)),
        Definition::SetValue("window-min-width", Value::Fixnum(10)),
        Definition::SetValue("window-safe-min-height", Value::Fixnum(1)),
        Definition::SetValue("window-safe-min-width", Value::Fixnum(2)),
        Definition::SetValue("scroll-preserve-screen-position", Value::Nil),
        Definition::DefineSpecial("window-point-insertion-type", Value::Nil),
        Definition::DefineInt("next-screen-context-lines", 2),
        Definition::SetValue("scroll-error-top-bottom", Value::Nil),
        Definition::SetValue("temp-buffer-max-height", Value::Float(ONE_THIRD)),
        Definition::SetValue("temp-buffer-max-width", Value::Nil),
    ];
    proof {
        assert(models(r@) =~= bootstrap_definitions());
    }
    r
}

/// Defines the variables of the window system.
pub fn register_bootstrap_vars(obarray: &mut Obarray)
    ensures
        final(obarray)@ == all_defined(old(obarray)@, bootstrap_definitions()),
{
    let mut defs: Vec<Definition> = window_definitions();
    let ghost all = models(defs@);
    let n: usize = defs.len();
    let mut i: usize = 0;
    proof {
        assert(all.subrange(0, 0) =~= Seq::empty());
    }
    while i < n
        invariant
            i <= n,
            n == all.len(),
            defs.len() == n - i,
            models(defs@) == all.subrange(i as int, n as int),
            obarray@ == all_defined(old(obarray)@, all.subrange(0, i as int)),
        decreases n - i,
    {
        let ghost before = models(defs@);
        let d: Definition = defs.remove(0);
        proof {
            assert(before[0] == d@);
            assert(all[i as int] == d@);
            assert(models(defs@) =~= all.subrange(i + 1, n as int)) by {
                assert(models(defs@) =~= before.subrange(1, before.len() as int));
                assert(before.subrange(1, before.len() as int) =~= all.subrange(
                    i + 1,
                    n as int,
                ));
            }
            assert(all.subrange(0, i + 1).drop_last() =~= all.subrange(0, i as int));
        }
        obarray.define(d);
        i += 1;
    }
    proof {
        assert(all.subrange(0, n as int) =~= all);
    }
}

/// The hooks of the window system are bound dynamically as soon as they are there.
pub proof fn law_bootstrap_hooks_are_special(s: Seq<VariableModel>)
    ensures
        ({
            let t = all_defined(s, bootstrap_definitions());
            &&& variable(t, "delete-frame-functions"@).special
            &&& variable(t, "after-delete-frame-functions"@).special
            &&& variable(t, "window-buffer-change-functions"@).special
            &&& variable(t, "window-size-change-functions"@).special
            &&& variable(t, "window-selection-change-functions"@).special
            &&& variable(t, "window-state-change-functions"@).special
            &&& variable(t, "window-state-change-hook"@).special
        }),
{
    let defs = bootstrap_definitions();
    law_special_variables_are_special(s, defs);
    assert(defs[11].subject() == "delete-frame-functions"@ && defs[11].makes_special());
    assert(defs[12].subject() == "after-delete-frame-functions"@ && defs[12].makes_special());
    assert(defs[13].subject() == "window-buffer-change-functions"@ && defs[13].makes_special());
    assert(defs[14].subject() == "window-size-change-functions"@ && defs[14].makes_special());
    assert(defs[15].subject() == "window-selection-change-functions"@ && defs[15].makes_special());
    assert(defs[16].subject() == "window-state-change-functions"@ && defs[16].makes_special());
    assert(defs[17].subject() == "window-state-change-hook"@ && defs[17].makes_special());
}

} // verus!
