//! Lisp values, the errors that primitives signal, and the decoding of arguments.
use vstd::prelude::*;

use crate::text;

verus! {

/// How a hash table tells keys apart.
#[derive(Debug, Clone, Copy, PartialEq, Eq, Structural)]
pub enum TableTest {
    Eq,
    Eql,
    Equal,
}

/// Which of a hash table's references do not keep their object alive.
#[derive(Debug, Clone, Copy, PartialEq, Eq, Structural)]
pub enum TableWeakness {
    Key,
    Value,
    KeyAndValue,
    KeyOrValue,
}

/// A hash table without entries. The two ratios are given by the bits of the double
/// that holds them.
#[derive(Debug, Clone, Copy, PartialEq, Eq, Structural)]
pub struct EmptyTable {
    pub test: TableTest,
    pub size: i64,
    pub weakness: Option<TableWeakness>,
    pub rehash_size: u64,
    pub rehash_threshold: u64,
}

/// A Lisp value. A float is held by the bits of its double; windows, frames, buffers
/// and objects of other kinds by their number.
#[derive(Debug, PartialEq, Eq)]
pub enum Value {
    Nil,
    T,
    Fixnum(i64),
    Float(u64),
    Symbol(String),
    Text(String),
    Window(u64),
    Frame(u64),
    Buffer(u64),
    Marker(Option<u64>, Option<i64>),
    Table(EmptyTable),
    Pair(Box<Value>, Box<Value>),
    Other(u64),
}

/// What a value is.
pub enum Datum {
    Nil,
    T,
    Fixnum(int),
    Float(u64),
    Symbol(Seq<char>),
    Text(Seq<char>),
    Window(u64),
    Frame(u64),
    Buffer(u64),
    Marker(Option<u64>, Option<i64>),
    Table(EmptyTable),
    Pair(Box<Datum>, Box<Datum>),
    Other(u64),
}

impl View for Value {
    type V = Datum;

    open spec fn view(&self) -> Datum {
        datum(*self)
    }
}

pub open spec fn datum(v: Value) -> Datum
    decreases v,
{
    match v {
        Value::Nil => Datum::Nil,
        Value::T => Datum::T,
        Value::Fixnum(n) => Datum::Fixnum(n as int),
        Value::Float(b) => Datum::Float(b),
        Value::Symbol(s) => Datum::Symbol(s@),
        Value::Text(s) => Datum::Text(s@),
        Value::Window(n) => Datum::Window(n),
        Value::Frame(n) => Datum::Frame(n),
        Value::Buffer(n) => Datum::Buffer(n),
        Value::Marker(b, p) => Datum::Marker(b, p),
        Value::Table(t) => Datum::Table(t),
        Value::Pair(a, b) => Datum::Pair(Box::new(datum(*a)), Box::new(datum(*b))),
        Value::Other(n) => Datum::Other(n),
    }
}

/// What a run of values is.
pub open spec fn data(v: Seq<Value>) -> Seq<Datum> {
    Seq::new(v.len(), |i: int| v[i]@)
}

pub proof fn lemma_data_push(v: Seq<Value>, x: Value)
    ensures
        data(v.push(x)) == data(v).push(x@),
{
    assert(data(v.push(x)) =~= data(v).push(x@));
}

/// A value like this one.
pub fn copy(v: &Value) -> (r: Value)
    ensures
        r@ == v@,
    decreases v,
{
    match v {
        Value::Nil => Value::Nil,
        Value::T => Value::T,
        Value::Fixnum(n) => Value::Fixnum(*n),
        Value::Float(b) => Value::Float(*b),
        Value::Symbol(s) => Value::Symbol(text::copy(s.as_str())),
        Value::Text(s) => Value::Text(text::copy(s.as_str())),
        Value::Window(n) => Value::Window(*n),
        Value::Frame(n) => Value::Frame(*n),
        Value::Buffer(n) => Value::Buffer(*n),
        Value::Marker(b, p) => Value::Marker(*b, *p),
        Value::Table(t) => Value::Table(*t),
        Value::Pair(a, b) => Value::Pair(Box::new(copy(a)), Box::new(copy(b))),
        Value::Other(n) => Value::Other(*n),
    }
}

pub fn symbol(name: &str) -> (r: Value)
    ensures
        r@ == Datum::Symbol(name@),
{
    Value::Symbol(text::copy(name))
}

pub fn string(s: &str) -> (r: Value)
    ensures
        r@ == Datum::Text(s@),
{
    Value::Text(text::copy(s))
}

pub fn pair(a: Value, b: Value) -> (r: Value)
    ensures
        r@ == Datum::Pair(Box::new(a@), Box::new(b@)),
{
    Value::Pair(Box::new(a), Box::new(b))
}

pub fn truth(b: bool) -> (r: Value)
    ensures
        r@ == truth_of(b),
{
    if b {
        Value::T
    } else {
        Value::Nil
    }
}

pub open spec fn truth_of(b: bool) -> Datum {
    if b {
        Datum::T
    } else {
        Datum::Nil
    }
}

pub fn is_nil(v: &Value) -> (r: bool)
    ensures
        r == (v@ is Nil),
{
    match v {
        Value::Nil => true,
        _ => false,
    }
}

pub fn is_t(v: &Value) -> (r: bool)
    ensures
        r == (v@ is T),
{
    match v {
        Value::T => true,
        _ => false,
    }
}

/// The number that a value is.
pub fn as_int(v: &Value) -> (r: Option<i64>)
    ensures
        match v@ {
            Datum::Fixnum(n) => r matches Some(i) && i == n,
            _ => r is None,
        },
{
    match v {
        Value::Fixnum(n) => Some(*n),
        _ => None,
    }
}

/// What an optional argument is: `nil` where it is left out.
pub open spec fn given(v: Option<&Value>) -> Datum {
    match v {
        Some(x) => x@,
        None => Datum::Nil,
    }
}

/// An optional argument is there and is not `nil`.
pub fn is_given(v: Option<&Value>) -> (r: bool)
    ensures
        r == !(given(v) is Nil),
{
    match v {
        Some(x) => !is_nil(x),
        None => false,
    }
}

/// The name of a symbol, `nil` and `t` included.
pub open spec fn symbol_name(d: Datum) -> Option<Seq<char>> {
    match d {
        Datum::Nil => Some("nil"@),
        Datum::T => Some("t"@),
        Datum::Symbol(s) => Some(s),
        _ => None,
    }
}

pub fn name_of(v: &Value) -> (r: Option<&str>)
    ensures
        match r {
            Some(s) => symbol_name(v@) == Some(s@),
            None => symbol_name(v@) is None,
        },
{
    match v {
        Value::Nil => Some("nil"),
        Value::T => Some("t"),
        Value::Symbol(s) => Some(s.as_str()),
        _ => None,
    }
}

/// The symbol of this name.
pub open spec fn is_symbol(d: Datum, name: Seq<char>) -> bool {
    symbol_name(d) == Some(name)
}

pub fn is_symbol_named(v: &Value, name: &str) -> (r: bool)
    ensures
        r == is_symbol(v@, name@),
{
    match name_of(v) {
        Some(s) => text::same(s, name),
        None => false,
    }
}

/// The items of a proper list.
pub open spec fn list_items(d: Datum) -> Option<Seq<Datum>>
    decreases d,
{
    match d {
        Datum::Nil => Some(Seq::empty()),
        Datum::Pair(a, b) => match list_items(*b) {
            Some(rest) => Some(seq![*a] + rest),
            None => None,
        },
        _ => None,
    }
}

/// The list of these items.
pub open spec fn list_of(items: Seq<Datum>) -> Datum
    decreases items.len(),
{
    if items.len() == 0 {
        Datum::Nil
    } else {
        Datum::Pair(
            Box::new(items[0]),
            Box::new(list_of(items.subrange(1, items.len() as int))),
        )
    }
}

/// Reading a list gives back the items that it was made of.
pub proof fn law_list_reads_back(items: Seq<Datum>)
    ensures
        list_items(list_of(items)) == Some(items),
    decreases items.len(),
{
    if items.len() == 0 {
        assert(items =~= Seq::empty());
    } else {
        let rest = items.subrange(1, items.len() as int);
        law_list_reads_back(rest);
        assert(seq![items[0]] + rest =~= items);
    }
}

/// The items of a proper list.
pub fn list_to_vec(v: &Value) -> (r: Option<Vec<Value>>)
    ensures
        match r {
            Some(items) => list_items(v@) == Some(data(items@)),
            None => list_items(v@) is None,
        },
{
    let mut out: Vec<Value> = Vec::new();
    let mut cur: &Value = v;
    proof {
        assert(data(out@) =~= Seq::empty());
    }
    loop
        invariant
            match list_items(cur@) {
                Some(rest) => list_items(v@) == Some(data(out@) + rest),
                None => list_items(v@) is None,
            },
        decreases cur,
    {
        match cur {
            Value::Nil => {
                proof {
                    assert(data(out@) + Seq::<Datum>::empty() =~= data(out@));
                }
                return Some(out);
            },
            Value::Pair(a, b) => {
                let item: Value = copy(a);
                proof {
                    lemma_data_push(out@, item);
                    match list_items(b@) {
                        Some(rest) => {
                            assert(data(out@) + (seq![a@] + rest) =~= data(out@.push(item)) + rest);
                        },
                        None => {},
                    }
                }
                out.push(item);
                cur = &**b;
            },
            _ => {
                return None;
            },
        }
    }
}

/// The list of these values.
pub fn list(items: Vec<Value>) -> (r: Value)
    ensures
        r@ == list_of(data(items@)),
{
    let mut items: Vec<Value> = items;
    let ghost all = data(items@);
    let mut out: Value = Value::Nil;
    proof {
        assert(all.subrange(all.len() as int, all.len() as int) =~= Seq::empty());
    }
    while items.len() > 0
        invariant
            items.len() <= all.len(),
            data(items@) == all.subrange(0, items.len() as int),
            out@ == list_of(all.subrange(items.len() as int, all.len() as int)),
        decreases items.len(),
    {
        let ghost n = items.len() as int;
        let ghost before = items@;
        let last: Option<Value> = items.pop();
        match last {
            Some(x) => {
                proof {
                    assert(data(before)[n - 1] == x@);
                    assert(all[n - 1] == x@);
                    assert(data(items@) =~= all.subrange(0, n - 1));
                    let tail = all.subrange(n - 1, all.len() as int);
                    assert(tail.subrange(1, tail.len() as int) =~= all.subrange(
                        n,
                        all.len() as int,
                    ));
                }
                out = pair(x, out);
            },
            None => {},
        }
    }
    proof {
        assert(all.subrange(0, all.len() as int) =~= all);
    }
    out
}

/// The kinds of errors that the primitives signal.
#[derive(Debug, Clone, Copy, PartialEq, Eq, Structural)]
pub enum Condition {
    Error,
    WrongTypeArgument,
    ArgsOutOfRange,
    EndOfBuffer,
    BeginningOfBuffer,
}

/// A signalled error.
#[derive(Debug, PartialEq, Eq)]
pub struct Signal {
    pub condition: Condition,
    pub data: Vec<Value>,
}

/// The signal that `d` is not what `predicate` asks for.
pub open spec fn is_wrong_type(s: Signal, predicate: Seq<char>, d: Datum) -> bool {
    s.condition == Condition::WrongTypeArgument && data(s.data@) == seq![Datum::Symbol(predicate), d]
}

/// The plain error with this text.
pub open spec fn is_error(s: Signal, message: Seq<char>) -> bool {
    s.condition == Condition::Error && data(s.data@) == seq![Datum::Text(message)]
}

/// The signal that `d` is not within the bounds.
pub open spec fn is_out_of_range(s: Signal, d: Datum, low: int, high: int) -> bool {
    s.condition == Condition::ArgsOutOfRange && data(s.data@) == seq![
        d,
        Datum::Fixnum(low),
        Datum::Fixnum(high),
    ]
}

pub fn wrong_type(predicate: &str, v: &Value) -> (r: Signal)
    ensures
        is_wrong_type(r, predicate@, v@),
{
    let mut items: Vec<Value> = Vec::new();
    items.push(symbol(predicate));
    items.push(copy(v));
    let r: Signal = Signal { condition: Condition::WrongTypeArgument, data: items };
    proof {
        assert(data(r.data@) =~= seq![Datum::Symbol(predicate@), v@]);
    }
    r
}

pub fn error(message: &str) -> (r: Signal)
    ensures
        is_error(r, message@),
{
    let mut items: Vec<Value> = Vec::new();
    items.push(string(message));
    let r: Signal = Signal { condition: Condition::Error, data: items };
    proof {
        assert(data(r.data@) =~= seq![Datum::Text(message@)]);
    }
    r
}

pub fn out_of_range(v: &Value, low: i64, high: i64) -> (r: Signal)
    ensures
        is_out_of_range(r, v@, low as int, high as int),
{
    let mut items: Vec<Value> = Vec::new();
    items.push(copy(v));
    items.push(Value::Fixnum(low));
    items.push(Value::Fixnum(high));
    let r: Signal = Signal { condition: Condition::ArgsOutOfRange, data: items };
    proof {
        assert(data(r.data@) =~= seq![
            v@,
            Datum::Fixnum(low as int),
            Datum::Fixnum(high as int),
        ]);
    }
    r
}

/// An integer argument.
pub fn expect_int(v: &Value) -> (r: Result<i64, Signal>)
    ensures
        match r {
            Ok(n) => v@ == Datum::Fixnum(n as int),
            Err(e) => !(v@ is Fixnum) && is_wrong_type(e, "integerp"@, v@),
        },
{
    match v {
        Value::Fixnum(n) => Ok(*n),
        _ => Err(wrong_type("integerp", v)),
    }
}

/// A number, a float by the bits of its double.
#[derive(Debug, Clone, Copy, PartialEq, Eq, Structural)]
pub enum Number {
    Fixnum(i64),
    Float(u64),
}

pub open spec fn number_datum(n: Number) -> Datum {
    match n {
        Number::Fixnum(i) => Datum::Fixnum(i as int),
        Number::Float(b) => Datum::Float(b),
    }
}

pub open spec fn is_number(d: Datum) -> bool {
    d is Fixnum || d is Float
}

/// A numeric argument; `predicate` names what is asked for.
pub fn expect_numeric(v: &Value, predicate: &str) -> (r: Result<Number, Signal>)
    ensures
        match r {
            Ok(n) => v@ == number_datum(n),
            Err(e) => !is_number(v@) && is_wrong_type(e, predicate@, v@),
        },
{
    match v {
        Value::Fixnum(n) => Ok(Number::Fixnum(*n)),
        Value::Float(b) => Ok(Number::Float(*b)),
        _ => Err(wrong_type(predicate, v)),
    }
}

pub fn expect_number(v: &Value) -> (r: Result<Number, Signal>)
    ensures
        match r {
            Ok(n) => v@ == number_datum(n),
            Err(e) => !is_number(v@) && is_wrong_type(e, "numberp"@, v@),
        },
{
    expect_numeric(v, "numberp")
}

pub fn expect_number_or_marker(v: &Value) -> (r: Result<Number, Signal>)
    ensures
        match r {
            Ok(n) => v@ == number_datum(n),
            Err(e) => !is_number(v@) && is_wrong_type(e, "number-or-marker-p"@, v@),
        },
{
    expect_numeric(v, "number-or-marker-p")
}

/// A buffer's name as an argument.
pub fn expect_buffer_name_string(v: &Value) -> (r: Result<String, Signal>)
    ensures
        match r {
            Ok(s) => v@ == Datum::Text(s@),
            Err(e) => !(v@ is Text) && is_wrong_type(e, "stringp"@, v@),
        },
{
    match v {
        Value::Text(s) => Ok(text::copy(s.as_str())),
        _ => Err(wrong_type("stringp", v)),
    }
}

pub const MAX_MARGIN: i64 = 2_147_483_647;

/// What a margin argument stands for.
pub open spec fn margin_of(d: Datum) -> Option<int> {
    match d {
        Datum::Nil => Some(0),
        Datum::Fixnum(n) => if 0 <= n <= MAX_MARGIN {
            Some(n)
        } else {
            None
        },
        _ => None,
    }
}

/// A margin's width: `nil` for none, or a number of columns.
pub fn expect_margin_width(v: &Value) -> (r: Result<u64, Signal>)
    ensures
        match r {
            Ok(n) => margin_of(v@) == Some(n as int),
            Err(e) => margin_of(v@) is None && if v@ is Fixnum {
                is_out_of_range(e, v@, 0, MAX_MARGIN as int)
            } else {
                is_wrong_type(e, "integerp"@, v@)
            },
        },
{
    match v {
        Value::Nil => Ok(0),
        Value::Fixnum(n) => if 0 <= *n && *n <= MAX_MARGIN {
            Ok(*n as u64)
        } else {
            Err(out_of_range(v, 0, MAX_MARGIN))
        },
        _ => Err(wrong_type("integerp", v)),
    }
}

/// What a width or height argument that may be left open stands for.
pub open spec fn dimension_of(d: Datum) -> Option<Option<int>> {
    match d {
        Datum::Nil => Some(None),
        Datum::Fixnum(n) => if i32::MIN <= n <= i32::MAX {
            Some(Some(n))
        } else {
            None
        },
        _ => None,
    }
}

/// The outcome of decoding such an argument.
pub open spec fn is_dimension(r: Result<Option<i32>, Signal>, d: Datum) -> bool {
    match r {
        Ok(None) => dimension_of(d) == Some(None::<int>),
        Ok(Some(n)) => dimension_of(d) == Some(Some(n as int)),
        Err(e) => dimension_of(d) is None && if d is Fixnum {
            is_out_of_range(e, d, 0, i32::MAX as int)
        } else {
            is_wrong_type(e, "integerp"@, d)
        },
    }
}

/// A width or height, or `nil` where it is left open.
pub fn optional_dimension(v: &Value) -> (r: Result<Option<i32>, Signal>)
    ensures
        is_dimension(r, v@),
{
    match v {
        Value::Nil => Ok(None),
        Value::Fixnum(n) => if -2_147_483_648 <= *n && *n <= 2_147_483_647 {
            Ok(Some(*n as i32))
        } else {
            Err(out_of_range(v, 0, 2_147_483_647))
        },
        _ => Err(wrong_type("integerp", v)),
    }
}

/// What a window's body is measured in.
#[derive(Debug, Clone, Copy, PartialEq, Eq, Structural)]
pub enum WindowBodyUnit {
    CanonicalChars,
    RemappedChars,
    Pixels,
}

/// The unit that a size is asked for in.
pub open spec fn body_unit(d: Datum) -> WindowBodyUnit {
    if d is Nil {
        WindowBodyUnit::CanonicalChars
    } else if is_symbol(d, "remap"@) {
        WindowBodyUnit::RemappedChars
    } else {
        WindowBodyUnit::Pixels
    }
}

/// The unit that an argument asks for: the frame's character cells for `nil`, the
/// buffer's own for `remap`, and pixels for anything else.
pub fn window_body_unit_from_lisp(v: Option<&Value>) -> (r: WindowBodyUnit)
    ensures
        r == body_unit(given(v)),
{
    match v {
        None => WindowBodyUnit::CanonicalChars,
        Some(x) => if is_nil(x) {
            WindowBodyUnit::CanonicalChars
        } else if is_symbol_named(x, "remap") {
            WindowBodyUnit::RemappedChars
        } else {
            WindowBodyUnit::Pixels
        },
    }
}

/// The side of a window that a new one is put on.
#[derive(Debug, Clone, Copy, PartialEq, Eq, Structural)]
pub enum SplitWindowSide {
    Above,
    Below,
    Left,
    Right,
}

impl SplitWindowSide {
    pub open spec fn spelled(self) -> Seq<char> {
        match self {
            SplitWindowSide::Above => "above"@,
            SplitWindowSide::Below => "below"@,
            SplitWindowSide::Left => "left"@,
            SplitWindowSide::Right => "right"@,
        }
    }

    /// The side that an argument names.
    pub open spec fn named(d: Datum) -> Option<SplitWindowSide> {
        if d is Nil {
            Some(SplitWindowSide::Below)
        } else if d is T {
            Some(SplitWindowSide::Right)
        } else if is_symbol(d, "above"@) {
            Some(SplitWindowSide::Above)
        } else if is_symbol(d, "below"@) {
            Some(SplitWindowSide::Below)
        } else if is_symbol(d, "left"@) {
            Some(SplitWindowSide::Left)
        } else if is_symbol(d, "right"@) {
            Some(SplitWindowSide::Right)
        } else {
            None
        }
    }

    pub fn from_lisp_value(v: &Value) -> (r: Option<SplitWindowSide>)
        ensures
            r == SplitWindowSide::named(v@),
    {
        if is_nil(v) {
            Some(SplitWindowSide::Below)
        } else if is_t(v) {
            Some(SplitWindowSide::Right)
        } else if is_symbol_named(v, "above") {
            Some(SplitWindowSide::Above)
        } else if is_symbol_named(v, "below") {
            Some(SplitWindowSide::Below)
        } else if is_symbol_named(v, "left") {
            Some(SplitWindowSide::Left)
        } else if is_symbol_named(v, "right") {
            Some(SplitWindowSide::Right)
        } else {
            None
        }
    }

    pub fn is_horizontal(self) -> (r: bool)
        ensures
            r == (self == SplitWindowSide::Left || self == SplitWindowSide::Right),
    {
        match self {
            SplitWindowSide::Left | SplitWindowSide::Right => true,
            _ => false,
        }
    }

    /// The new window comes before the one that is split.
    pub fn is_before(self) -> (r: bool)
        ensures
            r == (self == SplitWindowSide::Above || self == SplitWindowSide::Left),
    {
        match self {
            SplitWindowSide::Above | SplitWindowSide::Left => true,
            _ => false,
        }
    }

    pub fn name(self) -> (r: &'static str)
        ensures
            r@ == self.spelled(),
    {
        match self {
            SplitWindowSide::Above => "above",
            SplitWindowSide::Below => "below",
            SplitWindowSide::Left => "left",
            SplitWindowSide::Right => "right",
        }
    }
}

/// A side is read back from its name.
pub proof fn law_split_side_names(side: SplitWindowSide)
    ensures
        SplitWindowSide::named(Datum::Symbol(side.spelled())) == Some(side),
{
    reveal_strlit("above");
    reveal_strlit("below");
    reveal_strlit("left");
    reveal_strlit("right");
    assert("above"@[0] == 'a' && "below"@[0] == 'b' && "left"@[0] == 'l' && "right"@[0] == 'r');
}

/// A buffer position as an argument.
#[derive(Debug, Clone, Copy, PartialEq, Eq, Structural)]
pub enum IntegerOrMarkerArg {
    Int(i64),
    Marker(Option<i64>),
}

/// The position that an argument gives: a number, or what a marker points to.
pub fn parse_integer_or_marker_arg(v: &Value) -> (r: Result<IntegerOrMarkerArg, Signal>)
    ensures
        match v@ {
            Datum::Fixnum(n) => r matches Ok(IntegerOrMarkerArg::Int(i)) && i == n,
            Datum::Marker(_, p) => r == Ok::<IntegerOrMarkerArg, Signal>(
                IntegerOrMarkerArg::Marker(p),
            ),
            _ => r matches Err(e) && is_wrong_type(e, "integer-or-marker-p"@, v@),
        },
{
    match v {
        Value::Fixnum(n) => Ok(IntegerOrMarkerArg::Int(*n)),
        Value::Marker(_, p) => Ok(IntegerOrMarkerArg::Marker(*p)),
        _ => Err(wrong_type("integer-or-marker-p", v)),
    }
}

/// A cursor's shape, with or without a width.
pub open spec fn is_cursor_type(d: Datum) -> bool {
    match d {
        Datum::Nil => true,
        Datum::T => true,
        Datum::Symbol(s) => s == "box"@ || s == "hollow"@ || s == "bar"@ || s == "hbar"@,
        Datum::Pair(a, b) => (is_symbol(*a, "box"@) || is_symbol(*a, "bar"@) || is_symbol(
            *a,
            "hbar"@,
        )) && *b is Fixnum,
        _ => false,
    }
}

/// Whether a value can be a window's cursor type: `nil`, `t`, the name of a shape, or
/// one that takes a width with its width.
pub fn is_valid_cursor_type(v: &Value) -> (r: bool)
    ensures
        r == is_cursor_type(v@),
{
    match v {
        Value::Nil => true,
        Value::T => true,
        Value::Symbol(s) => text::same(s.as_str(), "box") || text::same(s.as_str(), "hollow")
            || text::same(s.as_str(), "bar") || text::same(s.as_str(), "hbar"),
        Value::Pair(a, b) => {
            let shape: bool = is_symbol_named(a, "box") || is_symbol_named(a, "bar")
                || is_symbol_named(a, "hbar");
            shape && as_int(b).is_some()
        },
        _ => false,
    }
}

/// A frame's size as a parameter gives it.
#[derive(Debug, Clone, Copy, PartialEq, Eq, Structural)]
pub enum FrameSizeParam {
    Cells(i64),
    TextPixels(u32),
}

impl FrameSizeParam {
    pub fn is_zero(self) -> (r: bool)
        ensures
            r == match self {
                FrameSizeParam::Cells(n) => n == 0,
                FrameSizeParam::TextPixels(px) => px == 0,
            },
    {
        match self {
            FrameSizeParam::Cells(n) => n == 0,
            FrameSizeParam::TextPixels(px) => px == 0,
        }
    }
}

/// What a size parameter says: a number of cells, or pixels of the text area.
pub open spec fn size_param_of(d: Datum) -> Option<FrameSizeParam> {
    match d {
        Datum::Fixnum(n) => if n >= 0 {
            Some(FrameSizeParam::Cells(n as i64))
        } else {
            None
        },
        Datum::Pair(a, b) => if is_symbol(*a, "text-pixels"@) {
            match *b {
                Datum::Fixnum(n) => if 0 <= n <= u32::MAX {
                    Some(FrameSizeParam::TextPixels(n as u32))
                } else {
                    None
                },
                _ => None,
            }
        } else {
            None
        },
        _ => None,
    }
}

pub fn parse_frame_size_param(v: &Value) -> (r: Option<FrameSizeParam>)
    ensures
        r == size_param_of(v@),
{
    match v {
        Value::Fixnum(n) => if *n >= 0 {
            Some(FrameSizeParam::Cells(*n))
        } else {
            None
        },
        Value::Pair(a, b) => if is_symbol_named(a, "text-pixels") {
            match as_int(b) {
                Some(n) => if 0 <= n && n <= 4_294_967_295 {
                    Some(FrameSizeParam::TextPixels(n as u32))
                } else {
                    None
                },
                None => None,
            }
        } else {
            None
        },
        _ => None,
    }
}

/// The text of a string, or of a symbol's name; `nil` and `t` have none.
pub open spec fn stringish(d: Datum) -> Option<Seq<char>> {
    match d {
        Datum::Text(s) => Some(s),
        Datum::Symbol(s) => Some(s),
        _ => None,
    }
}

pub fn stringish_value(v: &Value) -> (r: Option<String>)
    ensures
        match r {
            Some(s) => stringish(v@) == Some(s@),
            None => stringish(v@) is None,
        },
{
    match v {
        Value::Text(s) => Some(text::copy(s.as_str())),
        Value::Symbol(s) => Some(text::copy(s.as_str())),
        _ => None,
    }
}

/// What a name parameter asks for: a name, none with `nil`, or nothing.
pub open spec fn frame_name_of(d: Datum) -> Option<Option<Seq<char>>> {
    if d is Nil {
        Some(None)
    } else {
        match stringish(d) {
            Some(s) => Some(Some(s)),
            None => None,
        }
    }
}

pub fn frame_name_parameter_value(v: &Value) -> (r: Option<Option<String>>)
    ensures
        match r {
            Some(Some(s)) => frame_name_of(v@) == Some(Some(s@)),
            Some(None) => frame_name_of(v@) == Some(None::<Seq<char>>),
            None => frame_name_of(v@) is None,
        },
{
    if is_nil(v) {
        Some(None)
    } else {
        match stringish_value(v) {
            Some(s) => Some(Some(s)),
            None => None,
        }
    }
}

/// The number of the window that a value stands for: a window, or a number that is
/// not negative.
pub open spec fn window_named(d: Datum) -> Option<u64> {
    match d {
        Datum::Window(n) => Some(n),
        Datum::Fixnum(n) => if n >= 0 {
            Some(n as u64)
        } else {
            None
        },
        _ => None,
    }
}

pub fn window_id_from_designator(v: &Value) -> (r: Option<u64>)
    ensures
        r == window_named(v@),
{
    match v {
        Value::Window(n) => Some(*n),
        Value::Fixnum(n) => if *n >= 0 {
            Some(*n as u64)
        } else {
            None
        },
        _ => None,
    }
}

} // verus!
