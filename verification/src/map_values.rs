//! Named values of the map editor's data: element fields either hold a value
//! or refer by name to an entry of a value table, and entries may refer to
//! further entries. Resolving follows the references to a plain value and
//! checks its type. `f32` numbers are carried as their bit patterns.
use vstd::prelude::*;

verus! {

/// Where an editor object came from.
#[derive(Debug, PartialEq, Eq)]
pub enum ObjectSource {
    Json { index: u32 },
    Element { index: u32 },
    TemplatePlacement { index_of_placement: usize, index_of_element: u32 },
    TemplateDefinition { name: String, index: u32 },
}

/// The direction a note is cut in.
#[derive(Copy, Clone, Debug, PartialEq, Eq, Structural)]
pub enum CutDirection {
    Up,
    Down,
    Left,
    Right,
    UpLeft,
    UpRight,
    DownLeft,
    DownRight,
    Dot,
}

/// A single value, or a reference to a named one.
#[derive(Debug)]
pub enum BaseValue {
    Reference(String),
    String(String),
    I32(i32),
    F32(u32),
}

/// A value of the table: a single value, a vector of them, or nothing.
#[derive(Debug)]
pub enum Value {
    BaseValue(BaseValue),
    Vec2([BaseValue; 2]),
    Vec3([BaseValue; 3]),
    Vec4([BaseValue; 4]),
    Empty,
}

/// A byte field.
#[derive(Debug)]
pub enum U8Value {
    Reference(String),
    U8(u8),
}

/// A number field.
#[derive(Debug)]
pub enum F32Value {
    Reference(String),
    F32(u32),
}

/// A number field that may be empty.
#[derive(Debug)]
pub enum OptionalF32Value {
    Reference(String),
    F32(u32),
    Empty,
}

/// A cut direction field.
#[derive(Debug)]
pub enum CutDirectionValue {
    Reference(String),
    CutDir(CutDirection),
}

/// Why a field could not be resolved.
#[derive(Debug)]
pub enum ResolveError {
    /// The reference names no entry of the table.
    MissingValue(String),
    /// The value reached has another type; the text names that type.
    WrongType(&'static str),
    /// Following the references that start at this name never reaches a
    /// value: they run in a circle.
    Cycle(String),
    /// A whole number that stands for one of a few choices names none of them.
    OutOfRange(i32),
}

/// Why the editor data could not become a beatmap.
#[derive(Debug)]
pub enum CanonicalizationError {
    ResolveError(ResolveError),
    /// A placement names a template that does not exist.
    InvalidTemplate(String),
}

/// A number read from a table: its `f32` bit pattern, or an integer that the
/// reader takes as a number.
#[derive(Copy, Clone, Debug, PartialEq, Eq, Structural)]
pub enum NumberValue {
    F32(u32),
    I32(i32),
}

/// The named values of a beatmap.
#[derive(Debug)]
pub struct ValueTable {
    pub entries: Vec<(String, Value)>,
}

/// The value of the first entry named `k`.
pub open spec fn lookup(t: Seq<(String, Value)>, k: Seq<char>) -> Option<Value>
    decreases t.len(),
{
    if t.len() == 0 {
        None
    } else if t[0].0@ == k {
        Some(t[0].1)
    } else {
        lookup(t.drop_first(), k)
    }
}

/// Follows references from `v` for at most `fuel` steps: the first value that
/// is not a reference, or the name of a reference to no entry; `None` when the
/// steps run out.
pub open spec fn chase(t: Seq<(String, Value)>, v: Value, fuel: nat) -> Option<Result<Value, Seq<char>>>
    decreases fuel,
{
    match v {
        Value::BaseValue(BaseValue::Reference(r)) => if fuel == 0 {
            None
        } else {
            match lookup(t, r@) {
                None => Some(Err(r@)),
                Some(w) => chase(t, w, (fuel - 1) as nat),
            }
        },
        _ => Some(Ok(v)),
    }
}

/// Following references from `v` ends: there is no cycle on the way.
pub open spec fn chase_ends(t: Seq<(String, Value)>, v: Value) -> bool {
    exists|f: nat| #[trigger] chase(t, v, f) is Some
}

/// Where following references from `v` ends.
pub open spec fn chased(t: Seq<(String, Value)>, v: Value) -> Result<Value, Seq<char>> {
    chase(t, v, choose|f: nat| #[trigger] chase(t, v, f) is Some).unwrap()
}

/// The name of a value's type.
pub open spec fn value_type_name(v: Value) -> Seq<char> {
    match v {
        Value::BaseValue(b) => match b {
            BaseValue::Reference(_) => "Reference"@,
            BaseValue::String(_) => "String"@,
            BaseValue::I32(_) => "i32"@,
            BaseValue::F32(_) => "f32"@,
        },
        Value::Vec2(_) => "Vec2"@,
        Value::Vec3(_) => "Vec3"@,
        Value::Vec4(_) => "Vec4"@,
        Value::Empty => "None"@,
    }
}

/// More steps do not change where following references ends.
pub proof fn lemma_chase_fuel(t: Seq<(String, Value)>, v: Value, f: nat, g: nat)
    requires
        chase(t, v, f) is Some,
        f <= g,
    ensures
        chase(t, v, g) == chase(t, v, f),
    decreases f,
{
    match v {
        Value::BaseValue(BaseValue::Reference(r)) => {
            match lookup(t, r@) {
                None => {},
                Some(w) => {
                    lemma_chase_fuel(t, w, (f - 1) as nat, (g - 1) as nat);
                },
            }
        },
        _ => {},
    }
}

proof fn lemma_chased(t: Seq<(String, Value)>, v: Value, f: nat)
    requires
        chase(t, v, f) is Some,
    ensures
        chased(t, v) == chase(t, v, f).unwrap(),
{
    let g = choose|g: nat| #[trigger] chase(t, v, g) is Some;
    if f <= g {
        lemma_chase_fuel(t, v, f, g);
    } else {
        lemma_chase_fuel(t, v, g, f);
    }
}

impl ValueTable {
    /// The value of the first entry named `name`, if any.
    pub fn get(&self, name: &String) -> (r: Option<&Value>)
        ensures
            match lookup(self.entries@, name@) {
                Some(v) => r == Some(&v),
                None => r is None,
            },
    {
        let ghost t = self.entries@;
        let n = self.entries.len();
        let mut i: usize = 0;
        proof {
            assert(t.skip(0) =~= t);
        }
        while i < n
            invariant
                n == t.len(),
                t == self.entries@,
                i <= n,
                lookup(t, name@) == lookup(t.skip(i as int), name@),
            decreases n - i,
        {
            proof {
                assert(t.skip(i as int)[0] == t[i as int]);
                assert(t.skip(i as int).drop_first() =~= t.skip(i + 1));
            }
            if self.entries[i].0 == *name {
                return Some(&self.entries[i].1);
            }
            i = i + 1;
        }
        proof {
            assert(t.skip(n as int) =~= Seq::<(String, Value)>::empty());
        }
        None
    }
}

impl Value {
    /// The name of the value's type.
    pub fn value_type(&self) -> (r: &'static str)
        ensures
            r@ == value_type_name(*self),
    {
        match self {
            Value::BaseValue(base_value) => match base_value {
                BaseValue::Reference(_) => "Reference",
                BaseValue::String(_) => "String",
                BaseValue::I32(_) => "i32",
                BaseValue::F32(_) => "f32",
            },
            Value::Vec2(_) => "Vec2",
            Value::Vec3(_) => "Vec3",
            Value::Vec4(_) => "Vec4",
            Value::Empty => "None",
        }
    }

    /// Follows references from the value to the first value that is not one.
    /// A reference to a name the table lacks is an error naming it.
    pub fn chase<'a>(&'a self, values: &'a ValueTable) -> (r: Result<&'a Value, ResolveError>)
        requires
            chase_ends(values.entries@, *self),
        ensures
            match chased(values.entries@, *self) {
                Ok(w) => r == Ok::<&Value, ResolveError>(&w),
                Err(n) => r matches Err(ResolveError::MissingValue(m)) && m@ == n,
            },
    {
        let ghost t = values.entries@;
        let ghost f0 = choose|f: nat| #[trigger] chase(t, *self, f) is Some;
        proof {
            lemma_chased(t, *self, f0);
        }
        let mut cur: &Value = self;
        let ghost mut f: nat = f0;
        loop
            invariant
                t == values.entries@,
                chase(t, *cur, f) is Some,
                chase(t, *cur, f) == chase(t, *self, f0),
                chased(t, *self) == chase(t, *self, f0).unwrap(),
            decreases f,
        {
            match cur {
                Value::BaseValue(BaseValue::Reference(name)) => {
                    match values.get(name) {
                        None => {
                            return Err(ResolveError::MissingValue(name.clone()));
                        },
                        Some(next) => {
                            proof {
                                f = (f - 1) as nat;
                            }
                            cur = next;
                        },
                    }
                },
                _ => {
                    return Ok(cur);
                },
            }
        }
    }
}

/// The whole number where following references from `v` ends.
pub open spec fn resolved_i32(t: Seq<(String, Value)>, v: Value) -> Result<i32, ResolveErrorView> {
    match chased(t, v) {
        Err(n) => Err(ResolveErrorView::MissingValue(n)),
        Ok(Value::BaseValue(BaseValue::I32(i))) => Ok(i),
        Ok(w) => Err(ResolveErrorView::WrongType(value_type_name(w))),
    }
}

/// The text where following references from `v` ends.
pub open spec fn resolved_string(t: Seq<(String, Value)>, v: Value) -> Result<Seq<char>, ResolveErrorView> {
    match chased(t, v) {
        Err(n) => Err(ResolveErrorView::MissingValue(n)),
        Ok(Value::BaseValue(BaseValue::String(s))) => Ok(s@),
        Ok(w) => Err(ResolveErrorView::WrongType(value_type_name(w))),
    }
}

/// The number where following references from `v` ends; an integer counts.
pub open spec fn resolved_number(t: Seq<(String, Value)>, v: Value) -> Result<NumberValue, ResolveErrorView> {
    match chased(t, v) {
        Err(n) => Err(ResolveErrorView::MissingValue(n)),
        Ok(Value::BaseValue(BaseValue::F32(f))) => Ok(NumberValue::F32(f)),
        Ok(Value::BaseValue(BaseValue::I32(i))) => Ok(NumberValue::I32(i)),
        Ok(w) => Err(ResolveErrorView::WrongType(value_type_name(w))),
    }
}

/// The number, or nothing, where following references from `v` ends.
pub open spec fn resolved_optional_number(t: Seq<(String, Value)>, v: Value) -> Result<Option<NumberValue>, ResolveErrorView> {
    match chased(t, v) {
        Err(n) => Err(ResolveErrorView::MissingValue(n)),
        Ok(Value::BaseValue(BaseValue::F32(f))) => Ok(Some(NumberValue::F32(f))),
        Ok(Value::BaseValue(BaseValue::I32(i))) => Ok(Some(NumberValue::I32(i))),
        Ok(Value::Empty) => Ok(None),
        Ok(w) => Err(ResolveErrorView::WrongType(value_type_name(w))),
    }
}

/// A resolve error with its texts as character sequences.
pub enum ResolveErrorView {
    MissingValue(Seq<char>),
    WrongType(Seq<char>),
    Cycle(Seq<char>),
    OutOfRange(i32),
}

pub open spec fn error_view(e: ResolveError) -> ResolveErrorView {
    match e {
        ResolveError::MissingValue(s) => ResolveErrorView::MissingValue(s@),
        ResolveError::WrongType(s) => ResolveErrorView::WrongType(s@),
        ResolveError::Cycle(s) => ResolveErrorView::Cycle(s@),
        ResolveError::OutOfRange(i) => ResolveErrorView::OutOfRange(i),
    }
}

pub open spec fn result_view<T>(r: Result<T, ResolveError>) -> Result<T, ResolveErrorView> {
    match r {
        Ok(x) => Ok(x),
        Err(e) => Err(error_view(e)),
    }
}

pub(crate) fn wrong_type<T>(w: &Value) -> (r: Result<T, ResolveError>)
    ensures
        result_view(r) == Err::<T, ResolveErrorView>(ResolveErrorView::WrongType(value_type_name(*w))),
{
    Err(ResolveError::WrongType(w.value_type()))
}

pub(crate) fn missing<T>(name: &String) -> (r: Result<T, ResolveError>)
    ensures
        result_view(r) == Err::<T, ResolveErrorView>(ResolveErrorView::MissingValue(name@)),
{
    Err(ResolveError::MissingValue(name.clone()))
}

impl Value {
    /// Resolves the value as a whole number.
    pub fn resolve_i32(&self, values: &ValueTable) -> (r: Result<i32, ResolveError>)
        requires
            chase_ends(values.entries@, *self),
        ensures
            result_view(r) == resolved_i32(values.entries@, *self),
    {
        match self.chase(values) {
            Err(e) => Err(e),
            Ok(w) => match w {
                Value::BaseValue(BaseValue::I32(i)) => Ok(*i),
                _ => wrong_type(w),
            },
        }
    }

    /// Resolves the value as a text.
    pub fn resolve_string(&self, values: &ValueTable) -> (r: Result<String, ResolveError>)
        requires
            chase_ends(values.entries@, *self),
        ensures
            match r {
                Ok(s) => resolved_string(values.entries@, *self) == Ok::<Seq<char>, ResolveErrorView>(s@),
                Err(e) => resolved_string(values.entries@, *self) == Err::<Seq<char>, ResolveErrorView>(error_view(e)),
            },
    {
        match self.chase(values) {
            Err(e) => Err(e),
            Ok(w) => match w {
                Value::BaseValue(BaseValue::String(s)) => Ok(s.clone()),
                _ => wrong_type(w),
            },
        }
    }

    /// Resolves the value as a number; an integer is taken as one.
    pub fn resolve_number(&self, values: &ValueTable) -> (r: Result<NumberValue, ResolveError>)
        requires
            chase_ends(values.entries@, *self),
        ensures
            result_view(r) == resolved_number(values.entries@, *self),
    {
        match self.chase(values) {
            Err(e) => Err(e),
            Ok(w) => match w {
                Value::BaseValue(BaseValue::F32(f)) => Ok(NumberValue::F32(*f)),
                Value::BaseValue(BaseValue::I32(i)) => Ok(NumberValue::I32(*i)),
                _ => wrong_type(w),
            },
        }
    }

    /// Resolves the value as a number or nothing; an integer is taken as a number.
    pub fn resolve_optional_number(&self, values: &ValueTable) -> (r: Result<Option<NumberValue>, ResolveError>)
        requires
            chase_ends(values.entries@, *self),
        ensures
            result_view(r) == resolved_optional_number(values.entries@, *self),
    {
        match self.chase(values) {
            Err(e) => Err(e),
            Ok(w) => match w {
                Value::BaseValue(BaseValue::F32(f)) => Ok(Some(NumberValue::F32(*f))),
                Value::BaseValue(BaseValue::I32(i)) => Ok(Some(NumberValue::I32(*i))),
                Value::Empty => Ok(None),
                _ => wrong_type(w),
            },
        }
    }
}

/// The name a reference value refers to; empty for any other value.
pub open spec fn ref_name(v: Value) -> Seq<char> {
    match v {
        Value::BaseValue(BaseValue::Reference(r)) => r@,
        _ => Seq::empty(),
    }
}

/// Where following references from `v` ends, taking at most as many steps as
/// the table has entries: a chain that ends visits no entry twice, so a chain
/// longer than that runs in a circle and is an error naming where it started.
pub open spec fn chased_within(t: Seq<(String, Value)>, v: Value) -> Result<Value, ResolveErrorView> {
    match chase(t, v, t.len()) {
        Some(Ok(w)) => Ok(w),
        Some(Err(n)) => Err(ResolveErrorView::MissingValue(n)),
        None => Err(ResolveErrorView::Cycle(ref_name(v))),
    }
}

/// Within the step bound, following references ends where it ends without one.
pub proof fn lemma_chased_within_agrees(t: Seq<(String, Value)>, v: Value)
    requires
        chase(t, v, t.len()) is Some,
    ensures
        chase_ends(t, v),
        chased_within(t, v) == match chased(t, v) {
            Ok(w) => Ok::<Value, ResolveErrorView>(w),
            Err(n) => Err(ResolveErrorView::MissingValue(n)),
        },
{
    lemma_chased(t, v, t.len());
}

fn reference_name(v: &Value) -> (r: String)
    ensures
        r@ == ref_name(*v),
{
    match v {
        Value::BaseValue(BaseValue::Reference(n)) => n.clone(),
        _ => String::new(),
    }
}

impl Value {
    /// Follows references from the value to the first value that is not one,
    /// in at most as many steps as the table has entries. A reference to a
    /// name the table lacks is an error naming it; references that run in a
    /// circle are an error naming where they started.
    pub fn chase_within<'a>(&'a self, values: &'a ValueTable) -> (r: Result<&'a Value, ResolveError>)
        ensures
            match r {
                Ok(w) => chased_within(values.entries@, *self) == Ok::<Value, ResolveErrorView>(*w),
                Err(e) => chased_within(values.entries@, *self) == Err::<Value, ResolveErrorView>(error_view(e)),
            },
    {
        let ghost t = values.entries@;
        let mut left: usize = values.entries.len();
        let mut cur: &Value = self;
        loop
            invariant
                t == values.entries@,
                left <= t.len(),
                chase(t, *cur, left as nat) == chase(t, *self, t.len()),
            decreases left,
        {
            match cur {
                Value::BaseValue(BaseValue::Reference(name)) => {
                    if left == 0 {
                        return Err(ResolveError::Cycle(reference_name(self)));
                    }
                    match values.get(name) {
                        None => {
                            return Err(ResolveError::MissingValue(name.clone()));
                        },
                        Some(next) => {
                            left = left - 1;
                            cur = next;
                        },
                    }
                },
                _ => {
                    return Ok(cur);
                },
            }
        }
    }
}

/// The number that the value resolves to within the step bound; an integer counts.
pub open spec fn number_within(t: Seq<(String, Value)>, v: Value) -> Result<NumberValue, ResolveErrorView> {
    match chased_within(t, v) {
        Err(e) => Err(e),
        Ok(Value::BaseValue(BaseValue::F32(f))) => Ok(NumberValue::F32(f)),
        Ok(Value::BaseValue(BaseValue::I32(i))) => Ok(NumberValue::I32(i)),
        Ok(w) => Err(ResolveErrorView::WrongType(value_type_name(w))),
    }
}

/// What a number field resolves to: the number it holds, or what the entry
/// its reference names resolves to.
pub open spec fn number_field(t: Seq<(String, Value)>, f: F32Value) -> Result<NumberValue, ResolveErrorView> {
    match f {
        F32Value::F32(b) => Ok(NumberValue::F32(b)),
        F32Value::Reference(n) => match lookup(t, n@) {
            None => Err(ResolveErrorView::MissingValue(n@)),
            Some(v) => number_within(t, v),
        },
    }
}

/// The cut direction a stored code stands for: 0 to 8 are up, down, left,
/// right, up-left, up-right, down-left, down-right and dot, the codes the map
/// formats write. Reading a referenced cut direction as such a code is this
/// library's own rule: a cut-direction field that refers to a named value
/// takes that value as a whole-number code.
pub open spec fn cut_direction_of(i: i32) -> Option<CutDirection> {
    if i == 0 {
        Some(CutDirection::Up)
    } else if i == 1 {
        Some(CutDirection::Down)
    } else if i == 2 {
        Some(CutDirection::Left)
    } else if i == 3 {
        Some(CutDirection::Right)
    } else if i == 4 {
        Some(CutDirection::UpLeft)
    } else if i == 5 {
        Some(CutDirection::UpRight)
    } else if i == 6 {
        Some(CutDirection::DownLeft)
    } else if i == 7 {
        Some(CutDirection::DownRight)
    } else if i == 8 {
        Some(CutDirection::Dot)
    } else {
        None
    }
}

/// What a cut-direction field resolves to: the direction it holds, or the
/// direction whose code the entry its reference names resolves to.
pub open spec fn cut_direction_field(t: Seq<(String, Value)>, c: CutDirectionValue) -> Result<CutDirection, ResolveErrorView> {
    match c {
        CutDirectionValue::CutDir(d) => Ok(d),
        CutDirectionValue::Reference(n) => match lookup(t, n@) {
            None => Err(ResolveErrorView::MissingValue(n@)),
            Some(v) => match chased_within(t, v) {
                Err(e) => Err(e),
                Ok(Value::BaseValue(BaseValue::I32(i))) => match cut_direction_of(i) {
                    Some(d) => Ok(d),
                    None => Err(ResolveErrorView::OutOfRange(i)),
                },
                Ok(w) => Err(ResolveErrorView::WrongType(value_type_name(w))),
            },
        },
    }
}

fn cut_direction_from(i: i32) -> (r: Option<CutDirection>)
    ensures
        r == cut_direction_of(i),
{
    if i == 0 {
        Some(CutDirection::Up)
    } else if i == 1 {
        Some(CutDirection::Down)
    } else if i == 2 {
        Some(CutDirection::Left)
    } else if i == 3 {
        Some(CutDirection::Right)
    } else if i == 4 {
        Some(CutDirection::UpLeft)
    } else if i == 5 {
        Some(CutDirection::UpRight)
    } else if i == 6 {
        Some(CutDirection::DownLeft)
    } else if i == 7 {
        Some(CutDirection::DownRight)
    } else if i == 8 {
        Some(CutDirection::Dot)
    } else {
        None
    }
}

impl F32Value {
    /// Resolves the field to a number, following references in at most as
    /// many steps as the table has entries.
    pub fn resolve_within(&self, values: &ValueTable) -> (r: Result<NumberValue, ResolveError>)
        ensures
            result_view(r) == number_field(values.entries@, *self),
    {
        match self {
            F32Value::F32(b) => Ok(NumberValue::F32(*b)),
            F32Value::Reference(n) => match values.get(n) {
                None => missing(n),
                Some(v) => match v.chase_within(values) {
                    Err(e) => Err(e),
                    Ok(w) => match w {
                        Value::BaseValue(BaseValue::F32(f)) => Ok(NumberValue::F32(*f)),
                        Value::BaseValue(BaseValue::I32(i)) => Ok(NumberValue::I32(*i)),
                        _ => wrong_type(w),
                    },
                },
            },
        }
    }
}

impl CutDirectionValue {
    /// Resolves the field to a cut direction: the one it holds, or the one
    /// whose code its reference resolves to.
    pub fn resolve_within(&self, values: &ValueTable) -> (r: Result<CutDirection, ResolveError>)
        ensures
            result_view(r) == cut_direction_field(values.entries@, *self),
    {
        match self {
            CutDirectionValue::CutDir(d) => Ok(*d),
            CutDirectionValue::Reference(n) => match values.get(n) {
                None => missing(n),
                Some(v) => match v.chase_within(values) {
                    Err(e) => Err(e),
                    Ok(w) => match w {
                        Value::BaseValue(BaseValue::I32(i)) => match cut_direction_from(*i) {
                            Some(d) => Ok(d),
                            None => Err(ResolveError::OutOfRange(*i)),
                        },
                        _ => wrong_type(w),
                    },
                },
            },
        }
    }
}

/// Where an insert of `k` goes: the first entry named `k`, or the end.
pub open spec fn index_of_name(t: Seq<(String, Value)>, k: Seq<char>) -> int
    decreases t.len(),
{
    if t.len() == 0 {
        0
    } else if t[0].0@ == k {
        0
    } else {
        1 + index_of_name(t.drop_first(), k)
    }
}

/// The table after setting `k` to `v`: the first entry named `k` gets the
/// value, or a new entry is added at the end.
pub open spec fn inserted(t: Seq<(String, Value)>, k: String, v: Value) -> Seq<(String, Value)> {
    let i = index_of_name(t, k@);
    if i < t.len() {
        t.update(i, (t[i].0, v))
    } else {
        t.push((k, v))
    }
}

/// The table `t` with every entry of `d` set in turn, so that the entries of
/// `d` win over those of `t`.
pub open spec fn merged(t: Seq<(String, Value)>, d: Seq<(String, Value)>) -> Seq<(String, Value)>
    decreases d.len(),
{
    if d.len() == 0 {
        t
    } else {
        let m = merged(t, d.drop_last());
        inserted(m, d.last().0, d.last().1)
    }
}

proof fn lemma_index_of_name(t: Seq<(String, Value)>, k: Seq<char>)
    ensures
        0 <= index_of_name(t, k) <= t.len(),
        index_of_name(t, k) < t.len() ==> t[index_of_name(t, k)].0@ == k,
        forall|j: int| 0 <= j < index_of_name(t, k) ==> #[trigger] t[j].0@ != k,
        index_of_name(t, k) < t.len() ==> lookup(t, k) == Some(t[index_of_name(t, k)].1),
        index_of_name(t, k) == t.len() ==> lookup(t, k) is None,
    decreases t.len(),
{
    if t.len() > 0 && t[0].0@ != k {
        lemma_index_of_name(t.drop_first(), k);
        assert forall|j: int| 0 <= j < index_of_name(t, k) implies #[trigger] t[j].0@ != k by {
            if j > 0 {
                assert(t[j] == t.drop_first()[j - 1]);
            }
        }
    }
}

proof fn lemma_lookup_update(t: Seq<(String, Value)>, i: int, e: (String, Value), k: Seq<char>)
    requires
        0 <= i < t.len(),
        e.0@ == t[i].0@,
        forall|j: int| 0 <= j < i ==> #[trigger] t[j].0@ != e.0@,
    ensures
        lookup(t.update(i, e), k) == if k == e.0@ { Some(e.1) } else { lookup(t, k) },
    decreases t.len(),
{
    if i > 0 {
        assert(t.update(i, e).drop_first() =~= t.drop_first().update(i - 1, e));
        assert forall|j: int| 0 <= j < i - 1 implies #[trigger] t.drop_first()[j].0@ != e.0@ by {
            assert(t.drop_first()[j] == t[j + 1]);
        }
        assert(t[0].0@ != e.0@);
        lemma_lookup_update(t.drop_first(), i - 1, e, k);
    } else {
        assert(t.update(i, e).drop_first() =~= t.drop_first());
    }
}

proof fn lemma_lookup_push(t: Seq<(String, Value)>, e: (String, Value), k: Seq<char>)
    requires
        lookup(t, e.0@) is None,
    ensures
        lookup(t.push(e), k) == match lookup(t, k) {
            Some(w) => Some(w),
            None => if k == e.0@ { Some(e.1) } else { None::<Value> },
        },
    decreases t.len(),
{
    let p = t.push(e);
    if t.len() == 0 {
        assert(p.drop_first() =~= Seq::<(String, Value)>::empty());
        assert(p[0] == e);
        assert(lookup(p.drop_first(), k) is None);
    } else {
        assert(p.drop_first() =~= t.drop_first().push(e));
        assert(p[0] == t[0]);
        assert(t[0].0@ != e.0@);
        lemma_lookup_push(t.drop_first(), e, k);
        if t[0].0@ != k {
            assert(lookup(p, k) == lookup(p.drop_first(), k));
            assert(lookup(t, k) == lookup(t.drop_first(), k));
        }
    }
}

/// Setting a name makes it read as the new value and leaves every other
/// name as it was.
pub proof fn lemma_inserted_lookup(t: Seq<(String, Value)>, k: String, v: Value, q: Seq<char>)
    ensures
        lookup(inserted(t, k, v), q) == if q == k@ { Some(v) } else { lookup(t, q) },
{
    lemma_index_of_name(t, k@);
    let i = index_of_name(t, k@);
    if i < t.len() {
        lemma_lookup_update(t, i, (t[i].0, v), q);
    } else {
        lemma_lookup_push(t, (k, v), q);
    }
}

/// In the merged table a name reads as in `d` when `d` has it, and as in
/// `t` otherwise.
pub proof fn lemma_merged_lookup(t: Seq<(String, Value)>, d: Seq<(String, Value)>, q: Seq<char>)
    ensures
        lookup(merged(t, d), q) == match lookup_last(d, q) {
            Some(v) => Some(v),
            None => lookup(t, q),
        },
    decreases d.len(),
{
    if d.len() > 0 {
        lemma_merged_lookup(t, d.drop_last(), q);
        lemma_inserted_lookup(merged(t, d.drop_last()), d.last().0, d.last().1, q);
    }
}

/// No two entries of the table share a name, as in a map.
pub open spec fn names_unique(t: Seq<(String, Value)>) -> bool {
    forall|i: int, j: int| 0 <= i < j < t.len() ==> (#[trigger] t[i]).0@ != (#[trigger] t[j]).0@
}

/// Setting a name keeps the names of a table unique, so a table built up by
/// setting names, such as a merged table, has each name once.
pub proof fn lemma_inserted_keeps_names_unique(t: Seq<(String, Value)>, k: String, v: Value)
    requires
        names_unique(t),
    ensures
        names_unique(inserted(t, k, v)),
{
    lemma_index_of_name(t, k@);
    let i = index_of_name(t, k@);
    let r = inserted(t, k, v);
    if i < t.len() {
        assert forall|a: int, b: int| 0 <= a < b < r.len() implies (#[trigger] r[a]).0@ != (#[trigger] r[b]).0@ by {
            assert(r[a].0 == t[a].0 && r[b].0 == t[b].0);
        }
    } else {
        assert forall|a: int, b: int| 0 <= a < b < r.len() implies (#[trigger] r[a]).0@ != (#[trigger] r[b]).0@ by {
            if b == t.len() {
                assert(r[a] == t[a]);
            } else {
                assert(r[a] == t[a] && r[b] == t[b]);
            }
        }
    }
}

/// Merging into a table with unique names keeps them unique.
pub proof fn lemma_merged_keeps_names_unique(t: Seq<(String, Value)>, d: Seq<(String, Value)>)
    requires
        names_unique(t),
    ensures
        names_unique(merged(t, d)),
    decreases d.len(),
{
    if d.len() > 0 {
        lemma_merged_keeps_names_unique(t, d.drop_last());
        lemma_inserted_keeps_names_unique(merged(t, d.drop_last()), d.last().0, d.last().1);
    }
}

/// The value of the last entry of `d` named `q`.
pub open spec fn lookup_last(d: Seq<(String, Value)>, q: Seq<char>) -> Option<Value>
    decreases d.len(),
{
    if d.len() == 0 {
        None
    } else if d.last().0@ == q {
        Some(d.last().1)
    } else {
        lookup_last(d.drop_last(), q)
    }
}

fn clone_base_value(b: &BaseValue) -> (r: BaseValue)
    ensures
        r == *b,
{
    match b {
        BaseValue::Reference(s) => BaseValue::Reference(s.clone()),
        BaseValue::String(s) => BaseValue::String(s.clone()),
        BaseValue::I32(i) => BaseValue::I32(*i),
        BaseValue::F32(f) => BaseValue::F32(*f),
    }
}

fn clone_value(v: &Value) -> (r: Value)
    ensures
        r == *v,
{
    match v {
        Value::BaseValue(b) => Value::BaseValue(clone_base_value(b)),
        Value::Vec2(a) => {
            let c = [clone_base_value(&a[0]), clone_base_value(&a[1])];
            assert(c =~= *a);
            Value::Vec2(c)
        },
        Value::Vec3(a) => {
            let c = [clone_base_value(&a[0]), clone_base_value(&a[1]), clone_base_value(&a[2])];
            assert(c =~= *a);
            Value::Vec3(c)
        },
        Value::Vec4(a) => {
            let c = [clone_base_value(&a[0]), clone_base_value(&a[1]), clone_base_value(&a[2]), clone_base_value(&a[3])];
            assert(c =~= *a);
            Value::Vec4(c)
        },
        Value::Empty => Value::Empty,
    }
}

impl ValueTable {
    /// Sets `name` to `value`: the first entry of that name gets the value,
    /// or a new entry is added at the end.
    pub fn insert(&mut self, name: String, value: Value)
        ensures
            final(self).entries@ == inserted(old(self).entries@, name, value),
    {
        let ghost t = self.entries@;
        proof {
            lemma_index_of_name(t, name@);
        }
        let n = self.entries.len();
        let mut i: usize = 0;
        while i < n
            invariant
                n == t.len(),
                t == self.entries@,
                t == old(self).entries@,
                i <= n,
                forall|j: int| 0 <= j < i ==> #[trigger] t[j].0@ != name@,
            decreases n - i,
        {
            if self.entries[i].0 == name {
                let k = self.entries[i].0.clone();
                proof {
                    lemma_index_of_name(t, name@);
                    assert(t[i as int].0@ == name@);
                    assert(index_of_name(t, name@) == i) by {
                        if index_of_name(t, name@) < i {
                            assert(t[index_of_name(t, name@)].0@ == name@);
                        }
                    }
                }
                self.entries.set(i, (k, value));
                proof {
                    assert(self.entries@ =~= t.update(i as int, (t[i as int].0, value)));
                }
                return;
            }
            i = i + 1;
        }
        proof {
            lemma_index_of_name(t, name@);
            if index_of_name(t, name@) < n {
                assert(t[index_of_name(t, name@)].0@ == name@);
            }
        }
        self.entries.push((name, value));
    }

    /// This table with every entry of `other` set in turn, so that the
    /// entries of `other` win.
    pub fn merge_from(&mut self, other: &ValueTable)
        ensures
            final(self).entries@ == merged(old(self).entries@, other.entries@),
    {
        let n = other.entries.len();
        for i in 0..n
            invariant
                n == other.entries@.len(),
                self.entries@ == merged(old(self).entries@, other.entries@.take(i as int)),
        {
            proof {
                assert(other.entries@.take(i + 1).drop_last() =~= other.entries@.take(i as int));
                assert(other.entries@.take(i + 1).last() == other.entries@[i as int]);
            }
            let k = other.entries[i].0.clone();
            let v = clone_value(&other.entries[i].1);
            self.insert(k, v);
        }
        proof {
            assert(other.entries@.take(n as int) =~= other.entries@);
        }
    }
}

/// A reference field names an entry from which following references ends,
/// or no entry at all.
pub open spec fn reference_ends(t: Seq<(String, Value)>, name: String) -> bool {
    match lookup(t, name@) {
        Some(v) => chase_ends(t, v),
        None => true,
    }
}

/// The number a reference field resolves to.
pub open spec fn resolved_reference_number(t: Seq<(String, Value)>, name: String) -> Result<NumberValue, ResolveErrorView> {
    match lookup(t, name@) {
        None => Err(ResolveErrorView::MissingValue(name@)),
        Some(v) => resolved_number(t, v),
    }
}

impl F32Value {
    /// Resolves the field to a number: the one it holds, or the one its
    /// reference resolves to (an integer counts).
    pub fn resolve(&self, values: &ValueTable) -> (r: Result<NumberValue, ResolveError>)
        requires
            *self matches F32Value::Reference(n) ==> reference_ends(values.entries@, n),
        ensures
            result_view(r) == match *self {
                F32Value::Reference(n) => resolved_reference_number(values.entries@, n),
                F32Value::F32(f) => Ok(NumberValue::F32(f)),
            },
    {
        match self {
            F32Value::Reference(r) => match values.get(r) {
                None => missing(r),
                Some(v) => v.resolve_number(values),
            },
            F32Value::F32(f) => Ok(NumberValue::F32(*f)),
        }
    }
}

impl OptionalF32Value {
    /// Resolves the field to a number or nothing: what it holds, or what its
    /// reference resolves to (an integer counts as a number).
    pub fn resolve(&self, values: &ValueTable) -> (r: Result<Option<NumberValue>, ResolveError>)
        requires
            *self matches OptionalF32Value::Reference(n) ==> reference_ends(values.entries@, n),
        ensures
            result_view(r) == match *self {
                OptionalF32Value::Reference(n) => match lookup(values.entries@, n@) {
                    None => Err(ResolveErrorView::MissingValue(n@)),
                    Some(v) => resolved_optional_number(values.entries@, v),
                },
                OptionalF32Value::F32(f) => Ok(Some(NumberValue::F32(f))),
                OptionalF32Value::Empty => Ok(None),
            },
    {
        match self {
            OptionalF32Value::Reference(r) => match values.get(r) {
                None => missing(r),
                Some(v) => v.resolve_optional_number(values),
            },
            OptionalF32Value::F32(f) => Ok(Some(NumberValue::F32(*f))),
            OptionalF32Value::Empty => Ok(None),
        }
    }
}

impl From<u8> for U8Value {
    fn from(value: u8) -> (r: Self) {
        U8Value::U8(value)
    }
}

impl vstd::std_specs::convert::FromSpecImpl<u8> for U8Value {
    open spec fn obeys_from_spec() -> bool {
        true
    }

    open spec fn from_spec(v: u8) -> U8Value {
        U8Value::U8(v)
    }
}

impl From<CutDirection> for CutDirectionValue {
    fn from(value: CutDirection) -> (r: Self) {
        CutDirectionValue::CutDir(value)
    }
}

impl vstd::std_specs::convert::FromSpecImpl<CutDirection> for CutDirectionValue {
    open spec fn obeys_from_spec() -> bool {
        true
    }

    open spec fn from_spec(v: CutDirection) -> CutDirectionValue {
        CutDirectionValue::CutDir(v)
    }
}

impl From<i32> for BaseValue {
    fn from(value: i32) -> (r: Self) {
        BaseValue::I32(value)
    }
}

impl vstd::std_specs::convert::FromSpecImpl<i32> for BaseValue {
    open spec fn obeys_from_spec() -> bool {
        true
    }

    open spec fn from_spec(v: i32) -> BaseValue {
        BaseValue::I32(v)
    }
}

impl From<u8> for BaseValue {
    fn from(value: u8) -> (r: Self) {
        BaseValue::I32(value as i32)
    }
}

impl vstd::std_specs::convert::FromSpecImpl<u8> for BaseValue {
    open spec fn obeys_from_spec() -> bool {
        true
    }

    open spec fn from_spec(v: u8) -> BaseValue {
        BaseValue::I32(v as i32)
    }
}

impl From<ResolveError> for CanonicalizationError {
    fn from(value: ResolveError) -> (r: Self) {
        CanonicalizationError::ResolveError(value)
    }
}

impl vstd::std_specs::convert::FromSpecImpl<ResolveError> for CanonicalizationError {
    open spec fn obeys_from_spec() -> bool {
        true
    }

    open spec fn from_spec(v: ResolveError) -> CanonicalizationError {
        CanonicalizationError::ResolveError(v)
    }
}

/// Why exporting the editor data failed.
#[derive(Debug)]
pub enum ExportError {
    ResolveError(ResolveError),
}

impl From<ResolveError> for ExportError {
    fn from(value: ResolveError) -> (r: Self) {
        ExportError::ResolveError(value)
    }
}

impl vstd::std_specs::convert::FromSpecImpl<ResolveError> for ExportError {
    open spec fn obeys_from_spec() -> bool {
        true
    }

    open spec fn from_spec(v: ResolveError) -> ExportError {
        ExportError::ResolveError(v)
    }
}

/// A mod an export may target.
#[derive(Copy, Clone, Debug, PartialEq, Eq, Structural)]
pub enum Mod {
    Chroma,
    Noodle,
    Vivify,
    PrecisionPlace,
}

/// How finely the placement grid divides a beat.
#[derive(Copy, Clone, Debug, PartialEq, Eq, Structural)]
pub enum GridStepSpacing {
    Thirds,
    Quarters,
}

/// A reference resolves as the entry it names resolves: it ends where the
/// entry ends, and a reference to a name the table lacks fails with that name.
pub proof fn lemma_reference_resolves_as_target(t: Seq<(String, Value)>, name: String)
    requires
        chase_ends(t, Value::BaseValue(BaseValue::Reference(name))),
    ensures
        match lookup(t, name@) {
            None => chased(t, Value::BaseValue(BaseValue::Reference(name))) == Err::<Value, Seq<char>>(name@),
            Some(w) => chase_ends(t, w) && chased(t, Value::BaseValue(BaseValue::Reference(name))) == chased(t, w),
        },
{
    let r = Value::BaseValue(BaseValue::Reference(name));
    let f = choose|f: nat| #[trigger] chase(t, r, f) is Some;
    lemma_chased(t, r, f);
    match lookup(t, name@) {
        None => {},
        Some(w) => {
            assert(chase(t, w, (f - 1) as nat) is Some);
            lemma_chased(t, w, (f - 1) as nat);
        },
    }
}

/// A value that is not a reference resolves to itself.
pub proof fn lemma_plain_value_resolves_to_itself(t: Seq<(String, Value)>, v: Value)
    requires
        !(v matches Value::BaseValue(BaseValue::Reference(_))),
    ensures
        chase_ends(t, v),
        chased(t, v) == Ok::<Value, Seq<char>>(v),
{
    assert(chase(t, v, 0) is Some);
    lemma_chased(t, v, 0);
}

/// The type names a value reports, as the editor shows them.
pub proof fn lemma_value_type_names(r: String, b: [BaseValue; 2], c: [BaseValue; 3], d: [BaseValue; 4])
    ensures
        value_type_name(Value::BaseValue(BaseValue::Reference(r))) == "Reference"@,
        value_type_name(Value::BaseValue(BaseValue::String(r))) == "String"@,
        forall|i: i32| value_type_name(Value::BaseValue(BaseValue::I32(i))) == "i32"@,
        forall|f: u32| value_type_name(Value::BaseValue(BaseValue::F32(f))) == "f32"@,
        value_type_name(Value::Vec2(b)) == "Vec2"@,
        value_type_name(Value::Vec3(c)) == "Vec3"@,
        value_type_name(Value::Vec4(d)) == "Vec4"@,
        value_type_name(Value::Empty) == "None"@,
{
}

/// The cut direction each stored code stands for, the codes the map formats
/// write: up 0, down 1, left 2, right 3, up-left 4, up-right 5, down-left 6,
/// down-right 7, dot 8; no other code stands for one.
pub proof fn lemma_cut_direction_codes(i: i32)
    ensures
        cut_direction_of(0) == Some(CutDirection::Up),
        cut_direction_of(1) == Some(CutDirection::Down),
        cut_direction_of(2) == Some(CutDirection::Left),
        cut_direction_of(3) == Some(CutDirection::Right),
        cut_direction_of(4) == Some(CutDirection::UpLeft),
        cut_direction_of(5) == Some(CutDirection::UpRight),
        cut_direction_of(6) == Some(CutDirection::DownLeft),
        cut_direction_of(7) == Some(CutDirection::DownRight),
        cut_direction_of(8) == Some(CutDirection::Dot),
        cut_direction_of(i) is Some <==> 0 <= i <= 8,
{
}

} // verus!
