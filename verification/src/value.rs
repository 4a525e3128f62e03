//! Typed cell values, the untyped values that authors write, and the deferred
//! values that every output cell is until identifiers are resolved.

use vstd::prelude::*;

verus! {

/// The declared type of a column.
#[derive(Clone, Copy, Debug, PartialEq, Eq, Structural)]
pub enum ValueType {
    Nothing,
    Integer,
    Float,
    Text,
    Boolean,
    BigInt,
    VarChar,
}

/// The shape of an untyped value.
#[derive(Clone, Copy, Debug, PartialEq, Eq, Structural)]
pub enum JsonKind {
    Null,
    Bool,
    Number,
    String,
    Array,
    Object,
}

/// A real number: the bit pattern of a single-precision number, or a whole
/// number that is narrowed to single precision where the cell is written.
#[derive(Clone, Copy, Debug, PartialEq, Eq, Structural)]
pub enum Real {
    Bits(u32),
    Whole(i64),
}

/// A typed cell.
#[derive(Debug, PartialEq, Eq)]
pub enum Field {
    Nothing,
    Integer(i32),
    Float(Real),
    Text(String),
    Boolean(bool),
    BigInt(i64),
}

pub enum FieldView {
    Nothing,
    Integer(i32),
    Float(Real),
    Text(Seq<char>),
    Boolean(bool),
    BigInt(i64),
}

impl View for Field {
    type V = FieldView;

    open spec fn view(&self) -> FieldView {
        match self {
            Field::Nothing => FieldView::Nothing,
            Field::Integer(n) => FieldView::Integer(*n),
            Field::Float(x) => FieldView::Float(*x),
            Field::Text(s) => FieldView::Text(s@),
            Field::Boolean(b) => FieldView::Boolean(*b),
            Field::BigInt(n) => FieldView::BigInt(*n),
        }
    }
}

impl Clone for Field {
    fn clone(&self) -> (out: Self)
        ensures
            out@ == self@,
    {
        match self {
            Field::Nothing => Field::Nothing,
            Field::Integer(n) => Field::Integer(*n),
            Field::Float(x) => Field::Float(*x),
            Field::Text(s) => Field::Text(s.clone()),
            Field::Boolean(b) => Field::Boolean(*b),
            Field::BigInt(n) => Field::BigInt(*n),
        }
    }
}

/// A number as an author wrote it: an integer where it is one that fits in
/// 64 bits with a sign, and any other number by the bit pattern of its
/// single-precision form.
#[derive(Clone, Copy, Debug, PartialEq, Eq, Structural)]
pub enum JsonNumber {
    Integer(i64),
    Real(u32),
}

/// One member of an untyped object: its name and, where the member is a
/// string, its text.
#[derive(Debug, PartialEq, Eq)]
pub struct JsonMember {
    pub name: String,
    pub text: Option<String>,
}

pub struct JsonMemberView {
    pub name: Seq<char>,
    pub text: Option<Seq<char>>,
}

impl View for JsonMember {
    type V = JsonMemberView;

    open spec fn view(&self) -> JsonMemberView {
        JsonMemberView {
            name: self.name@,
            text: match self.text {
                Some(t) => Some(t@),
                None => None,
            },
        }
    }
}

impl Clone for JsonMember {
    fn clone(&self) -> (out: Self)
        ensures
            out@ == self@,
    {
        JsonMember {
            name: self.name.clone(),
            text: match &self.text {
                Some(t) => Some(t.clone()),
                None => None,
            },
        }
    }
}

/// The views of the items of a sequence, in order.
pub open spec fn views<T: View>(items: Seq<T>) -> Seq<T::V> {
    Seq::new(items.len(), |i: int| items[i]@)
}

pub proof fn lemma_views_push<T: View>(items: Seq<T>, item: T)
    ensures
        views(items.push(item)) == views(items).push(item@),
{
    assert(views(items.push(item)) =~= views(items).push(item@));
}

pub proof fn lemma_views_add<T: View>(a: Seq<T>, b: Seq<T>)
    ensures
        views(a + b) == views(a) + views(b),
{
    assert(views(a + b) =~= views(a) + views(b));
}

/// An untyped value as an author wrote it. Nothing in the pipeline looks
/// inside an array, so none of its items is kept.
#[derive(Debug, PartialEq, Eq)]
pub enum JsonValue {
    Null,
    Bool(bool),
    Number(JsonNumber),
    String(String),
    Array,
    Object(Vec<JsonMember>),
}

pub enum JsonView {
    Null,
    Bool(bool),
    Number(JsonNumber),
    String(Seq<char>),
    Array,
    Object(Seq<JsonMemberView>),
}

impl View for JsonValue {
    type V = JsonView;

    open spec fn view(&self) -> JsonView {
        match self {
            JsonValue::Null => JsonView::Null,
            JsonValue::Bool(b) => JsonView::Bool(*b),
            JsonValue::Number(n) => JsonView::Number(*n),
            JsonValue::String(s) => JsonView::String(s@),
            JsonValue::Array => JsonView::Array,
            JsonValue::Object(members) => JsonView::Object(views(members@)),
        }
    }
}

/// A copy of `members`.
pub fn clone_members(members: &Vec<JsonMember>) -> (out: Vec<JsonMember>)
    ensures
        views(out@) == views(members@),
{
    let mut out: Vec<JsonMember> = Vec::new();
    let mut i: usize = 0;
    while i < members.len()
        invariant
            i <= members.len(),
            views(out@) == views(members@.take(i as int)),
        decreases members.len() - i,
    {
        proof {
            lemma_views_push(out@, members@[i as int]);
            lemma_views_push(members@.take(i as int), members@[i as int]);
            assert(members@.take(i + 1) == members@.take(i as int).push(members@[i as int]));
        }
        let copy = members[i].clone();
        proof {
            lemma_views_push(out@, copy);
        }
        out.push(copy);
        i += 1;
    }
    assert(members@.take(members@.len() as int) == members@);
    out
}

impl Clone for JsonValue {
    fn clone(&self) -> (out: Self)
        ensures
            out@ == self@,
    {
        match self {
            JsonValue::Null => JsonValue::Null,
            JsonValue::Bool(b) => JsonValue::Bool(*b),
            JsonValue::Number(n) => JsonValue::Number(*n),
            JsonValue::String(s) => JsonValue::String(s.clone()),
            JsonValue::Array => JsonValue::Array,
            JsonValue::Object(members) => JsonValue::Object(clone_members(members)),
        }
    }
}

impl JsonValue {
    /// The shape of the value.
    pub fn kind(&self) -> (kind: JsonKind)
        ensures
            kind == kind_of(self@),
    {
        match self {
            JsonValue::Null => JsonKind::Null,
            JsonValue::Bool(_) => JsonKind::Bool,
            JsonValue::Number(_) => JsonKind::Number,
            JsonValue::String(_) => JsonKind::String,
            JsonValue::Array => JsonKind::Array,
            JsonValue::Object(_) => JsonKind::Object,
        }
    }
}

/// The shape of an untyped value.
pub open spec fn kind_of(value: JsonView) -> JsonKind {
    match value {
        JsonView::Null => JsonKind::Null,
        JsonView::Bool(_) => JsonKind::Bool,
        JsonView::Number(_) => JsonKind::Number,
        JsonView::String(_) => JsonKind::String,
        JsonView::Array => JsonKind::Array,
        JsonView::Object(_) => JsonKind::Object,
    }
}

/// What an output cell is until the identifiers are resolved.
#[derive(Debug, PartialEq, Eq)]
pub enum OutputValue {
    /// Fully resolved.
    Known(Field),
    /// An untyped value that is coerced by the declared type of its column.
    FromJson(JsonValue),
    /// Stands for the identifier bound to the named mod.
    AwaitingId(String),
    /// Stands for a new identifier of the mod that holds the cell.
    GenerateId,
}

pub enum OutputView {
    Known(FieldView),
    FromJson(JsonView),
    AwaitingId(Seq<char>),
    GenerateId,
}

impl View for OutputValue {
    type V = OutputView;

    open spec fn view(&self) -> OutputView {
        match self {
            OutputValue::Known(f) => OutputView::Known(f@),
            OutputValue::FromJson(v) => OutputView::FromJson(v@),
            OutputValue::AwaitingId(s) => OutputView::AwaitingId(s@),
            OutputValue::GenerateId => OutputView::GenerateId,
        }
    }
}

impl Clone for OutputValue {
    fn clone(&self) -> (out: Self)
        ensures
            out@ == self@,
    {
        match self {
            OutputValue::Known(f) => OutputValue::Known(f.clone()),
            OutputValue::FromJson(v) => OutputValue::FromJson(v.clone()),
            OutputValue::AwaitingId(s) => OutputValue::AwaitingId(s.clone()),
            OutputValue::GenerateId => OutputValue::GenerateId,
        }
    }
}

} // verus!
