use vstd::prelude::*;
use crate::casing::{Inflection, inflect_opt};
use crate::deps::type_deps;
use crate::naming::{field_name, join};
use crate::types::{DepView, TsType, type_text};

verus! {

/// How an optional field is written.
#[derive(Clone, Copy, Debug, PartialEq, Eq, Structural)]
pub enum Optionality {
    /// `key: T | null`, or whatever the type gives.
    Required,
    /// `key?: T`: the value may be left out, but not be null.
    Undefined,
    /// `key?: T | null`: the value may be left out or be null.
    Nullable,
}

/// A field of a struct or of a variant: `name` is empty for unnamed fields.
#[derive(Debug)]
pub struct FieldDesc {
    pub name: String,
    pub ty: TsType,
    pub rename: Option<String>,
    /// Text that stands for the type, verbatim.
    pub type_override: Option<String>,
    pub inline: bool,
    pub skip: bool,
    pub optional: Optionality,
    pub flatten: bool,
}

/// The shape of a struct, or of the payload of a variant.
#[derive(Debug)]
pub enum Shape {
    Unit,
    Newtype(FieldDesc),
    Tuple(Vec<FieldDesc>),
    Named(Vec<FieldDesc>),
}

/// A variant of an enum.
#[derive(Debug)]
pub struct VariantDesc {
    pub name: String,
    pub rename: Option<String>,
    pub skip: bool,
    pub shape: Shape,
}

/// A product type or a sum type.
#[derive(Debug)]
pub enum Body {
    Struct(Shape),
    Enum(Vec<VariantDesc>),
}

/// A generic parameter of a declared type, with the text of its default type
/// where it has one.
#[derive(Debug)]
pub struct GenericParam {
    pub name: String,
    pub default: Option<String>,
}

/// The description of one declarable type.
#[derive(Debug)]
pub struct TypeDesc {
    /// Identity of the type, unique for each distinct type.
    pub type_id: u64,
    /// Declared name.
    pub name: String,
    /// The generic parameters.
    pub generics: Vec<GenericParam>,
    /// Documentation lines, without comment markers.
    pub docs: Vec<String>,
    /// Path of the file to export to, overriding the base directory; a path
    /// ending in `/` names a directory.
    pub export_to: Option<String>,
    /// Renames all fields of a named-field struct, or all variants of an enum.
    pub rename_all: Option<Inflection>,
    /// Renames the fields of all struct variants of an enum.
    pub rename_all_fields: Option<Inflection>,
    pub tag: Option<String>,
    pub content: Option<String>,
    pub untagged: bool,
    pub body: Body,
}

/// Why a type description cannot be rendered.
#[derive(Debug)]
pub enum TsError {
    /// `rename_all` or `rename_all_fields` on a type they do not apply to.
    RenameAllNotApplicable,
    /// `tag`, `content` or `untagged` on a type they do not apply to.
    TagNotApplicable,
    /// `content` on an enum without `tag`.
    ContentWithoutTag,
    /// A field with both a type override and `inline`.
    OverrideWithInline,
    /// A field with both a type override and `flatten`.
    OverrideWithFlatten,
    /// `rename`, `optional` or `flatten` on an unnamed field.
    UnnamedFieldAttribute,
    /// `optional` together with `flatten`.
    OptionalWithFlatten,
    /// `optional` on a field whose type is not optional.
    OptionalNotNullable,
    /// `flatten` on a field whose type is not a record.
    FlattenNotRecord,
    /// An internally tagged variant whose payload is not a record.
    InternalTagNotRecord,
    /// Two distinct types with this name would be written side by side.
    Collision(String),
}

pub open spec fn flat_text(t: TsType) -> Option<Seq<char>> {
    match t {
        TsType::Named(info) => match info.flattened {
            Some(f) => Some(f@),
            None => None,
        },
        _ => None,
    }
}

/// The first configuration error of a field, if any. An unnamed field cannot
/// be renamed; once skipped, nothing else is asked of it.
pub open spec fn field_check(f: FieldDesc, named: bool) -> Option<TsError> {
    let opt = f.optional != Optionality::Required;
    if !named && f.rename is Some {
        Some(TsError::UnnamedFieldAttribute)
    } else if !named && f.skip {
        None
    } else if f.type_override is Some && f.inline {
        Some(TsError::OverrideWithInline)
    } else if f.type_override is Some && f.flatten {
        Some(TsError::OverrideWithFlatten)
    } else if !named && (opt || f.flatten) {
        Some(TsError::UnnamedFieldAttribute)
    } else if opt && f.flatten {
        Some(TsError::OptionalWithFlatten)
    } else if opt && !(f.ty is Nullable) {
        Some(TsError::OptionalNotNullable)
    } else if f.flatten && !f.skip && flat_text(f.ty) is None {
        Some(TsError::FlattenNotRecord)
    } else {
        None
    }
}

/// The first error among the first `n` fields of `fs`.
pub open spec fn fields_check(fs: Seq<FieldDesc>, named: bool, n: nat) -> Option<TsError>
    decreases n,
{
    if n == 0 || n > fs.len() {
        None
    } else {
        match fields_check(fs, named, (n - 1) as nat) {
            Some(e) => Some(e),
            None => field_check(fs[n - 1], named),
        }
    }
}

pub open spec fn nullable_inner(t: TsType) -> TsType {
    match t {
        TsType::Nullable(b) => *b,
        _ => t,
    }
}

/// The text of a field's type.
pub open spec fn value_text(f: FieldDesc) -> Seq<char> {
    match f.type_override {
        Some(o) => o@,
        None => if f.optional == Optionality::Undefined {
            type_text(nullable_inner(f.ty), f.inline)
        } else {
            type_text(f.ty, f.inline)
        },
    }
}

/// The name a field has after `rename`, or the policy `ra`.
pub open spec fn field_key(f: FieldDesc, ra: Option<Inflection>) -> Seq<char> {
    match f.rename {
        Some(r) => r@,
        None => inflect_opt(ra, f.name@),
    }
}

/// One entry of a record: `key: type`, or `key?: type` for an optional field.
pub open spec fn field_entry(f: FieldDesc, ra: Option<Inflection>) -> Seq<char> {
    field_name(field_key(f, ra)) + entry_rest(f)
}

/// What follows the name in a record entry: `: type`, or `?: type`.
pub open spec fn entry_rest(f: FieldDesc) -> Seq<char> {
    (if f.optional != Optionality::Required { "?: "@ } else { ": "@ }) + value_text(f)
}

/// What a named field adds to a record: nothing where it is skipped, the
/// spliced fields where it is flattened, else its entry.
pub open spec fn field_parts(f: FieldDesc, ra: Option<Inflection>) -> Seq<Seq<char>> {
    if f.skip {
        Seq::empty()
    } else if f.flatten {
        let fl = flat_text(f.ty)->Some_0;
        if fl.len() == 0 { Seq::empty() } else { seq![fl] }
    } else {
        seq![field_entry(f, ra)]
    }
}

pub open spec fn named_parts(fs: Seq<FieldDesc>, ra: Option<Inflection>, n: nat) -> Seq<Seq<char>>
    decreases n,
{
    if n == 0 || n > fs.len() {
        Seq::empty()
    } else {
        named_parts(fs, ra, (n - 1) as nat) + field_parts(fs[n - 1], ra)
    }
}

pub open spec fn tuple_parts(fs: Seq<FieldDesc>, n: nat) -> Seq<Seq<char>>
    decreases n,
{
    if n == 0 || n > fs.len() {
        Seq::empty()
    } else if fs[n - 1].skip {
        tuple_parts(fs, (n - 1) as nat)
    } else {
        tuple_parts(fs, (n - 1) as nat).push(value_text(fs[n - 1]))
    }
}

/// Dependencies of a field: none where skipped or overridden; those of the
/// flattened or inlined type; else those of its type reference.
pub open spec fn field_deps(f: FieldDesc) -> Seq<DepView> {
    if f.skip || f.type_override is Some {
        Seq::empty()
    } else {
        type_deps(f.ty, f.inline || f.flatten)
    }
}

pub open spec fn fields_deps(fs: Seq<FieldDesc>, n: nat) -> Seq<DepView>
    decreases n,
{
    if n == 0 || n > fs.len() {
        Seq::empty()
    } else {
        fields_deps(fs, (n - 1) as nat) + field_deps(fs[n - 1])
    }
}

pub open spec fn record_text(parts: Seq<Seq<char>>) -> Seq<char> {
    "{ "@ + join(parts, ", "@) + " }"@
}

pub open spec fn tuple_text(parts: Seq<Seq<char>>) -> Seq<char> {
    "["@ + join(parts, ", "@) + "]"@
}

/// The text of a shape, with `ra` renaming the fields of a named shape.
pub open spec fn shape_body(s: Shape, ra: Option<Inflection>) -> Seq<char> {
    match s {
        Shape::Unit => "null"@,
        Shape::Newtype(f) => if f.skip { "null"@ } else { value_text(f) },
        Shape::Tuple(fs) => tuple_text(tuple_parts(fs@, fs@.len())),
        Shape::Named(fs) => record_text(named_parts(fs@, ra, fs@.len())),
    }
}

pub open spec fn shape_deps(s: Shape) -> Seq<DepView> {
    match s {
        Shape::Unit => Seq::empty(),
        Shape::Newtype(f) => field_deps(f),
        Shape::Tuple(fs) => fields_deps(fs@, fs@.len()),
        Shape::Named(fs) => fields_deps(fs@, fs@.len()),
    }
}

pub open spec fn shape_check(s: Shape) -> Option<TsError> {
    match s {
        Shape::Unit => None,
        Shape::Newtype(f) => field_check(f, false),
        Shape::Tuple(fs) => fields_check(fs@, false, fs@.len()),
        Shape::Named(fs) => fields_check(fs@, true, fs@.len()),
    }
}

} // verus!
