use vstd::prelude::*;
use crate::naming::{join, join_strings, views};

verus! {

/// Arrays longer than this render as the generic sequence type rather than a tuple.
pub const ARRAY_TUPLE_LIMIT: usize = 64;

/// A built-in scalar type of the target language.
#[derive(Clone, Copy, Debug, PartialEq, Eq, Structural)]
pub enum Primitive {
    Number,
    BigInt,
    Boolean,
    Text,
    Null,
}

pub open spec fn primitive_text(p: Primitive) -> Seq<char> {
    match p {
        Primitive::Number => "number"@,
        Primitive::BigInt => "bigint"@,
        Primitive::Boolean => "boolean"@,
        Primitive::Text => "string"@,
        Primitive::Null => "null"@,
    }
}

/// The target-language name of a primitive.
pub fn primitive_name(p: Primitive) -> (r: String)
    ensures
        r@ == primitive_text(p),
{
    match p {
        Primitive::Number => String::from_str("number"),
        Primitive::BigInt => String::from_str("bigint"),
        Primitive::Boolean => String::from_str("boolean"),
        Primitive::Text => String::from_str("string"),
        Primitive::Null => String::from_str("null"),
    }
}

/// A type which is depended upon by another type, and must be imported
/// where the two are written to different files.
#[derive(Clone, Debug)]
pub struct Dependency {
    /// Identity of the type, unique for each distinct type.
    pub type_id: u64,
    /// Name of the type in the target language.
    pub ts_name: String,
    /// Path of the file the type is exported to.
    pub exported_to: String,
}

/// A dependency as a value: identity, name and path.
pub type DepView = (u64, Seq<char>, Seq<char>);

pub open spec fn dep_view(d: Dependency) -> DepView {
    (d.type_id, d.ts_name@, d.exported_to@)
}

pub open spec fn deps_view(v: Seq<Dependency>) -> Seq<DepView> {
    v.map_values(|d: Dependency| dep_view(d))
}

/// What is known of a declared type where another type refers to it: the
/// result of rendering its descriptor.
#[derive(Clone, Debug)]
pub struct TypeInfo {
    /// Identity of the type.
    pub type_id: u64,
    /// Name of the type, used where it is referred to.
    pub name: String,
    /// Declaration, `type <name><params> = <body>;`.
    pub decl: String,
    /// Body of the declaration, used where the type is inlined.
    pub inline: String,
    /// Its fields, where it is a record whose fields can be spliced into another.
    pub flattened: Option<String>,
    /// Path of the file it is exported to; `None` where it is not exported.
    pub export_to: Option<String>,
    /// Its own dependencies.
    pub deps: Vec<Dependency>,
    /// Documentation comment block, possibly empty.
    pub docs: String,
}

/// The dependency that refers to an exported type.
pub open spec fn info_dep(info: TypeInfo) -> DepView {
    (info.type_id, info.name@, info.export_to->Some_0@)
}

impl Dependency {
    /// The dependency on the type `info` describes; `None` where that type is not exported.
    pub fn from_ty(info: &TypeInfo) -> (r: Option<Dependency>)
        ensures
            r is Some <==> info.export_to is Some,
            r is Some ==> dep_view(r->Some_0) == info_dep(*info),
    {
        match &info.export_to {
            Some(path) => Some(Dependency { type_id: info.type_id, ts_name: info.name.clone(), exported_to: path.clone() }),
            None => None,
        }
    }
}

/// A reference to a type, as it stands in a field or variant.
#[derive(Debug)]
pub enum TsType {
    /// A built-in scalar.
    Primitive(Primitive),
    /// A generic parameter of the enclosing type, by name.
    Param(String),
    /// A declared type.
    Named(Box<TypeInfo>),
    /// An optional value: `T | null`.
    Nullable(Box<TsType>),
    /// A growable sequence: `Array<T>`.
    List(Box<TsType>),
    /// A fixed-length array.
    Array(Box<TsType>, usize),
    /// A tuple.
    Tuple(Vec<TsType>),
    /// A generic declared type with its type arguments: `Name<A, B>`. It
    /// stands by name in both forms; its arguments follow the form asked for.
    Applied(Box<TypeInfo>, Vec<TsType>),
    /// A map from keys to values: `Record<K, V>`.
    Record(Box<TsType>, Box<TsType>),
    /// A success or an error.
    Fallible(Box<TsType>, Box<TsType>),
    /// A range with two ends.
    Range(Box<TsType>),
}

/// Text of a type reference. With `inline`, named types are replaced by their
/// bodies; else they stand by name.
pub open spec fn type_text(t: TsType, inline: bool) -> Seq<char>
    decreases t, 0nat,
{
    match t {
        TsType::Primitive(p) => primitive_text(p),
        TsType::Param(n) => n@,
        TsType::Named(info) => if inline { info.inline@ } else { info.name@ },
        TsType::Nullable(b) => type_text(*b, inline) + " | null"@,
        TsType::List(b) => "Array<"@ + type_text(*b, inline) + ">"@,
        TsType::Array(b, n) => if n > ARRAY_TUPLE_LIMIT {
            "Array<"@ + type_text(*b, inline) + ">"@
        } else {
            "["@ + join(Seq::new(n as nat, |i: int| type_text(*b, inline)), ", "@) + "]"@
        },
        TsType::Tuple(v) => "["@ + join(items_text(v@, inline, v@.len()), ", "@) + "]"@,
        TsType::Applied(info, v) => info.name@ + "<"@ + join(items_text(v@, inline, v@.len()), ", "@) + ">"@,
        TsType::Record(k, v) => "Record<"@ + type_text(*k, inline) + ", "@ + type_text(*v, inline) + ">"@,
        TsType::Fallible(o, e) => "{ Ok : "@ + type_text(*o, inline) + " } | { Err : "@ + type_text(*e, inline) + " }"@,
        TsType::Range(b) => "{ start: "@ + type_text(*b, inline) + ", end: "@ + type_text(*b, inline) + ", }"@,
    }
}

/// Texts of the first `n` types of `ts`.
pub open spec fn items_text(ts: Seq<TsType>, inline: bool, n: nat) -> Seq<Seq<char>>
    decreases ts, n,
{
    if n == 0 || n > ts.len() {
        Seq::empty()
    } else {
        items_text(ts, inline, (n - 1) as nat).push(type_text(ts[n - 1], inline))
    }
}

pub proof fn lemma_items_text_len(ts: Seq<TsType>, inline: bool, n: nat)
    requires
        n <= ts.len(),
    ensures
        items_text(ts, inline, n).len() == n,
        forall|i: int| 0 <= i < n ==> #[trigger] items_text(ts, inline, n)[i] == type_text(ts[i], inline),
    decreases n,
{
    if n > 0 {
        lemma_items_text_len(ts, inline, (n - 1) as nat);
    }
}

/// Renders a type reference; with `inline`, named types are replaced by their bodies.
pub fn render_type(t: &TsType, inline: bool) -> (r: String)
    ensures
        r@ == type_text(*t, inline),
    decreases t,
{
    match t {
        TsType::Primitive(p) => primitive_name(*p),
        TsType::Param(n) => n.clone(),
        TsType::Named(info) => if inline { info.inline.clone() } else { info.name.clone() },
        TsType::Nullable(b) => {
            let mut r = render_type(b, inline);
            r.append(" | null");
            r
        },
        TsType::List(b) => {
            let mut r = String::from_str("Array<");
            r.append(render_type(b, inline).as_str());
            r.append(">");
            r
        },
        TsType::Array(b, n) => {
            let item = render_type(b, inline);
            if *n > ARRAY_TUPLE_LIMIT {
                let mut r = String::from_str("Array<");
                r.append(item.as_str());
                r.append(">");
                r
            } else {
                let mut items: Vec<String> = Vec::new();
                let mut i: usize = 0;
                while i < *n
                    invariant
                        i <= *n,
                        items@.len() == i,
                        forall|j: int| 0 <= j < i ==> (#[trigger] items@[j])@ == item@,
                    decreases *n - i,
                {
                    items.push(item.clone());
                    i = i + 1;
                }
                assert(views(items@) =~= Seq::new(*n as nat, |i: int| type_text(**b, inline)));
                let mut r = String::from_str("[");
                r.append(join_strings(&items, ", ").as_str());
                r.append("]");
                r
            }
        },
        TsType::Tuple(v) => {
            let mut items: Vec<String> = Vec::new();
            let mut i: usize = 0;
            assert(decreases_to!(*t => *v));
            while i < v.len()
                invariant
                    decreases_to!(*t => *v),
                    i <= v@.len(),
                    items@.len() == i,
                    forall|j: int| 0 <= j < i ==> (#[trigger] items@[j])@ == type_text(v@[j], inline),
                decreases v@.len() - i,
            {
                proof {
                    assert(decreases_to!(*v => v[i as int]));
                    assert(decreases_to!(*t => v[i as int]));
                }
                items.push(render_type(&v[i], inline));
                i = i + 1;
            }
            proof {
                lemma_items_text_len(v@, inline, v@.len());
            }
            assert(views(items@) =~= items_text(v@, inline, v@.len()));
            let mut r = String::from_str("[");
            r.append(join_strings(&items, ", ").as_str());
            r.append("]");
            r
        },
        TsType::Applied(info, v) => {
            let mut items: Vec<String> = Vec::new();
            let mut i: usize = 0;
            assert(decreases_to!(*t => *v));
            while i < v.len()
                invariant
                    decreases_to!(*t => *v),
                    i <= v@.len(),
                    items@.len() == i,
                    forall|j: int| 0 <= j < i ==> (#[trigger] items@[j])@ == type_text(v@[j], inline),
                decreases v@.len() - i,
            {
                proof {
                    assert(decreases_to!(*v => v[i as int]));
                    assert(decreases_to!(*t => v[i as int]));
                }
                items.push(render_type(&v[i], inline));
                i = i + 1;
            }
            proof {
                lemma_items_text_len(v@, inline, v@.len());
            }
            assert(views(items@) =~= items_text(v@, inline, v@.len()));
            let mut r = info.name.clone();
            r.append("<");
            r.append(join_strings(&items, ", ").as_str());
            r.append(">");
            r
        },
        TsType::Record(k, v) => {
            let mut r = String::from_str("Record<");
            r.append(render_type(k, inline).as_str());
            r.append(", ");
            r.append(render_type(v, inline).as_str());
            r.append(">");
            r
        },
        TsType::Fallible(o, e) => {
            let mut r = String::from_str("{ Ok : ");
            r.append(render_type(o, inline).as_str());
            r.append(" } | { Err : ");
            r.append(render_type(e, inline).as_str());
            r.append(" }");
            r
        },
        TsType::Range(b) => {
            let item = render_type(b, inline);
            let mut r = String::from_str("{ start: ");
            r.append(item.as_str());
            r.append(", end: ");
            r.append(item.as_str());
            r.append(", }");
            r
        },
    }
}

/// Whether a reference is transparent: written out in place, with no
/// declaration of its own to import.
pub open spec fn is_transparent(t: TsType) -> bool {
    !(t is Primitive || t is Param || t is Named || t is Applied)
}

pub fn transparent(t: &TsType) -> (r: bool)
    ensures
        r == is_transparent(*t),
{
    !matches!(t, TsType::Primitive(_) | TsType::Param(_) | TsType::Named(_) | TsType::Applied(_, _))
}

/// The name by which a type is referred to.
pub fn name_of(t: &TsType) -> (r: String)
    ensures
        r@ == type_text(*t, false),
{
    render_type(t, false)
}

/// The text of a type with every named type inside it written out.
pub fn inline_of(t: &TsType) -> (r: String)
    ensures
        r@ == type_text(*t, true),
{
    render_type(t, true)
}

} // verus!
