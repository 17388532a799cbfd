use vstd::prelude::*;
use vstd::string::*;
use crate::casing::{Inflection, apply_inflection_opt};
use crate::deps::{collect_deps, dedup_onto, lemma_dedup_onto_append};
use crate::descriptor::{
    FieldDesc, Optionality, Shape, TsError, field_check, field_deps, field_entry, fields_check, fields_deps,
    flat_text, named_parts, record_text, shape_body, shape_check, shape_deps, tuple_parts, tuple_text,
    value_text, field_parts,
};
use crate::naming::{join_strings, raw_name_to_ts_field, views};
use crate::types::{Dependency, TsType, deps_view, render_type};

verus! {

/// Finds the first configuration error of a field, if any.
pub fn check_field(f: &FieldDesc, named: bool) -> (r: Option<TsError>)
    ensures
        r == field_check(*f, named),
{
    let opt = f.optional != Optionality::Required;
    if !named && f.rename.is_some() {
        Some(TsError::UnnamedFieldAttribute)
    } else if !named && f.skip {
        None
    } else if f.type_override.is_some() && f.inline {
        Some(TsError::OverrideWithInline)
    } else if f.type_override.is_some() && f.flatten {
        Some(TsError::OverrideWithFlatten)
    } else if !named && (opt || f.flatten) {
        Some(TsError::UnnamedFieldAttribute)
    } else if opt && f.flatten {
        Some(TsError::OptionalWithFlatten)
    } else if opt && !matches!(f.ty, TsType::Nullable(_)) {
        Some(TsError::OptionalNotNullable)
    } else if f.flatten && !f.skip && flattened_of(&f.ty).is_none() {
        Some(TsError::FlattenNotRecord)
    } else {
        None
    }
}

/// The fields that a flattened reference splices in, where it is a record.
pub fn flattened_of(t: &TsType) -> (r: Option<String>)
    ensures
        r is Some <==> flat_text(*t) is Some,
        r is Some ==> r->Some_0@ == flat_text(*t)->Some_0,
{
    match t {
        TsType::Named(info) => match &info.flattened {
            Some(f) => Some(f.clone()),
            None => None,
        },
        _ => None,
    }
}

/// Finds the first configuration error among a list of fields.
pub fn check_fields(fs: &Vec<FieldDesc>, named: bool) -> (r: Option<TsError>)
    ensures
        r == fields_check(fs@, named, fs@.len()),
{
    let mut i: usize = 0;
    while i < fs.len()
        invariant
            i <= fs@.len(),
            fields_check(fs@, named, i as nat) is None,
        decreases fs@.len() - i,
    {
        let e = check_field(&fs[i], named);
        if e.is_some() {
            proof { lemma_fields_check_stable(fs@, named, (i + 1) as nat, fs@.len()); }
            return e;
        }
        i = i + 1;
    }
    None
}

/// Renders the text of a field's type.
pub fn render_value(f: &FieldDesc) -> (r: String)
    ensures
        r@ == value_text(*f),
{
    match &f.type_override {
        Some(o) => o.clone(),
        None => if f.optional == Optionality::Undefined {
            match &f.ty {
                TsType::Nullable(b) => render_type(b, f.inline),
                _ => render_type(&f.ty, f.inline),
            }
        } else {
            render_type(&f.ty, f.inline)
        },
    }
}

/// Renders a record entry for a named field.
pub fn render_entry(f: &FieldDesc, ra: Option<Inflection>) -> (r: String)
    ensures
        r@ == field_entry(*f, ra),
{
    let key = match &f.rename {
        Some(n) => n.clone(),
        None => apply_inflection_opt(ra, f.name.as_str()),
    };
    let mut r = raw_name_to_ts_field(key);
    if f.optional != Optionality::Required {
        r.append("?: ");
    } else {
        r.append(": ");
    }
    r.append(render_value(f).as_str());
    r
}

/// Adds what a named field contributes to a record to `parts`.
pub fn push_field_parts(f: &FieldDesc, ra: Option<Inflection>, parts: &mut Vec<String>)
    requires
        field_check(*f, true) is None,
    ensures
        views(final(parts)@) == views(old(parts)@) + field_parts(*f, ra),
{
    if f.skip {
        assert(views(parts@) =~= views(parts@) + field_parts(*f, ra));
    } else if f.flatten {
        let fl = flattened_of(&f.ty);
        match fl {
            Some(fl) => {
                if fl.as_str().unicode_len() > 0 {
                    parts.push(fl);
                    assert(views(parts@) =~= views(old(parts)@) + field_parts(*f, ra));
                } else {
                    assert(views(parts@) =~= views(parts@) + field_parts(*f, ra));
                }
            },
            None => {},
        }
    } else {
        parts.push(render_entry(f, ra));
        assert(views(parts@) =~= views(old(parts)@) + field_parts(*f, ra));
    }
}

/// The entries of a record with fields `fs`, renamed by `ra`.
pub fn render_named_parts(fs: &Vec<FieldDesc>, ra: Option<Inflection>) -> (r: Vec<String>)
    requires
        fields_check(fs@, true, fs@.len()) is None,
    ensures
        views(r@) == named_parts(fs@, ra, fs@.len()),
{
    let mut parts: Vec<String> = Vec::new();
    let mut i: usize = 0;
    proof { lemma_fields_check_prefix(fs@, true, fs@.len()); }
    assert(views(parts@) =~= Seq::<Seq<char>>::empty());
    while i < fs.len()
        invariant
            i <= fs@.len(),
            views(parts@) == named_parts(fs@, ra, i as nat),
            forall|j: int| 0 <= j < fs@.len() ==> field_check(#[trigger] fs@[j], true) is None,
        decreases fs@.len() - i,
    {
        push_field_parts(&fs[i], ra, &mut parts);
        i = i + 1;
    }
    parts
}

/// The elements of a tuple with fields `fs`.
pub fn render_tuple_parts(fs: &Vec<FieldDesc>) -> (r: Vec<String>)
    ensures
        views(r@) == tuple_parts(fs@, fs@.len()),
{
    let mut parts: Vec<String> = Vec::new();
    let mut i: usize = 0;
    assert(views(parts@) =~= Seq::<Seq<char>>::empty());
    while i < fs.len()
        invariant
            i <= fs@.len(),
            views(parts@) == tuple_parts(fs@, i as nat),
        decreases fs@.len() - i,
    {
        if !fs[i].skip {
            parts.push(render_value(&fs[i]));
            assert(views(parts@) =~= tuple_parts(fs@, i as nat).push(value_text(fs@[i as int])));
        }
        i = i + 1;
    }
    parts
}

/// The first error among a prefix stays the first error of any longer prefix.
pub proof fn lemma_fields_check_stable(fs: Seq<FieldDesc>, named: bool, m: nat, n: nat)
    requires
        m <= n <= fs.len(),
        fields_check(fs, named, m) is Some,
    ensures
        fields_check(fs, named, n) == fields_check(fs, named, m),
    decreases n,
{
    if n > m {
        lemma_fields_check_stable(fs, named, m, (n - 1) as nat);
    }
}

/// Where no field of the first `n` has an error, none of them has one.
pub proof fn lemma_fields_check_prefix(fs: Seq<FieldDesc>, named: bool, n: nat)
    requires
        n <= fs.len(),
        fields_check(fs, named, n) is None,
    ensures
        forall|j: int| 0 <= j < n ==> field_check(#[trigger] fs[j], named) is None,
    decreases n,
{
    if n > 0 {
        lemma_fields_check_prefix(fs, named, (n - 1) as nat);
    }
}

/// Adds the dependencies of a field to `acc`.
pub fn collect_field_deps(f: &FieldDesc, acc: &mut Vec<Dependency>)
    ensures
        deps_view(final(acc)@) == dedup_onto(deps_view(old(acc)@), field_deps(*f)),
{
    if f.skip || f.type_override.is_some() {
        assert(dedup_onto(deps_view(acc@), Seq::empty()) == deps_view(acc@));
    } else {
        collect_deps(&f.ty, f.inline || f.flatten, acc);
    }
}

/// Adds the dependencies of fields `fs`, in order, to `acc`.
pub fn collect_fields_deps(fs: &Vec<FieldDesc>, acc: &mut Vec<Dependency>)
    ensures
        deps_view(final(acc)@) == dedup_onto(deps_view(old(acc)@), fields_deps(fs@, fs@.len())),
{
    let ghost start = deps_view(acc@);
    let mut i: usize = 0;
    assert(dedup_onto(start, Seq::empty()) == start);
    while i < fs.len()
        invariant
            i <= fs@.len(),
            deps_view(acc@) == dedup_onto(start, fields_deps(fs@, i as nat)),
        decreases fs@.len() - i,
    {
        proof { lemma_dedup_onto_append(start, fields_deps(fs@, i as nat), field_deps(fs@[i as int])); }
        collect_field_deps(&fs[i], acc);
        i = i + 1;
    }
}

/// Wraps record entries in braces.
pub fn render_record(parts: &Vec<String>) -> (r: String)
    ensures
        r@ == record_text(views(parts@)),
{
    let mut r = String::from_str("{ ");
    r.append(join_strings(parts, ", ").as_str());
    r.append(" }");
    r
}

/// Wraps tuple elements in brackets.
pub fn render_tuple(parts: &Vec<String>) -> (r: String)
    ensures
        r@ == tuple_text(views(parts@)),
{
    let mut r = String::from_str("[");
    r.append(join_strings(parts, ", ").as_str());
    r.append("]");
    r
}

/// Finds the first configuration error of a shape.
pub fn check_shape(s: &Shape) -> (r: Option<TsError>)
    ensures
        r == shape_check(*s),
{
    match s {
        Shape::Unit => None,
        Shape::Newtype(f) => check_field(f, false),
        Shape::Tuple(fs) => check_fields(fs, false),
        Shape::Named(fs) => check_fields(fs, true),
    }
}

/// Renders a shape, with `ra` renaming the fields of a named shape.
pub fn render_shape(s: &Shape, ra: Option<Inflection>) -> (r: String)
    requires
        shape_check(*s) is None,
    ensures
        r@ == shape_body(*s, ra),
{
    match s {
        Shape::Unit => String::from_str("null"),
        Shape::Newtype(f) => if f.skip { String::from_str("null") } else { render_value(f) },
        Shape::Tuple(fs) => render_tuple(&render_tuple_parts(fs)),
        Shape::Named(fs) => render_record(&render_named_parts(fs, ra)),
    }
}

/// Adds the dependencies of a shape to `acc`.
pub fn collect_shape_deps(s: &Shape, acc: &mut Vec<Dependency>)
    ensures
        deps_view(final(acc)@) == dedup_onto(deps_view(old(acc)@), shape_deps(*s)),
{
    match s {
        Shape::Unit => {
            assert(dedup_onto(deps_view(acc@), Seq::empty()) == deps_view(acc@));
        },
        Shape::Newtype(f) => collect_field_deps(f, acc),
        Shape::Tuple(fs) => collect_fields_deps(fs, acc),
        Shape::Named(fs) => collect_fields_deps(fs, acc),
    }
}

} // verus!
