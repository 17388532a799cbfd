use vstd::prelude::*;
use vstd::string::*;
use crate::casing::{Inflection, apply_inflection_opt, inflect_opt};
use crate::deps::{collect_deps, dedup, dedup_onto, lemma_dedup_onto_append, type_deps};
use crate::descriptor::{
    Body, GenericParam, Shape, TsError, TypeDesc, VariantDesc, flat_text, named_parts, record_text, shape_body,
    shape_check, shape_deps,
};
use crate::naming::{field_name, format_docs, join, join_strings, quote, quoted, raw_name_to_ts_field, views, doc_block};
use crate::render::{check_shape, collect_shape_deps, flattened_of, render_named_parts, render_record, render_shape};
use crate::types::{Dependency, DepView, TypeInfo, deps_view};

verus! {

/// Tag inside the object, beside the payload's own fields.
pub open spec fn internally_tagged(d: TypeDesc) -> bool {
    !d.untagged && d.tag is Some && d.content is None
}

/// Name of a variant after `rename`, or the policy `ra`.
pub open spec fn variant_name(v: VariantDesc, ra: Option<Inflection>) -> Seq<char> {
    match v.rename {
        Some(r) => r@,
        None => inflect_opt(ra, v.name@),
    }
}

/// Whether a payload can carry an internal tag: it is a record, or nothing.
pub open spec fn internal_ok(s: Shape) -> bool {
    match s {
        Shape::Unit => true,
        Shape::Named(_) => true,
        Shape::Newtype(f) => !f.skip && f.type_override is None && flat_text(f.ty) is Some,
        Shape::Tuple(_) => false,
    }
}

pub open spec fn variant_check(v: VariantDesc, d: TypeDesc) -> Option<TsError> {
    match shape_check(v.shape) {
        Some(e) => Some(e),
        None => if internally_tagged(d) && !internal_ok(v.shape) {
            Some(TsError::InternalTagNotRecord)
        } else {
            None
        },
    }
}

/// The first error among the first `n` variants of `vs` that are not skipped.
pub open spec fn variants_check(vs: Seq<VariantDesc>, d: TypeDesc, n: nat) -> Option<TsError>
    decreases n,
{
    if n == 0 || n > vs.len() {
        None
    } else {
        match variants_check(vs, d, (n - 1) as nat) {
            Some(e) => Some(e),
            None => if vs[n - 1].skip { None } else { variant_check(vs[n - 1], d) },
        }
    }
}

/// The fields that an internally tagged payload puts beside the tag.
pub open spec fn internal_parts(s: Shape, ra: Option<Inflection>) -> Seq<Seq<char>> {
    match s {
        Shape::Named(fs) => named_parts(fs@, ra, fs@.len()),
        Shape::Newtype(f) => {
            let fl = flat_text(f.ty)->Some_0;
            if fl.len() == 0 { Seq::empty() } else { seq![fl] }
        },
        _ => Seq::empty(),
    }
}

/// `tag: "name"`.
pub open spec fn tag_entry(tag: Seq<char>, name: Seq<char>) -> Seq<char> {
    field_name(tag) + ": "@ + quoted(name)
}

/// The text of one variant under the enum's tagging mode.
pub open spec fn variant_text(v: VariantDesc, d: TypeDesc) -> Seq<char> {
    let n = variant_name(v, d.rename_all);
    let payload = shape_body(v.shape, d.rename_all_fields);
    let unit = v.shape is Unit;
    if d.untagged {
        if unit { "null"@ } else { payload }
    } else {
        match d.tag {
            None => if unit { quoted(n) } else { record_text(seq![field_name(n) + ": "@ + payload]) },
            Some(t) => match d.content {
                Some(c) => if unit {
                    record_text(seq![tag_entry(t@, n)])
                } else {
                    record_text(seq![tag_entry(t@, n), field_name(c@) + ": "@ + payload])
                },
                None => record_text(seq![tag_entry(t@, n)] + internal_parts(v.shape, d.rename_all_fields)),
            },
        }
    }
}

pub open spec fn variant_deps(v: VariantDesc, d: TypeDesc) -> Seq<DepView> {
    if internally_tagged(d) && v.shape is Newtype {
        type_deps(v.shape->Newtype_0.ty, true)
    } else {
        shape_deps(v.shape)
    }
}

/// Texts of the variants among the first `n` that are not skipped.
pub open spec fn variants_texts(vs: Seq<VariantDesc>, d: TypeDesc, n: nat) -> Seq<Seq<char>>
    decreases n,
{
    if n == 0 || n > vs.len() {
        Seq::empty()
    } else if vs[n - 1].skip {
        variants_texts(vs, d, (n - 1) as nat)
    } else {
        variants_texts(vs, d, (n - 1) as nat).push(variant_text(vs[n - 1], d))
    }
}

pub open spec fn variants_deps(vs: Seq<VariantDesc>, d: TypeDesc, n: nat) -> Seq<DepView>
    decreases n,
{
    if n == 0 || n > vs.len() {
        Seq::empty()
    } else if vs[n - 1].skip {
        variants_deps(vs, d, (n - 1) as nat)
    } else {
        variants_deps(vs, d, (n - 1) as nat) + variant_deps(vs[n - 1], d)
    }
}

/// The union of the variants; `never` where every variant is skipped.
pub open spec fn union_text(texts: Seq<Seq<char>>) -> Seq<char> {
    if texts.len() == 0 { "never"@ } else { join(texts, " | "@) }
}

/// The first error of a type description, if any.
pub open spec fn decl_check(d: TypeDesc) -> Option<TsError> {
    match d.body {
        Body::Struct(Shape::Named(fs)) => if d.content is Some || d.untagged {
            Some(TsError::TagNotApplicable)
        } else if d.rename_all_fields is Some {
            Some(TsError::RenameAllNotApplicable)
        } else {
            shape_check(Shape::Named(fs))
        },
        Body::Struct(s) => if d.rename_all is Some || d.rename_all_fields is Some {
            Some(TsError::RenameAllNotApplicable)
        } else if d.tag is Some || d.content is Some || d.untagged {
            Some(TsError::TagNotApplicable)
        } else {
            shape_check(s)
        },
        Body::Enum(vs) => if d.content is Some && d.tag is None && !d.untagged {
            Some(TsError::ContentWithoutTag)
        } else {
            variants_check(vs@, d, vs@.len())
        },
    }
}

/// Entries of a named-field struct: its tag, where it has one, then its fields.
pub open spec fn struct_parts(d: TypeDesc) -> Seq<Seq<char>> {
    let tag = match d.tag {
        Some(t) => seq![tag_entry(t@, d.name@)],
        None => Seq::empty(),
    };
    tag + named_parts(d.body->Struct_0->Named_0@, d.rename_all, d.body->Struct_0->Named_0@.len())
}

pub open spec fn is_record(d: TypeDesc) -> bool {
    d.body is Struct && d.body->Struct_0 is Named
}

/// The body of the declaration: what the type is where it is inlined.
pub open spec fn decl_body(d: TypeDesc) -> Seq<char> {
    match d.body {
        Body::Struct(s) => if is_record(d) { record_text(struct_parts(d)) } else { shape_body(s, None) },
        Body::Enum(vs) => union_text(variants_texts(vs@, d, vs@.len())),
    }
}

/// The fields that the type splices into another record; only records have them.
pub open spec fn decl_flattened(d: TypeDesc) -> Option<Seq<char>> {
    if is_record(d) { Some(join(struct_parts(d), ", "@)) } else { None }
}

/// Dependencies of the type, before duplicates are removed.
pub open spec fn decl_deps(d: TypeDesc) -> Seq<DepView> {
    match d.body {
        Body::Struct(s) => shape_deps(s),
        Body::Enum(vs) => variants_deps(vs@, d, vs@.len()),
    }
}

/// `T`, or `T = Default`.
pub open spec fn param_text(p: GenericParam) -> Seq<char> {
    p.name@ + match p.default {
        Some(d) => " = "@ + d@,
        None => Seq::empty(),
    }
}

pub open spec fn params_texts(g: Seq<GenericParam>) -> Seq<Seq<char>> {
    g.map_values(|p: GenericParam| param_text(p))
}

/// The parameter list of a declaration: empty where there are no parameters.
pub open spec fn generics_text(g: Seq<Seq<char>>) -> Seq<char> {
    if g.len() == 0 { Seq::empty() } else { "<"@ + join(g, ", "@) + ">"@ }
}

/// `type <name><params> = <body>;`
pub open spec fn decl_text(d: TypeDesc) -> Seq<char> {
    "type "@ + d.name@ + generics_text(params_texts(d.generics@)) + " = "@ + decl_body(d) + ";"@
}

pub open spec fn ends_with_slash(s: Seq<char>) -> bool {
    s.len() > 0 && s.last() == '/'
}

/// `file` inside the directory `dir`.
pub open spec fn dir_join(dir: Seq<char>, file: Seq<char>) -> Seq<char> {
    if dir.len() == 0 {
        file
    } else if ends_with_slash(dir) {
        dir + file
    } else {
        dir + "/"@ + file
    }
}

/// Where a type is exported: its own path where it has one (a directory where
/// that ends in `/`), else `<name>.ts` in the base directory.
pub open spec fn export_path(d: TypeDesc, base: Seq<char>) -> Seq<char> {
    match d.export_to {
        Some(p) => if ends_with_slash(p@) { p@ + d.name@ + ".ts"@ } else { p@ },
        None => dir_join(base, d.name@ + ".ts"@),
    }
}

fn render_variant_name(v: &VariantDesc, ra: Option<Inflection>) -> (r: String)
    ensures
        r@ == variant_name(*v, ra),
{
    match &v.rename {
        Some(r) => r.clone(),
        None => apply_inflection_opt(ra, v.name.as_str()),
    }
}

fn is_internally_tagged(d: &TypeDesc) -> (r: bool)
    ensures
        r == internally_tagged(*d),
{
    !d.untagged && d.tag.is_some() && d.content.is_none()
}

fn check_variant(v: &VariantDesc, d: &TypeDesc) -> (r: Option<TsError>)
    ensures
        r == variant_check(*v, *d),
{
    let e = check_shape(&v.shape);
    if e.is_some() {
        return e;
    }
    let ok = match &v.shape {
        Shape::Unit => true,
        Shape::Named(_) => true,
        Shape::Newtype(f) => !f.skip && f.type_override.is_none() && flattened_of(&f.ty).is_some(),
        Shape::Tuple(_) => false,
    };
    if is_internally_tagged(d) && !ok {
        Some(TsError::InternalTagNotRecord)
    } else {
        None
    }
}

proof fn lemma_variants_check_stable(vs: Seq<VariantDesc>, d: TypeDesc, m: nat, n: nat)
    requires
        m <= n <= vs.len(),
        variants_check(vs, d, m) is Some,
    ensures
        variants_check(vs, d, n) == variants_check(vs, d, m),
    decreases n,
{
    if n > m {
        lemma_variants_check_stable(vs, d, m, (n - 1) as nat);
    }
}

proof fn lemma_variants_check_prefix(vs: Seq<VariantDesc>, d: TypeDesc, n: nat)
    requires
        n <= vs.len(),
        variants_check(vs, d, n) is None,
    ensures
        forall|j: int| 0 <= j < n && !vs[j].skip ==> variant_check(#[trigger] vs[j], d) is None,
    decreases n,
{
    if n > 0 {
        lemma_variants_check_prefix(vs, d, (n - 1) as nat);
    }
}

fn check_variants(vs: &Vec<VariantDesc>, d: &TypeDesc) -> (r: Option<TsError>)
    ensures
        r == variants_check(vs@, *d, vs@.len()),
{
    let mut i: usize = 0;
    while i < vs.len()
        invariant
            i <= vs@.len(),
            variants_check(vs@, *d, i as nat) is None,
        decreases vs@.len() - i,
    {
        if !vs[i].skip {
            let e = check_variant(&vs[i], d);
            if e.is_some() {
                proof { lemma_variants_check_stable(vs@, *d, (i + 1) as nat, vs@.len()); }
                return e;
            }
        }
        i = i + 1;
    }
    None
}

fn render_tag_entry(tag: &String, name: &str) -> (r: String)
    ensures
        r@ == tag_entry(tag@, name@),
{
    let mut r = raw_name_to_ts_field(tag.clone());
    r.append(": ");
    r.append(quote(name).as_str());
    r
}

fn render_variant(v: &VariantDesc, d: &TypeDesc) -> (r: String)
    requires
        variant_check(*v, *d) is None,
    ensures
        r@ == variant_text(*v, *d),
{
    let n = render_variant_name(v, d.rename_all);
    let unit = matches!(v.shape, Shape::Unit);
    if d.untagged {
        return if unit { String::from_str("null") } else { render_shape(&v.shape, d.rename_all_fields) };
    }
    match &d.tag {
        None => if unit {
            quote(n.as_str())
        } else {
            let mut e = raw_name_to_ts_field(n);
            e.append(": ");
            e.append(render_shape(&v.shape, d.rename_all_fields).as_str());
            let parts = vec![e];
            assert(views(parts@) =~= seq![parts@[0]@]);
            render_record(&parts)
        },
        Some(t) => {
            let te = render_tag_entry(t, n.as_str());
            match &d.content {
                Some(c) => if unit {
                    let parts = vec![te];
                    assert(views(parts@) =~= seq![parts@[0]@]);
                    render_record(&parts)
                } else {
                    let mut ce = raw_name_to_ts_field(c.clone());
                    ce.append(": ");
                    ce.append(render_shape(&v.shape, d.rename_all_fields).as_str());
                    let parts = vec![te, ce];
                    assert(views(parts@) =~= seq![parts@[0]@, parts@[1]@]);
                    render_record(&parts)
                },
                None => {
                    let mut parts = vec![te];
                    assert(views(parts@) =~= seq![parts@[0]@]);
                    match &v.shape {
                        Shape::Named(fs) => {
                            let more = render_named_parts(fs, d.rename_all_fields);
                            let mut i: usize = 0;
                            let ghost first = views(parts@);
                            while i < more.len()
                                invariant
                                    i <= more@.len(),
                                    views(parts@) == first + views(more@).subrange(0, i as int),
                                decreases more@.len() - i,
                            {
                                let c = more[i].clone();
                                assert(c@ == views(more@)[i as int]);
                                let ghost before = parts@;
                                parts.push(c);
                                assert(views(parts@) =~= views(before).push(c@));
                                assert(views(parts@) =~= first + views(more@).subrange(0, i + 1));
                                i = i + 1;
                            }
                            assert(views(more@).subrange(0, more@.len() as int) =~= views(more@));
                        },
                        Shape::Newtype(f) => {
                            let fl = flattened_of(&f.ty);
                            match fl {
                                Some(fl) => {
                                    if fl.as_str().unicode_len() > 0 {
                                        parts.push(fl);
                                    }
                                },
                                None => {},
                            }
                        },
                        _ => {},
                    }
                    assert(views(parts@) =~= seq![te@] + internal_parts(v.shape, d.rename_all_fields));
                    render_record(&parts)
                },
            }
        },
    }
}

fn render_variants(vs: &Vec<VariantDesc>, d: &TypeDesc) -> (r: Vec<String>)
    requires
        variants_check(vs@, *d, vs@.len()) is None,
    ensures
        views(r@) == variants_texts(vs@, *d, vs@.len()),
{
    let mut texts: Vec<String> = Vec::new();
    let mut i: usize = 0;
    proof { lemma_variants_check_prefix(vs@, *d, vs@.len()); }
    assert(views(texts@) =~= Seq::<Seq<char>>::empty());
    while i < vs.len()
        invariant
            i <= vs@.len(),
            views(texts@) == variants_texts(vs@, *d, i as nat),
            forall|j: int| 0 <= j < vs@.len() && !vs@[j].skip ==> variant_check(#[trigger] vs@[j], *d) is None,
        decreases vs@.len() - i,
    {
        if !vs[i].skip {
            texts.push(render_variant(&vs[i], d));
            assert(views(texts@) =~= variants_texts(vs@, *d, i as nat).push(variant_text(vs@[i as int], *d)));
        }
        i = i + 1;
    }
    texts
}

fn collect_variants_deps(vs: &Vec<VariantDesc>, d: &TypeDesc, acc: &mut Vec<Dependency>)
    ensures
        deps_view(final(acc)@) == dedup_onto(deps_view(old(acc)@), variants_deps(vs@, *d, vs@.len())),
{
    let ghost start = deps_view(acc@);
    let internal = is_internally_tagged(d);
    let mut i: usize = 0;
    assert(dedup_onto(start, Seq::empty()) == start);
    while i < vs.len()
        invariant
            i <= vs@.len(),
            internal == internally_tagged(*d),
            deps_view(acc@) == dedup_onto(start, variants_deps(vs@, *d, i as nat)),
        decreases vs@.len() - i,
    {
        if !vs[i].skip {
            proof { lemma_dedup_onto_append(start, variants_deps(vs@, *d, i as nat), variant_deps(vs@[i as int], *d)); }
            match &vs[i].shape {
                Shape::Newtype(f) => if internal {
                    collect_deps(&f.ty, true, acc);
                } else {
                    collect_shape_deps(&vs[i].shape, acc);
                },
                _ => collect_shape_deps(&vs[i].shape, acc),
            }
        }
        i = i + 1;
    }
}

/// Finds the first error of a type description, if any.
pub fn check_decl(d: &TypeDesc) -> (r: Option<TsError>)
    ensures
        r == decl_check(*d),
{
    match &d.body {
        Body::Struct(s) => match s {
            Shape::Named(_) => if d.content.is_some() || d.untagged {
                Some(TsError::TagNotApplicable)
            } else if d.rename_all_fields.is_some() {
                Some(TsError::RenameAllNotApplicable)
            } else {
                check_shape(s)
            },
            _ => if d.rename_all.is_some() || d.rename_all_fields.is_some() {
                Some(TsError::RenameAllNotApplicable)
            } else if d.tag.is_some() || d.content.is_some() || d.untagged {
                Some(TsError::TagNotApplicable)
            } else {
                check_shape(s)
            },
        },
        Body::Enum(vs) => if d.content.is_some() && d.tag.is_none() && !d.untagged {
            Some(TsError::ContentWithoutTag)
        } else {
            check_variants(vs, d)
        },
    }
}

fn render_struct_parts(d: &TypeDesc) -> (r: Vec<String>)
    requires
        decl_check(*d) is None,
        is_record(*d),
    ensures
        views(r@) == struct_parts(*d),
{
    let mut parts: Vec<String> = Vec::new();
    match &d.tag {
        Some(t) => parts.push(render_tag_entry(t, d.name.as_str())),
        None => {},
    }
    let ghost first = views(parts@);
    assert(first =~= match d.tag {
        Some(t) => seq![tag_entry(t@, d.name@)],
        None => Seq::<Seq<char>>::empty(),
    });
    match &d.body {
        Body::Struct(Shape::Named(fs)) => {
            let more = render_named_parts(fs, d.rename_all);
            let mut i: usize = 0;
            while i < more.len()
                invariant
                    i <= more@.len(),
                    views(parts@) == first + views(more@).subrange(0, i as int),
                decreases more@.len() - i,
            {
                let c = more[i].clone();
                assert(c@ == views(more@)[i as int]);
                let ghost before = parts@;
                parts.push(c);
                assert(views(parts@) =~= views(before).push(c@));
                assert(views(parts@) =~= first + views(more@).subrange(0, i + 1));
                i = i + 1;
            }
            assert(views(more@).subrange(0, more@.len() as int) =~= views(more@));
        },
        _ => {},
    }
    parts
}

fn render_body(d: &TypeDesc) -> (r: String)
    requires
        decl_check(*d) is None,
    ensures
        r@ == decl_body(*d),
{
    match &d.body {
        Body::Struct(s) => match s {
            Shape::Named(_) => render_record(&render_struct_parts(d)),
            _ => render_shape(s, None),
        },
        Body::Enum(vs) => {
            let texts = render_variants(vs, d);
            if texts.len() == 0 {
                String::from_str("never")
            } else {
                join_strings(&texts, " | ")
            }
        },
    }
}

/// Renders each generic parameter, with its default where it has one.
pub fn render_params(g: &Vec<GenericParam>) -> (r: Vec<String>)
    ensures
        views(r@) == params_texts(g@),
{
    let mut r: Vec<String> = Vec::new();
    let mut i: usize = 0;
    while i < g.len()
        invariant
            i <= g@.len(),
            r@.len() == i,
            forall|j: int| 0 <= j < i ==> (#[trigger] r@[j])@ == param_text(g@[j]),
        decreases g@.len() - i,
    {
        let mut t = g[i].name.clone();
        match &g[i].default {
            Some(d) => {
                t.append(" = ");
                t.append(d.as_str());
            },
            None => {},
        }
        proof { assert(t@ =~= param_text(g@[i as int])); }
        r.push(t);
        i = i + 1;
    }
    assert(views(r@) =~= params_texts(g@));
    r
}

/// Computes the path of the file a type is exported to.
pub fn resolve_export_path(d: &TypeDesc, base: &str) -> (r: String)
    ensures
        r@ == export_path(*d, base@),
{
    let mut file = d.name.clone();
    file.append(".ts");
    match &d.export_to {
        Some(p) => {
            let n = p.as_str().unicode_len();
            if n > 0 && p.as_str().get_char(n - 1) == '/' {
                let mut r = p.clone();
                r.append(file.as_str());
                r
            } else {
                p.clone()
            }
        },
        None => {
            let n = base.unicode_len();
            if n == 0 {
                file
            } else if base.get_char(n - 1) == '/' {
                let mut r = base.to_string();
                r.append(file.as_str());
                r
            } else {
                let mut r = base.to_string();
                r.append("/");
                r.append(file.as_str());
                r
            }
        },
    }
}

/// Renders a type description: its declaration, its inline text, its
/// flattened fields, its deduplicated dependencies and where it is exported,
/// with `base` as the directory of types without a path of their own.
pub fn render_decl(d: &TypeDesc, base: &str) -> (r: Result<TypeInfo, TsError>)
    ensures
        r is Err <==> decl_check(*d) is Some,
        r is Err ==> Some(r->Err_0) == decl_check(*d),
        r is Ok ==> ({
            let info = r->Ok_0;
            &&& info.type_id == d.type_id
            &&& info.name@ == d.name@
            &&& info.inline@ == decl_body(*d)
            &&& info.decl@ == decl_text(*d)
            &&& (info.flattened is Some <==> decl_flattened(*d) is Some)
            &&& (info.flattened is Some ==> info.flattened->Some_0@ == decl_flattened(*d)->Some_0)
            &&& info.export_to is Some
            &&& info.export_to->Some_0@ == export_path(*d, base@)
            &&& deps_view(info.deps@) == dedup(decl_deps(*d))
            &&& info.docs@ == doc_block(views(d.docs@))
        }),
{
    let e = check_decl(d);
    match e {
        Some(e) => return Err(e),
        None => {},
    }
    let body = render_body(d);
    let mut deps: Vec<Dependency> = Vec::new();
    assert(deps_view(deps@) =~= Seq::<DepView>::empty());
    match &d.body {
        Body::Struct(s) => collect_shape_deps(s, &mut deps),
        Body::Enum(vs) => collect_variants_deps(vs, d, &mut deps),
    }
    let flattened = match &d.body {
        Body::Struct(Shape::Named(_)) => Some(join_strings(&render_struct_parts(d), ", ")),
        _ => None,
    };
    let mut decl = String::from_str("type ");
    decl.append(d.name.as_str());
    if d.generics.len() > 0 {
        decl.append("<");
        decl.append(join_strings(&render_params(&d.generics), ", ").as_str());
        decl.append(">");
    }
    decl.append(" = ");
    decl.append(body.as_str());
    decl.append(";");
    proof {
        reveal_strlit("type ");
        reveal_strlit(" = ");
        reveal_strlit(";");
        reveal_strlit("<");
        reveal_strlit(">");
        assert(decl@ =~= decl_text(*d));
    }
    Ok(TypeInfo {
        type_id: d.type_id,
        name: d.name.clone(),
        decl,
        inline: body,
        flattened,
        export_to: Some(resolve_export_path(d, base)),
        deps,
        docs: format_docs(&d.docs),
    })
}

} // verus!
