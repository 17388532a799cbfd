use vstd::prelude::*;
use crate::casing::Inflection;
use crate::decl::{
    decl_body, decl_check, decl_deps, decl_text, is_record, tag_entry, union_text, variants_texts,
};
use crate::deps::{dedup, dedup_onto, has_id, insert_dep, lemma_dedup_onto_ids, type_deps, unique_ids};
use crate::descriptor::{
    FieldDesc, TypeDesc, VariantDesc, entry_rest, field_deps, field_entry, field_key, field_parts, fields_deps,
    named_parts,
    record_text,
};
use crate::exports::{collision, first_clash_from, has_clash};
use crate::naming::field_name;
use crate::types::{DepView, TsType, TypeInfo, info_dep};

verus! {

pub open spec fn kept_fields(fs: Seq<FieldDesc>) -> Seq<FieldDesc> {
    fs.filter(|f: FieldDesc| !f.skip)
}

pub open spec fn kept_variants(vs: Seq<VariantDesc>) -> Seq<VariantDesc> {
    vs.filter(|v: VariantDesc| !v.skip)
}

/// The tag entry of a tagged record, as a list of at most one part.
pub open spec fn tag_parts(d: TypeDesc) -> Seq<Seq<char>> {
    match d.tag {
        Some(t) => seq![tag_entry(t@, d.name@)],
        None => Seq::empty(),
    }
}

pub open spec fn entries(fs: Seq<FieldDesc>, ra: Option<Inflection>) -> Seq<Seq<char>> {
    fs.map_values(|f: FieldDesc| field_entry(f, ra))
}

proof fn lemma_named_parts_entries(fs: Seq<FieldDesc>, ra: Option<Inflection>, n: nat)
    requires
        n <= fs.len(),
        forall|i: int| 0 <= i < fs.len() ==> !(#[trigger] fs[i]).flatten,
    ensures
        named_parts(fs, ra, n) == entries(kept_fields(fs.subrange(0, n as int)), ra),
    decreases n,
{
    if n == 0 {
        assert(fs.subrange(0, 0) =~= Seq::<FieldDesc>::empty());
        assert(entries(kept_fields(fs.subrange(0, 0)), ra) =~= Seq::<Seq<char>>::empty());
    } else {
        lemma_named_parts_entries(fs, ra, (n - 1) as nat);
        let pre = fs.subrange(0, n - 1);
        assert(fs.subrange(0, n as int) =~= pre.push(fs[n - 1]));
        pre.lemma_filter_push(fs[n - 1], |f: FieldDesc| !f.skip);
        if fs[n - 1].skip {
            assert(named_parts(fs, ra, n) =~= named_parts(fs, ra, (n - 1) as nat));
        } else {
            assert(entries(kept_fields(pre).push(fs[n - 1]), ra) =~= entries(kept_fields(pre), ra).push(
                field_entry(fs[n - 1], ra),
            ));
            assert(named_parts(fs, ra, n) =~= named_parts(fs, ra, (n - 1) as nat) + seq![field_entry(fs[n - 1], ra)]);
        }
    }
}

/// A record without flattened fields is written with exactly one entry for
/// each field that is not skipped, in the order of declaration, after its tag
/// where it has one.
pub proof fn law_record_entries(d: TypeDesc)
    requires
        is_record(d),
        forall|i: int|
            0 <= i < d.body->Struct_0->Named_0@.len() ==> !(#[trigger] d.body->Struct_0->Named_0@[i]).flatten,
    ensures
        decl_body(d) == record_text(
            tag_parts(d) + entries(kept_fields(d.body->Struct_0->Named_0@), d.rename_all),
        ),
        entries(kept_fields(d.body->Struct_0->Named_0@), d.rename_all).len() == kept_fields(
            d.body->Struct_0->Named_0@,
        ).len(),
{
    let fs = d.body->Struct_0->Named_0@;
    lemma_named_parts_entries(fs, d.rename_all, fs.len());
    assert(fs.subrange(0, fs.len() as int) =~= fs);
}

/// What a type description renders to is a function of the description: two
/// renderings of one description agree in every text and every dependency.
pub proof fn law_render_deterministic(d: TypeDesc, first: TypeInfo, second: TypeInfo)
    requires
        decl_check(d) is None,
        first.decl@ == decl_text(d),
        first.inline@ == decl_body(d),
        crate::types::deps_view(first.deps@) == dedup(decl_deps(d)),
        second.decl@ == decl_text(d),
        second.inline@ == decl_body(d),
        crate::types::deps_view(second.deps@) == dedup(decl_deps(d)),
    ensures
        first.decl@ == second.decl@,
        first.inline@ == second.inline@,
        crate::types::deps_view(first.deps@) == crate::types::deps_view(second.deps@),
{
}

proof fn lemma_untagged_texts(vs: Seq<VariantDesc>, d: TypeDesc, n: nat)
    requires
        n <= vs.len(),
    ensures
        variants_texts(vs, d, n).len() == kept_variants(vs.subrange(0, n as int)).len(),
    decreases n,
{
    if n == 0 {
        assert(vs.subrange(0, 0) =~= Seq::<VariantDesc>::empty());
    } else {
        lemma_untagged_texts(vs, d, (n - 1) as nat);
        let pre = vs.subrange(0, n - 1);
        assert(vs.subrange(0, n as int) =~= pre.push(vs[n - 1]));
        pre.lemma_filter_push(vs[n - 1], |v: VariantDesc| !v.skip);
    }
}

/// An enum is the union of its variants that are not skipped, one member
/// each; where every variant is skipped, it is the bottom type `never`.
pub proof fn law_union_arity(d: TypeDesc)
    requires
        d.body is Enum,
    ensures
        variants_texts(d.body->Enum_0@, d, d.body->Enum_0@.len()).len() == kept_variants(d.body->Enum_0@).len(),
        decl_body(d) == union_text(variants_texts(d.body->Enum_0@, d, d.body->Enum_0@.len())),
        kept_variants(d.body->Enum_0@).len() == 0 ==> decl_body(d) == "never"@,
{
    let vs = d.body->Enum_0@;
    lemma_untagged_texts(vs, d, vs.len());
    assert(vs.subrange(0, vs.len() as int) =~= vs);
}

/// The dependencies of a type hold each identity once, and every identity
/// that its fields and variants refer to.
pub proof fn law_dependencies_unique(d: TypeDesc)
    ensures
        unique_ids(dedup(decl_deps(d))),
        forall|id: u64| has_id(dedup(decl_deps(d)), id) <==> has_id(decl_deps(d), id),
{
    lemma_dedup_onto_ids(Seq::empty(), decl_deps(d));
}

/// A field that holds a sequence of an exported type depends on that type
/// alone: the sequence itself is no dependency.
pub proof fn law_sequence_transparent(d: TypeDesc, info: TypeInfo)
    requires
        d.body is Struct,
        d.body->Struct_0 is Named,
        d.body->Struct_0->Named_0@.len() == 1,
        ({
            let f = d.body->Struct_0->Named_0@[0];
            &&& !f.skip && f.type_override is None && !f.inline && !f.flatten
            &&& f.ty == TsType::List(Box::new(TsType::Named(Box::new(info))))
        }),
        info.export_to is Some,
    ensures
        dedup(decl_deps(d)) == seq![info_dep(info)],
{
    let fs = d.body->Struct_0->Named_0@;
    assert(type_deps(TsType::Named(Box::new(info)), false) == seq![info_dep(info)]);
    assert(type_deps(fs[0].ty, false) == seq![info_dep(info)]);
    assert(field_deps(fs[0]) == seq![info_dep(info)]);
    assert(fields_deps(fs, 0) == Seq::<DepView>::empty());
    assert(fields_deps(fs, 1) =~= seq![info_dep(info)]);
    let empty: Seq<DepView> = Seq::empty();
    assert(!has_id(empty, info_dep(info).0));
    assert(insert_dep(empty, info_dep(info)) =~= seq![info_dep(info)]);
    assert(seq![info_dep(info)].drop_first() =~= empty);
    assert(dedup_onto(seq![info_dep(info)], empty) == seq![info_dep(info)]);
}

/// Once a type named like another, distinct type has been exported, exporting
/// it fails, and the error names that shared name.
pub proof fn law_collision_across_exports(d: TypeDesc, exported: Seq<DepView>, k: int)
    requires
        0 <= k < exported.len(),
        exported[k].1 == d.name@,
        exported[k].0 != d.type_id,
    ensures
        collision(d.type_id, d.name@, dedup(decl_deps(d)), exported) == Some(d.name@),
{
    assert(has_clash(exported, d.type_id, d.name@));
}

/// Two distinct types of one name among the dependencies make the export fail.
pub proof fn law_collision_among_dependencies(d: TypeDesc, exported: Seq<DepView>, i: int, j: int)
    requires
        0 <= i < dedup(decl_deps(d)).len(),
        0 <= j < dedup(decl_deps(d)).len(),
        dedup(decl_deps(d))[i].1 == dedup(decl_deps(d))[j].1,
        dedup(decl_deps(d))[i].0 != dedup(decl_deps(d))[j].0,
    ensures
        collision(d.type_id, d.name@, dedup(decl_deps(d)), exported) is Some,
{
    let ds = dedup(decl_deps(d));
    if !(has_clash(ds, d.type_id, d.name@) || has_clash(exported, d.type_id, d.name@)) {
        assert(has_clash(ds, ds[i].0, ds[i].1)) by {
            assert(ds[j].1 == ds[i].1 && ds[j].0 != ds[i].0);
        }
        lemma_first_clash_found(ds, exported, 0, i);
    }
}

proof fn lemma_first_clash_found(ds: Seq<DepView>, exported: Seq<DepView>, from: nat, i: int)
    requires
        from <= i < ds.len(),
        has_clash(ds, ds[i].0, ds[i].1),
    ensures
        first_clash_from(ds, exported, from) is Some,
    decreases i - from,
{
    if from < i {
        if !(has_clash(ds, ds[from as int].0, ds[from as int].1) || has_clash(exported, ds[from as int].0, ds[from as int].1)) {
            lemma_first_clash_found(ds, exported, from + 1, i);
        }
    }
}

/// A renamed field is written under its new name, with the rest of its entry
/// as it was: the field's type, and whether it is optional, are untouched.
pub proof fn law_rename_entry(f: FieldDesc, g: FieldDesc, ra: Option<Inflection>)
    requires
        g.rename is Some,
        g.name == f.name,
        g.ty == f.ty,
        g.type_override == f.type_override,
        g.inline == f.inline,
        g.optional == f.optional,
    ensures
        field_entry(g, ra) == field_name(g.rename->Some_0@) + entry_rest(f),
        field_entry(f, ra) == field_name(field_key(f, ra)) + entry_rest(f),
{
}

/// `gs` is `fs` with the field at `i` renamed, and nothing else changed.
pub open spec fn renamed_at(fs: Seq<FieldDesc>, gs: Seq<FieldDesc>, i: int) -> bool {
    &&& fs.len() == gs.len()
    &&& 0 <= i < fs.len()
    &&& forall|k: int| 0 <= k < fs.len() && k != i ==> #[trigger] gs[k] == fs[k]
    &&& gs[i].rename is Some
    &&& gs[i].name == fs[i].name
    &&& gs[i].ty == fs[i].ty
    &&& gs[i].type_override == fs[i].type_override
    &&& gs[i].inline == fs[i].inline
    &&& gs[i].skip == fs[i].skip
    &&& gs[i].optional == fs[i].optional
    &&& gs[i].flatten == fs[i].flatten
}

proof fn lemma_rename_prefix(fs: Seq<FieldDesc>, gs: Seq<FieldDesc>, i: int, ra: Option<Inflection>, n: nat)
    requires
        renamed_at(fs, gs, i),
        !fs[i].skip,
        !fs[i].flatten,
        n <= fs.len(),
    ensures
        n <= i ==> named_parts(gs, ra, n) == named_parts(fs, ra, n),
        n > i ==> ({
            let a = named_parts(fs, ra, n);
            let b = named_parts(gs, ra, n);
            let p = named_parts(fs, ra, i as nat).len() as int;
            &&& a.len() == b.len()
            &&& 0 <= p < a.len()
            &&& forall|k: int| 0 <= k < a.len() && k != p ==> a[k] == b[k]
            &&& a[p] == field_entry(fs[i], ra)
            &&& b[p] == field_name(gs[i].rename->Some_0@) + entry_rest(fs[i])
        }),
    decreases n,
{
    if n > 0 {
        lemma_rename_prefix(fs, gs, i, ra, (n - 1) as nat);
        let k = n - 1;
        if k != i {
            assert(gs[k] == fs[k]);
        } else {
            assert(field_parts(fs[i], ra) == seq![field_entry(fs[i], ra)]);
            assert(field_parts(gs[i], ra) == seq![field_entry(gs[i], ra)]);
            law_rename_entry(fs[i], gs[i], ra);
        }
        if n > i {
            let a = named_parts(fs, ra, n);
            let b = named_parts(gs, ra, n);
            let p = named_parts(fs, ra, i as nat).len() as int;
            if k > i {
                let a0 = named_parts(fs, ra, k as nat);
                let b0 = named_parts(gs, ra, k as nat);
                assert(a == a0 + field_parts(fs[k], ra));
                assert(b == b0 + field_parts(fs[k], ra));
                assert forall|q: int| 0 <= q < a.len() && q != p implies a[q] == b[q] by {
                    if q >= a0.len() {
                        assert(a[q] == field_parts(fs[k], ra)[q - a0.len()]);
                        assert(b[q] == field_parts(fs[k], ra)[q - b0.len()]);
                    } else {
                        assert(a[q] == a0[q]);
                        assert(b[q] == b0[q]);
                    }
                }
                assert(a[p] == a0[p]);
                assert(b[p] == b0[p]);
            } else {
                let a0 = named_parts(fs, ra, k as nat);
                assert(a == a0 + seq![field_entry(fs[i], ra)]);
                assert(b == a0 + seq![field_entry(gs[i], ra)]);
                assert forall|q: int| 0 <= q < a.len() && q != p implies a[q] == b[q] by {
                    assert(a[q] == a0[q]);
                    assert(b[q] == a0[q]);
                }
            }
        }
    }
}

/// Renaming one field of a record changes its entry's name and nothing else:
/// the entries keep their number and order, and the renamed field's entry
/// keeps its place and the rest of its text.
pub proof fn law_rename_in_record(fs: Seq<FieldDesc>, gs: Seq<FieldDesc>, i: int, ra: Option<Inflection>)
    requires
        renamed_at(fs, gs, i),
        !fs[i].skip,
        !fs[i].flatten,
    ensures
        ({
            let a = named_parts(fs, ra, fs.len());
            let b = named_parts(gs, ra, gs.len());
            let p = named_parts(fs, ra, i as nat).len() as int;
            &&& a.len() == b.len()
            &&& 0 <= p < a.len()
            &&& forall|k: int| 0 <= k < a.len() && k != p ==> a[k] == b[k]
            &&& a[p] == field_entry(fs[i], ra)
            &&& b[p] == field_name(gs[i].rename->Some_0@) + entry_rest(fs[i])
        }),
{
    lemma_rename_prefix(fs, gs, i, ra, fs.len());
}

} // verus!
