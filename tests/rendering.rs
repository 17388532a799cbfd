use ts_decl::casing::Inflection;
use ts_decl::decl::render_decl;
use ts_decl::deps::dependencies;
use ts_decl::types::{inline_of, name_of, transparent};
use ts_decl::{Body, FieldDesc, GenericParam, Optionality, Primitive, Shape, TsError, TsType, TypeDesc, TypeInfo, VariantDesc};

fn num() -> TsType {
    TsType::Primitive(Primitive::Number)
}

fn text() -> TsType {
    TsType::Primitive(Primitive::Text)
}

fn field(name: &str, ty: TsType) -> FieldDesc {
    FieldDesc {
        name: name.to_string(),
        ty,
        rename: None,
        type_override: None,
        inline: false,
        skip: false,
        optional: Optionality::Required,
        flatten: false,
    }
}

fn desc(id: u64, name: &str, body: Body) -> TypeDesc {
    TypeDesc {
        type_id: id,
        name: name.to_string(),
        generics: vec![],
        docs: vec![],
        export_to: None,
        rename_all: None,
        rename_all_fields: None,
        tag: None,
        content: None,
        untagged: false,
        body,
    }
}

fn variant(name: &str, shape: Shape) -> VariantDesc {
    VariantDesc { name: name.to_string(), rename: None, skip: false, shape }
}

fn info_of(d: &TypeDesc) -> TypeInfo {
    render_decl(d, "bindings").unwrap()
}

fn inner_record() -> TypeInfo {
    info_of(&desc(10, "Inner", Body::Struct(Shape::Named(vec![field("x", num())]))))
}

#[test]
fn newtype_wrapper_scenario() {
    let d = desc(1, "Wrapper", Body::Struct(Shape::Newtype(field("", num()))));
    let info = info_of(&d);
    assert_eq!(info.decl, "type Wrapper = number;");
    assert_eq!(info.inline, "number");
    assert!(info.deps.is_empty());
    assert!(info.flattened.is_none());
}

#[test]
fn externally_tagged_scenario() {
    let d = desc(
        2,
        "E",
        Body::Enum(vec![variant("A", Shape::Named(vec![field("x", num())])), variant("B", Shape::Unit)]),
    );
    assert_eq!(info_of(&d).inline, "{ A: { x: number } } | \"B\"");
}

#[test]
fn adjacently_tagged_scenario() {
    let mut d = desc(3, "E", Body::Enum(vec![variant("A", Shape::Newtype(field("", num())))]));
    d.tag = Some("t".to_string());
    d.content = Some("c".to_string());
    assert_eq!(info_of(&d).inline, "{ t: \"A\", c: number }");
}

#[test]
fn adjacently_tagged_unit_variant() {
    let mut d = desc(3, "E", Body::Enum(vec![variant("A", Shape::Unit)]));
    d.tag = Some("t".to_string());
    d.content = Some("c".to_string());
    assert_eq!(info_of(&d).inline, "{ t: \"A\" }");
}

#[test]
fn internally_tagged_enum() {
    let inner = inner_record();
    let mut d = desc(
        4,
        "E",
        Body::Enum(vec![
            variant("A", Shape::Named(vec![field("y", text())])),
            variant("B", Shape::Unit),
            variant("C", Shape::Newtype(field("", TsType::Named(Box::new(inner))))),
        ]),
    );
    d.tag = Some("kind".to_string());
    let info = info_of(&d);
    assert_eq!(info.inline, "{ kind: \"A\", y: string } | { kind: \"B\" } | { kind: \"C\", x: number }");
    assert!(info.deps.is_empty());
}

#[test]
fn internal_tag_needs_records() {
    let mut d = desc(5, "E", Body::Enum(vec![variant("A", Shape::Newtype(field("", num())))]));
    d.tag = Some("t".to_string());
    assert!(matches!(render_decl(&d, "bindings"), Err(TsError::InternalTagNotRecord)));
}

#[test]
fn untagged_union_arity() {
    let mut skipped = variant("D", Shape::Unit);
    skipped.skip = true;
    let mut d = desc(
        6,
        "U",
        Body::Enum(vec![
            variant("A", Shape::Newtype(field("", num()))),
            skipped,
            variant("B", Shape::Newtype(field("", text()))),
            variant("C", Shape::Unit),
        ]),
    );
    d.untagged = true;
    assert_eq!(info_of(&d).inline, "number | string | null");
}

#[test]
fn all_variants_skipped_is_never() {
    let mut a = variant("A", Shape::Unit);
    a.skip = true;
    let mut d = desc(7, "U", Body::Enum(vec![a]));
    d.untagged = true;
    assert_eq!(info_of(&d).decl, "type U = never;");
    let e = desc(8, "V", Body::Enum(vec![]));
    assert_eq!(info_of(&e).inline, "never");
}

#[test]
fn record_entries_in_order() {
    let mut skipped = field("hidden", TsType::Primitive(Primitive::Boolean));
    skipped.skip = true;
    let mut opt = field("nick_name", TsType::Nullable(Box::new(text())));
    opt.optional = Optionality::Undefined;
    let mut nullable = field("age", TsType::Nullable(Box::new(num())));
    nullable.optional = Optionality::Nullable;
    let mut renamed = field("other", num());
    renamed.rename = Some("my-key".to_string());
    let mut d = desc(
        9,
        "User",
        Body::Struct(Shape::Named(vec![
            field("user_id", num()),
            skipped,
            field("first_name", text()),
            opt,
            nullable,
            renamed,
        ])),
    );
    d.rename_all = Some(Inflection::Camel);
    let info = info_of(&d);
    assert_eq!(
        info.inline,
        "{ userId: number, firstName: string, nickName?: string, age?: number | null, \"my-key\": number }"
    );
    assert_eq!(
        info.flattened.unwrap(),
        "userId: number, firstName: string, nickName?: string, age?: number | null, \"my-key\": number"
    );
}

#[test]
fn rendering_twice_is_identical() {
    let d = desc(11, "T", Body::Struct(Shape::Named(vec![field("a", num()), field("b", text())])));
    let first = info_of(&d);
    let second = info_of(&d);
    assert_eq!(first.decl, second.decl);
    assert_eq!(first.inline, second.inline);
    assert_eq!(first.decl, "type T = { a: number, b: string };");
}

#[test]
fn sequence_is_transparent() {
    let inner = inner_record();
    let d = desc(
        12,
        "Outer",
        Body::Struct(Shape::Named(vec![field("items", TsType::List(Box::new(TsType::Named(Box::new(inner)))))])),
    );
    let info = info_of(&d);
    assert_eq!(info.inline, "{ items: Array<Inner> }");
    assert_eq!(info.deps.len(), 1);
    assert_eq!(info.deps[0].type_id, 10);
    assert_eq!(info.deps[0].ts_name, "Inner");
    assert_eq!(info.deps[0].exported_to, "bindings/Inner.ts");
}

#[test]
fn dependencies_are_deterministic_and_unique() {
    let inner = inner_record();
    let t = TsType::Tuple(vec![
        TsType::Named(Box::new(inner.clone())),
        TsType::Nullable(Box::new(TsType::Named(Box::new(inner.clone())))),
        TsType::Record(Box::new(text()), Box::new(TsType::Named(Box::new(inner)))),
    ]);
    let first = dependencies(&t);
    let second = dependencies(&t);
    assert_eq!(first.len(), 1);
    assert_eq!(second.len(), 1);
    assert_eq!(first[0].type_id, second[0].type_id);
    assert_eq!(first[0].ts_name, second[0].ts_name);
}

#[test]
fn unexported_types_pass_their_dependencies_on() {
    let inner = inner_record();
    let mut deps_holder = desc(13, "Holder", Body::Struct(Shape::Named(vec![field("i", TsType::Named(Box::new(inner)))])));
    deps_holder.export_to = None;
    let mut holder = info_of(&deps_holder);
    holder.export_to = None;
    let deps = dependencies(&TsType::List(Box::new(TsType::Named(Box::new(holder)))));
    assert_eq!(deps.len(), 1);
    assert_eq!(deps[0].ts_name, "Inner");
}

#[test]
fn type_reference_texts() {
    assert_eq!(name_of(&TsType::Nullable(Box::new(num()))), "number | null");
    assert_eq!(name_of(&TsType::Array(Box::new(num()), 3)), "[number, number, number]");
    assert_eq!(name_of(&TsType::Array(Box::new(num()), 0)), "[]");
    assert_eq!(name_of(&TsType::Array(Box::new(num()), 64)).matches("number").count(), 64);
    assert_eq!(name_of(&TsType::Array(Box::new(num()), 65)), "Array<number>");
    assert_eq!(name_of(&TsType::Tuple(vec![num(), text()])), "[number, string]");
    assert_eq!(name_of(&TsType::Record(Box::new(text()), Box::new(num()))), "Record<string, number>");
    assert_eq!(
        name_of(&TsType::Fallible(Box::new(num()), Box::new(text()))),
        "{ Ok : number } | { Err : string }"
    );
    assert_eq!(name_of(&TsType::Range(Box::new(num()))), "{ start: number, end: number, }");
    assert_eq!(name_of(&TsType::Primitive(Primitive::BigInt)), "bigint");
    assert_eq!(name_of(&TsType::Primitive(Primitive::Null)), "null");
    assert_eq!(name_of(&TsType::Param("T".to_string())), "T");
    let inner = inner_record();
    assert_eq!(name_of(&TsType::List(Box::new(TsType::Named(Box::new(inner.clone()))))), "Array<Inner>");
    assert_eq!(inline_of(&TsType::List(Box::new(TsType::Named(Box::new(inner))))), "Array<{ x: number }>");
}

#[test]
fn transparency_of_references() {
    assert!(transparent(&TsType::List(Box::new(num()))));
    assert!(transparent(&TsType::Nullable(Box::new(num()))));
    assert!(!transparent(&num()));
    assert!(!transparent(&TsType::Named(Box::new(inner_record()))));
}

#[test]
fn flattened_fields_are_spliced() {
    let inner = inner_record();
    let mut flat = field("inner", TsType::Named(Box::new(inner)));
    flat.flatten = true;
    let d = desc(14, "Outer", Body::Struct(Shape::Named(vec![field("a", text()), flat])));
    let info = info_of(&d);
    assert_eq!(info.inline, "{ a: string, x: number }");
    assert!(info.deps.is_empty());
}

#[test]
fn inlined_fields_are_written_out() {
    let inner = inner_record();
    let mut f = field("inner", TsType::Named(Box::new(inner)));
    f.inline = true;
    let d = desc(15, "Outer", Body::Struct(Shape::Named(vec![f])));
    let info = info_of(&d);
    assert_eq!(info.inline, "{ inner: { x: number } }");
    assert!(info.deps.is_empty());
}

#[test]
fn overridden_newtype_uses_the_text() {
    let mut f = field("", TsType::Named(Box::new(inner_record())));
    f.type_override = Some("Date".to_string());
    let info = info_of(&desc(16, "When", Body::Struct(Shape::Newtype(f))));
    assert_eq!(info.decl, "type When = Date;");
    assert!(info.deps.is_empty());
}

#[test]
fn newtype_of_named_type_depends_on_it() {
    let f = field("", TsType::Named(Box::new(inner_record())));
    let info = info_of(&desc(17, "Alias", Body::Struct(Shape::Newtype(f))));
    assert_eq!(info.decl, "type Alias = Inner;");
    assert_eq!(info.deps.len(), 1);
}

#[test]
fn skipped_newtype_and_unit_are_null() {
    let mut f = field("", num());
    f.skip = true;
    assert_eq!(info_of(&desc(18, "S", Body::Struct(Shape::Newtype(f)))).decl, "type S = null;");
    assert_eq!(info_of(&desc(19, "U", Body::Struct(Shape::Unit))).decl, "type U = null;");
}

#[test]
fn tuple_struct_skips_fields() {
    let mut skipped = field("", num());
    skipped.skip = true;
    let d = desc(20, "P", Body::Struct(Shape::Tuple(vec![field("", num()), skipped, field("", text())])));
    assert_eq!(info_of(&d).decl, "type P = [number, string];");
}

#[test]
fn generic_declaration() {
    let mut d = desc(21, "Pair", Body::Struct(Shape::Named(vec![field("a", TsType::Param("T".to_string()))])));
    d.generics = vec![
        GenericParam { name: "T".to_string(), default: None },
        GenericParam { name: "U".to_string(), default: Some("string".to_string()) },
    ];
    let info = info_of(&d);
    assert_eq!(info.decl, "type Pair<T, U = string> = { a: T };");
    assert!(info.deps.is_empty());
}

#[test]
fn tagged_record_struct() {
    let mut d = desc(22, "Msg", Body::Struct(Shape::Named(vec![field("a", num())])));
    d.tag = Some("type".to_string());
    assert_eq!(info_of(&d).inline, "{ type: \"Msg\", a: number }");
}

#[test]
fn variant_renames() {
    let mut b = variant("Second", Shape::Named(vec![field("field_one", num())]));
    b.rename = Some("two".to_string());
    let mut d = desc(23, "E", Body::Enum(vec![variant("FirstOne", Shape::Unit), b]));
    d.rename_all = Some(Inflection::Snake);
    d.rename_all_fields = Some(Inflection::Camel);
    assert_eq!(info_of(&d).inline, "\"first_one\" | { two: { fieldOne: number } }");
}

#[test]
fn export_paths() {
    let d = desc(24, "Foo", Body::Struct(Shape::Unit));
    assert_eq!(render_decl(&d, "bindings").unwrap().export_to.unwrap(), "bindings/Foo.ts");
    assert_eq!(render_decl(&d, "out/").unwrap().export_to.unwrap(), "out/Foo.ts");
    assert_eq!(render_decl(&d, "").unwrap().export_to.unwrap(), "Foo.ts");
    let mut dir = desc(24, "Foo", Body::Struct(Shape::Unit));
    dir.export_to = Some("custom/".to_string());
    assert_eq!(render_decl(&dir, "bindings").unwrap().export_to.unwrap(), "custom/Foo.ts");
    let mut file = desc(24, "Foo", Body::Struct(Shape::Unit));
    file.export_to = Some("x/y.ts".to_string());
    assert_eq!(render_decl(&file, "bindings").unwrap().export_to.unwrap(), "x/y.ts");
}

#[test]
fn configuration_errors() {
    let mut d = desc(30, "N", Body::Struct(Shape::Newtype(field("", num()))));
    d.rename_all = Some(Inflection::Lower);
    assert!(matches!(render_decl(&d, "b"), Err(TsError::RenameAllNotApplicable)));

    let mut d = desc(30, "N", Body::Struct(Shape::Newtype(field("", num()))));
    d.tag = Some("t".to_string());
    assert!(matches!(render_decl(&d, "b"), Err(TsError::TagNotApplicable)));

    let mut d = desc(30, "E", Body::Enum(vec![]));
    d.content = Some("c".to_string());
    assert!(matches!(render_decl(&d, "b"), Err(TsError::ContentWithoutTag)));

    let mut f = field("a", num());
    f.type_override = Some("X".to_string());
    f.inline = true;
    let d = desc(30, "S", Body::Struct(Shape::Named(vec![f])));
    assert!(matches!(render_decl(&d, "b"), Err(TsError::OverrideWithInline)));

    let mut f = field("a", num());
    f.type_override = Some("X".to_string());
    f.flatten = true;
    let d = desc(30, "S", Body::Struct(Shape::Named(vec![f])));
    assert!(matches!(render_decl(&d, "b"), Err(TsError::OverrideWithFlatten)));

    let mut f = field("", num());
    f.rename = Some("x".to_string());
    let d = desc(30, "N", Body::Struct(Shape::Newtype(f)));
    assert!(matches!(render_decl(&d, "b"), Err(TsError::UnnamedFieldAttribute)));

    let mut f = field("a", TsType::Nullable(Box::new(num())));
    f.optional = Optionality::Undefined;
    f.flatten = true;
    let d = desc(30, "S", Body::Struct(Shape::Named(vec![f])));
    assert!(matches!(render_decl(&d, "b"), Err(TsError::OptionalWithFlatten)));

    let mut f = field("a", num());
    f.optional = Optionality::Undefined;
    let d = desc(30, "S", Body::Struct(Shape::Named(vec![f])));
    assert!(matches!(render_decl(&d, "b"), Err(TsError::OptionalNotNullable)));
}

#[test]
fn flattening_a_primitive_fails() {
    let mut f = field("a", num());
    f.flatten = true;
    let d = desc(31, "S", Body::Struct(Shape::Named(vec![f])));
    assert!(matches!(render_decl(&d, "b"), Err(TsError::FlattenNotRecord)));
}

#[test]
fn skipped_newtype_ignores_other_attributes() {
    let mut f = field("", TsType::Nullable(Box::new(num())));
    f.skip = true;
    f.optional = Optionality::Undefined;
    f.flatten = true;
    let info = info_of(&desc(32, "S", Body::Struct(Shape::Newtype(f))));
    assert_eq!(info.decl, "type S = null;");
    assert!(info.deps.is_empty());
    let mut g = field("", num());
    g.skip = true;
    g.rename = Some("x".to_string());
    assert!(matches!(render_decl(&desc(33, "S", Body::Struct(Shape::Newtype(g))), "b"), Err(TsError::UnnamedFieldAttribute)));
}

#[test]
fn generic_references_carry_arguments() {
    let mut pair = desc(40, "Pair", Body::Struct(Shape::Named(vec![field("a", TsType::Param("T".to_string()))])));
    pair.generics = vec![GenericParam { name: "T".to_string(), default: None }];
    let pair = info_of(&pair);
    let inner = inner_record();
    let t = TsType::Applied(Box::new(pair), vec![num(), TsType::Named(Box::new(inner))]);
    assert_eq!(name_of(&t), "Pair<number, Inner>");
    assert_eq!(inline_of(&t), "Pair<number, { x: number }>");
    let deps = dependencies(&t);
    assert_eq!(deps.len(), 2);
    assert_eq!(deps[0].ts_name, "Pair");
    assert_eq!(deps[1].ts_name, "Inner");
    assert!(!transparent(&t));
    let d = desc(41, "Holder", Body::Struct(Shape::Named(vec![field("p", t)])));
    assert_eq!(info_of(&d).inline, "{ p: Pair<number, Inner> }");
}
