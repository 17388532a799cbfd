use ts_decl::decl::render_decl;
use ts_decl::exports::relative_import;
use ts_decl::{
    Dependency,
    export_file, export_to_string, Body, ExportConfig, FieldDesc, Optionality, Primitive, Shape, TsError, TsType,
    TypeDesc, TypeInfo,
};

fn field(name: &str, ty: TsType) -> FieldDesc {
    FieldDesc {
        name: name.to_string(),
        ty,
        rename: None,
        type_override: None,
        inline: false,
        skip: false,
        optional: Optionality::Required,
        flatten: false,
    }
}

fn desc(id: u64, name: &str, fields: Vec<FieldDesc>) -> TypeDesc {
    TypeDesc {
        type_id: id,
        name: name.to_string(),
        generics: vec![],
        docs: vec![],
        export_to: None,
        rename_all: None,
        rename_all_fields: None,
        tag: None,
        content: None,
        untagged: false,
        body: Body::Struct(Shape::Named(fields)),
    }
}

fn cfg(esm: bool) -> ExportConfig {
    ExportConfig { base_dir: "bindings".to_string(), esm }
}

fn named(info: TypeInfo) -> TsType {
    TsType::Named(Box::new(info))
}

fn exported(id: u64, name: &str, path: Option<&str>) -> TypeInfo {
    let mut d = desc(id, name, vec![field("x", TsType::Primitive(Primitive::Number))]);
    d.export_to = path.map(|p| p.to_string());
    render_decl(&d, "bindings").unwrap()
}

#[test]
fn file_with_imports() {
    let inner = exported(1, "Inner", None);
    let mut d = desc(2, "Outer", vec![field("items", TsType::List(Box::new(named(inner))))]);
    d.docs = vec!["An outer type.".to_string()];
    let target = export_file(&d, &cfg(false), &vec![]).unwrap();
    assert_eq!(target.path, "bindings/Outer.ts");
    assert_eq!(
        target.content,
        "/**\n *An outer type.\n */\nimport { Inner } from \"./Inner\";\nexport type Outer = { items: Array<Inner> };\n"
    );
}

#[test]
fn esm_imports_end_in_js() {
    let inner = exported(1, "Inner", Some("models/Inner.ts"));
    let d = desc(2, "Outer", vec![field("i", named(inner))]);
    let text = export_to_string(&d, &cfg(true)).unwrap();
    assert_eq!(text, "import { Inner } from \"../models/Inner.js\";\nexport type Outer = { i: Inner };\n");
}

#[test]
fn same_file_needs_no_import() {
    let inner = exported(1, "Inner", Some("bindings/Outer.ts"));
    let d = desc(2, "Outer", vec![field("i", named(inner))]);
    assert_eq!(export_to_string(&d, &cfg(false)).unwrap(), "export type Outer = { i: Inner };\n");
}

#[test]
fn relative_paths() {
    assert_eq!(relative_import("bindings/a/Outer.ts", "bindings/b/Inner.ts", false), "../b/Inner");
    assert_eq!(relative_import("bindings/Outer.ts", "bindings/Inner.ts", false), "./Inner");
    assert_eq!(relative_import("bindings/Outer.ts", "bindings/sub/Inner.ts", true), "./sub/Inner.js");
    assert_eq!(relative_import("a/b/c/X.ts", "Y.ts", false), "../../../Y");
    assert_eq!(relative_import("bindings/ab/X.ts", "bindings/ac/Y.ts", false), "../ac/Y");
    assert_eq!(relative_import("X.ts", "lib/y.d", false), "./lib/y.d");
    assert_eq!(relative_import("bindings\\a\\Outer.ts", "bindings/b/Inner.ts", false), "../b/Inner");
    assert_eq!(relative_import("bindings/Outer.ts", "bindings\\sub\\Inner.ts", false), "./sub/Inner");
}

#[test]
fn distinct_types_of_one_name_collide() {
    let first = exported(1, "Foo", Some("x/Foo.ts"));
    let second = exported(2, "Foo", Some("y/Foo.ts"));
    let d = desc(3, "Outer", vec![field("a", named(first)), field("b", named(second))]);
    match export_to_string(&d, &cfg(false)) {
        Err(TsError::Collision(n)) => assert_eq!(n, "Foo"),
        other => panic!("expected a collision, got {:?}", other),
    }
}

#[test]
fn type_colliding_with_its_dependency() {
    let other = exported(1, "Foo", Some("x/Foo.ts"));
    let d = desc(3, "Foo", vec![field("a", named(other))]);
    assert!(matches!(export_to_string(&d, &cfg(false)), Err(TsError::Collision(_))));
}

#[test]
fn one_type_referred_twice_does_not_collide() {
    let inner = exported(1, "Inner", None);
    let d = desc(3, "Outer", vec![field("a", named(inner.clone())), field("b", named(inner))]);
    assert_eq!(
        export_to_string(&d, &cfg(false)).unwrap(),
        "import { Inner } from \"./Inner\";\nexport type Outer = { a: Inner, b: Inner };\n"
    );
}

#[test]
fn export_reports_description_errors() {
    let mut f = field("a", TsType::Primitive(Primitive::Number));
    f.flatten = true;
    let d = desc(4, "Bad", vec![f]);
    assert!(matches!(export_file(&d, &cfg(false), &vec![]), Err(TsError::FlattenNotRecord)));
}

#[test]
fn second_type_of_one_name_collides_across_exports() {
    let mut a = desc(1, "Foo", vec![field("x", TsType::Primitive(Primitive::Number))]);
    a.export_to = Some("a/Foo.ts".to_string());
    let mut b = desc(2, "Foo", vec![field("y", TsType::Primitive(Primitive::Text))]);
    b.export_to = Some("b/Foo.ts".to_string());
    let mut done = Vec::new();
    let first = export_file(&a, &cfg(false), &done).unwrap();
    assert_eq!(first.entry.type_id, 1);
    assert_eq!(first.entry.ts_name, "Foo");
    assert_eq!(first.entry.exported_to, "a/Foo.ts");
    done.push(first.entry);
    match export_file(&b, &cfg(false), &done) {
        Err(TsError::Collision(n)) => assert_eq!(n, "Foo"),
        other => panic!("expected a collision, got {:?}", other),
    }
    assert!(export_file(&a, &cfg(false), &done).is_ok());
}

#[test]
fn collision_error_names_the_first_clash() {
    let first = exported(1, "Foo", Some("x/Foo.ts"));
    let second = exported(2, "Foo", Some("y/Foo.ts"));
    let bar = exported(3, "Bar", Some("x/Bar.ts"));
    let other_bar = Dependency { type_id: 4, ts_name: "Bar".to_string(), exported_to: "z/Bar.ts".to_string() };
    let d = desc(5, "Outer", vec![field("c", named(bar)), field("a", named(first)), field("b", named(second))]);
    for _ in 0..2 {
        match export_file(&d, &cfg(false), &vec![other_bar.clone()]) {
            Err(TsError::Collision(n)) => assert_eq!(n, "Bar"),
            other => panic!("expected a collision, got {:?}", other),
        }
    }
}
