use utility_types::args::Declaration;
use utility_types::derive::{derive_all, Derivation};
use utility_types::meta::{Diagnostic, MetaItem, MetaValue, Violation};
use utility_types::operation::{OperationKind, OperationSpec};
use utility_types::path::{MetaPath, PathList};
use utility_types::plan::{Direction, Instance, MappingRule, RuleKind, Value};
use utility_types::schema::{Annotation, Member, SchemaKind, SourceSchema};
use utility_types::types::TypeExpr;

fn word(name: &str) -> MetaItem {
    MetaItem::Path(MetaPath::from_ident(name))
}

fn list(name: &str, items: Vec<MetaItem>) -> MetaItem {
    MetaItem::List { path: MetaPath::from_ident(name), items }
}

fn ident(name: &str) -> MetaItem {
    MetaItem::NameValue {
        path: MetaPath::from_ident("ident"),
        value: MetaValue::Path(MetaPath::from_ident(name)),
    }
}

fn ident_text(text: &str) -> MetaItem {
    MetaItem::NameValue {
        path: MetaPath::from_ident("ident"),
        value: MetaValue::Str(text.to_string()),
    }
}

fn words(names: &[&str]) -> Vec<MetaItem> {
    names.iter().map(|n| word(n)).collect()
}

fn generic(path: &[&str], inner: TypeExpr) -> TypeExpr {
    TypeExpr::Generic {
        leading_colon: false,
        segments: path.iter().map(|s| s.to_string()).collect(),
        first: Box::new(inner),
        rest: vec![],
    }
}

fn option_of(inner: TypeExpr) -> TypeExpr {
    generic(&["Option"], inner)
}

fn a() -> SourceSchema {
    SourceSchema::new(
        SchemaKind::Record,
        "A",
        vec![
            Member::named("a", TypeExpr::plain("usize")),
            Member::named("b", option_of(TypeExpr::plain("usize"))),
        ],
    )
}

fn run(source: &mut SourceSchema, items: Vec<MetaItem>) -> Result<Vec<Derivation>, Vec<Diagnostic>> {
    match Declaration::from_list(OperationKind::Required, &items) {
        Ok(declaration) => {
            source.forward_attrs = declaration.forward_attrs;
            derive_all(source, &declaration.args.0)
        }
        Err(d) => Err(vec![d]),
    }
}

#[test]
fn required() {
    // a target name: the optional field loses its wrapper, the other stays
    let mut source = a();
    let derived = run(
        &mut source,
        vec![ident("RequiredA"), list("derive", words(&["Debug", "PartialEq"]))],
    )
    .unwrap();
    assert_eq!(derived.len(), 1);
    assert_eq!(derived[0].schema.kind, SchemaKind::Record);
    assert_eq!(derived[0].schema.name, "RequiredA");
    assert_eq!(derived[0].schema.members[0].ty, TypeExpr::plain("usize"));
    assert_eq!(derived[0].schema.members[1].ty, TypeExpr::plain("usize"));

    // nothing written, a derive list alone, a filter alone: no target name
    let mut source = a();
    assert_eq!(
        run(&mut source, vec![]),
        Err(vec![Diagnostic { location: 0, violation: Violation::MissingTarget }])
    );
    let mut source = a();
    assert_eq!(
        run(&mut source, vec![list("derive", words(&["Debug"]))]),
        Err(vec![Diagnostic { location: 0, violation: Violation::MissingTarget }])
    );
    let mut source = a();
    assert_eq!(
        run(&mut source, vec![list("forward_attrs", words(&["serde"]))]),
        Err(vec![Diagnostic { location: 0, violation: Violation::MissingTarget }])
    );

    // the target name as a string
    let mut source = a();
    let derived = run(
        &mut source,
        vec![ident_text("RequiredA"), list("derive", words(&["Debug", "PartialEq"]))],
    )
    .unwrap();
    assert_eq!(derived[0].schema.name, "RequiredA");

    // an empty derive list
    let mut source = a();
    let derived = run(&mut source, vec![ident("RequiredA"), list("derive", vec![])]).unwrap();
    assert_eq!(derived[0].schema.decorations, Some(PathList::new(vec![])));

    // a filter on the spec forwards an annotation of the declaration
    let mut source = a();
    source.annotations = vec![
        Annotation::new("derive", "(Required, Debug)"),
        Annotation::new("serde", "(rename_all = \"UPPERCASE\")"),
    ];
    let derived = run(
        &mut source,
        vec![
            ident("RequiredA"),
            list("derive", words(&["Debug", "PartialEq", "Serialize", "Deserialize"])),
            list("forward_attrs", words(&["serde"])),
        ],
    )
    .unwrap();
    assert_eq!(
        derived[0].schema.annotations,
        vec![Annotation::new("serde", "(rename_all = \"UPPERCASE\")")]
    );
    assert_eq!(derived[0].schema.members[1].ty, TypeExpr::plain("usize"));
}

#[test]
fn required_removes_exactly_one_wrapper() {
    let source = SourceSchema::new(
        SchemaKind::Record,
        "Layers",
        vec![
            Member::named("plain", TypeExpr::plain("String")),
            Member::named("once", option_of(TypeExpr::plain("String"))),
            Member::named("twice", option_of(option_of(TypeExpr::plain("String")))),
            Member::named("std", generic(&["std", "option", "Option"], TypeExpr::plain("u8"))),
            Member::named("core", generic(&["core", "option", "Option"], TypeExpr::plain("u8"))),
            Member::named("list", generic(&["Vec"], option_of(TypeExpr::plain("u8")))),
            Member::named("other", generic(&["my", "Option"], TypeExpr::plain("u8"))),
            Member::named("text", TypeExpr::plain("Option")),
        ],
    );
    let derived =
        utility_types::required(&source, &OperationSpec::new(OperationKind::Required, "R"))
            .unwrap();
    let types: Vec<&TypeExpr> = derived.schema.members.iter().map(|m| &m.ty).collect();
    assert_eq!(*types[0], TypeExpr::plain("String"));
    assert_eq!(*types[1], TypeExpr::plain("String"));
    assert_eq!(*types[2], option_of(TypeExpr::plain("String")));
    assert_eq!(*types[3], TypeExpr::plain("u8"));
    assert_eq!(*types[4], TypeExpr::plain("u8"));
    assert_eq!(*types[5], generic(&["Vec"], option_of(TypeExpr::plain("u8"))));
    assert_eq!(*types[6], generic(&["my", "Option"], TypeExpr::plain("u8")));
    assert_eq!(*types[7], TypeExpr::plain("Option"));
}

#[test]
fn required_has_one_plan_and_none_that_leads_back() {
    let derived =
        utility_types::required(&a(), &OperationSpec::new(OperationKind::Required, "RequiredA"))
            .unwrap();
    assert_eq!(derived.plans.len(), 1);
    let plan = &derived.plans[0];
    assert_eq!(plan.direction, Direction::SourceToDerived);
    assert_eq!(
        plan.rules,
        vec![
            MappingRule { source: 0, kind: RuleKind::Identity },
            MappingRule { source: 1, kind: RuleKind::UnwrapOptional(None) },
        ]
    );
    let value = Instance::Record(vec![
        Value::Atom("0".to_string()),
        Value::Present(Box::new(Value::Atom("1".to_string()))),
    ]);
    assert_eq!(
        plan.to_derived(&value),
        Some(Instance::Record(vec![Value::Atom("0".to_string()), Value::Atom("1".to_string())]))
    );
    assert_eq!(
        plan.to_source(&Instance::Record(vec![
            Value::Atom("0".to_string()),
            Value::Atom("1".to_string()),
        ])),
        None
    );
}

#[test]
fn required_undoes_partial() {
    let partial =
        utility_types::partial(&a(), &OperationSpec::new(OperationKind::Partial, "P")).unwrap();
    let again = SourceSchema::new(SchemaKind::Record, "P", partial.schema.members);
    let back =
        utility_types::required(&again, &OperationSpec::new(OperationKind::Required, "R")).unwrap();
    assert_eq!(back.schema.members[0].ty, a().members[0].ty);
    assert_eq!(back.schema.members[1].ty, a().members[1].ty);
}
