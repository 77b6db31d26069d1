use utility_types::args::Declaration;
use utility_types::derive::{derive_all, Derivation};
use utility_types::meta::{Diagnostic, MetaItem, MetaValue, Violation};
use utility_types::operation::{OperationKind, OperationSpec};
use utility_types::path::{IdentList, MetaPath, PathList};
use utility_types::plan::{Direction, Instance, MappingRule, RuleKind, Value};
use utility_types::schema::{Annotation, Member, SchemaKind, SourceSchema};
use utility_types::types::TypeExpr;

fn word(name: &str) -> MetaItem {
    MetaItem::Path(MetaPath::from_ident(name))
}

fn list(name: &str, items: Vec<MetaItem>) -> MetaItem {
    MetaItem::List { path: MetaPath::from_ident(name), items }
}

fn ident(name: &str) -> MetaItem {
    MetaItem::NameValue {
        path: MetaPath::from_ident("ident"),
        value: MetaValue::Path(MetaPath::from_ident(name)),
    }
}

fn words(names: &[&str]) -> Vec<MetaItem> {
    names.iter().map(|n| word(n)).collect()
}

fn article() -> SourceSchema {
    SourceSchema::new(
        SchemaKind::Record,
        "Article",
        vec![
            Member::named("title", TypeExpr::plain("String")),
            Member::named("author", TypeExpr::plain("String")),
            Member::named("content", TypeExpr::plain("String")),
            Member::named("tags", TypeExpr::plain("Vec<String>")),
        ],
    )
}

fn article_value() -> Instance {
    Instance::Record(vec![
        Value::Atom("Hello, world!".to_string()),
        Value::Atom("Alice".to_string()),
        Value::Atom("This is an article.".to_string()),
        Value::Atom("[hello, world]".to_string()),
    ])
}

fn run(source: &mut SourceSchema, items: Vec<MetaItem>) -> Result<Vec<Derivation>, Vec<Diagnostic>> {
    match Declaration::from_list(OperationKind::Pick, &items) {
        Ok(declaration) => {
            source.forward_attrs = declaration.forward_attrs;
            derive_all(source, &declaration.args.0)
        }
        Err(d) => Err(vec![d]),
    }
}

fn names(d: &Derivation) -> Vec<String> {
    d.schema.members.iter().map(|m| m.name.clone().unwrap()).collect()
}

#[test]
fn pick() {
    // a target name and two fields
    let mut source = article();
    let derived = run(
        &mut source,
        vec![list(
            "arg",
            vec![
                ident("Meta"),
                list("fields", words(&["title", "author"])),
                list("derive", words(&["Debug", "PartialEq"])),
            ],
        )],
    )
    .unwrap();
    assert_eq!(derived.len(), 1);
    let meta = &derived[0];
    assert_eq!(meta.schema.kind, SchemaKind::Record);
    assert_eq!(meta.schema.name, "Meta");
    assert_eq!(names(meta), vec!["title", "author"]);
    assert_eq!(meta.schema.members[0].ty, TypeExpr::plain("String"));
    assert_eq!(meta.schema.members[1].ty, TypeExpr::plain("String"));
    assert_eq!(
        meta.schema.decorations,
        Some(PathList::of_idents(&vec!["Debug".to_string(), "PartialEq".to_string()]))
    );
    assert_eq!(meta.plans.len(), 1);
    assert_eq!(
        meta.plans[0].to_derived(&article_value()),
        Some(Instance::Record(vec![
            Value::Atom("Hello, world!".to_string()),
            Value::Atom("Alice".to_string()),
        ]))
    );

    // nothing written: nothing derived, and no error
    let mut source = article();
    assert_eq!(run(&mut source, vec![]), Ok(vec![]));

    // two specs on one declaration
    let mut source = article();
    let derived = run(
        &mut source,
        vec![
            list(
                "arg",
                vec![
                    ident("Meta"),
                    list("fields", words(&["title", "author"])),
                    list("derive", words(&["Debug", "PartialEq"])),
                ],
            ),
            list(
                "arg",
                vec![
                    ident("Meta2"),
                    list("fields", words(&["author"])),
                    list("derive", words(&["Debug", "PartialEq"])),
                ],
            ),
        ],
    )
    .unwrap();
    assert_eq!(derived.len(), 2);
    assert_eq!(derived[0].schema.name, "Meta");
    assert_eq!(derived[1].schema.name, "Meta2");
    assert_eq!(
        derived[0].plans[0].to_derived(&article_value()),
        Some(Instance::Record(vec![
            Value::Atom("Hello, world!".to_string()),
            Value::Atom("Alice".to_string()),
        ]))
    );
    assert_eq!(
        derived[1].plans[0].to_derived(&article_value()),
        Some(Instance::Record(vec![Value::Atom("Alice".to_string())]))
    );

    // no target name
    let mut source = article();
    assert_eq!(
        run(
            &mut source,
            vec![list(
                "arg",
                vec![
                    list("fields", words(&["title", "author"])),
                    list("derive", words(&["Debug", "PartialEq"])),
                ],
            )],
        ),
        Err(vec![Diagnostic { location: 0, violation: Violation::MissingTarget }])
    );

    // no selection
    let mut source = article();
    assert_eq!(
        run(
            &mut source,
            vec![list("arg", vec![ident("Meta"), list("derive", words(&["Debug", "PartialEq"]))])],
        ),
        Err(vec![Diagnostic { location: 0, violation: Violation::MissingSelection }])
    );

    // an empty selection
    let mut source = article();
    assert_eq!(
        run(
            &mut source,
            vec![list(
                "arg",
                vec![
                    ident("Meta"),
                    list("fields", vec![]),
                    list("derive", words(&["Debug", "PartialEq"])),
                ],
            )],
        ),
        Err(vec![Diagnostic { location: 0, violation: Violation::TooFewItems }])
    );

    // a selection that holds a longer path
    let mut source = article();
    let foo_bar = MetaItem::Path(MetaPath {
        leading_colon: false,
        segments: vec!["foo".to_string(), "bar".to_string()],
    });
    assert_eq!(
        run(
            &mut source,
            vec![list(
                "arg",
                vec![
                    ident("Meta"),
                    list("fields", vec![foo_bar]),
                    list("derive", words(&["Debug", "PartialEq"])),
                ],
            )],
        ),
        Err(vec![Diagnostic { location: 0, violation: Violation::NonIdent }])
    );

    // a name that no field has
    let mut source = article();
    let derived = run(
        &mut source,
        vec![list(
            "arg",
            vec![
                ident("Meta"),
                list("fields", words(&["foo"])),
                list("derive", words(&["Debug", "PartialEq"])),
            ],
        )],
    )
    .unwrap();
    assert_eq!(derived.len(), 1);
    assert_eq!(derived[0].schema.name, "Meta");
    assert!(derived[0].schema.members.is_empty());
    assert!(derived[0].plans[0].rules.is_empty());

    // a filter on the spec forwards an annotation of the declaration
    let mut source = article();
    source.annotations = vec![
        Annotation::new("derive", "(Pick, Debug)"),
        Annotation::new("serde", "(rename_all = \"UPPERCASE\")"),
    ];
    let derived = run(
        &mut source,
        vec![list(
            "arg",
            vec![
                ident("Meta"),
                list("fields", words(&["title", "author"])),
                list("derive", words(&["Debug", "PartialEq", "Serialize", "Deserialize"])),
                list("forward_attrs", words(&["serde"])),
            ],
        )],
    )
    .unwrap();
    assert_eq!(
        derived[0].schema.annotations,
        vec![Annotation::new("serde", "(rename_all = \"UPPERCASE\")")]
    );
    assert_eq!(names(&derived[0]), vec!["title", "author"]);
}

#[test]
fn pick_keeps_the_order_of_the_source() {
    let spec = OperationSpec::selecting(
        OperationKind::Pick,
        "Reordered",
        IdentList::new(vec!["tags".to_string(), "title".to_string(), "tags".to_string()]),
    );
    let derived = utility_types::pick(&article(), &spec).unwrap();
    assert_eq!(names(&derived), vec!["title", "tags"]);
    assert_eq!(
        derived.plans[0].rules,
        vec![
            MappingRule { source: 0, kind: RuleKind::Identity },
            MappingRule { source: 3, kind: RuleKind::Identity },
        ]
    );
    assert_eq!(derived.plans[0].direction, Direction::SourceToDerived);
    assert_eq!(derived.plans[0].to_source(&Instance::Record(vec![])), None);
}

#[test]
fn pick_refuses_a_tagged_union_and_another_operation() {
    let mut source = article();
    source.kind = SchemaKind::TaggedUnion;
    let spec = OperationSpec::selecting(
        OperationKind::Omit,
        "Meta",
        IdentList::new(vec!["title".to_string()]),
    );
    assert_eq!(
        utility_types::pick(&source, &spec),
        Err(vec![
            Diagnostic { location: 0, violation: Violation::WrongOperation },
            Diagnostic { location: 0, violation: Violation::UnsupportedShape },
        ])
    );
}

#[test]
fn pick_drops_a_field_without_a_name() {
    let source = SourceSchema::new(
        SchemaKind::Record,
        "Pair",
        vec![Member::positional(TypeExpr::plain("u8")), Member::named("b", TypeExpr::plain("u8"))],
    );
    let spec =
        OperationSpec::selecting(OperationKind::Pick, "P", IdentList::new(vec!["b".to_string()]));
    let derived = utility_types::pick(&source, &spec).unwrap();
    assert_eq!(names(&derived), vec!["b"]);
}

#[test]
fn an_article_is_converted_to_its_meta() {
    let spec = OperationSpec::selecting(
        OperationKind::Pick,
        "Meta",
        IdentList::new(vec!["title".to_string(), "author".to_string()]),
    );
    let derived = utility_types::pick(&article(), &spec).unwrap();
    assert_eq!(derived.schema.name, "Meta");
    assert_eq!(names(&derived), vec!["title", "author"]);
    let value = Instance::Record(vec![
        Value::Atom("T".to_string()),
        Value::Atom("A".to_string()),
        Value::Atom("C".to_string()),
        Value::Atom("[...]".to_string()),
    ]);
    assert_eq!(
        derived.plans[0].to_derived(&value),
        Some(Instance::Record(vec![Value::Atom("T".to_string()), Value::Atom("A".to_string())]))
    );
    // a value with too few fields cannot be converted
    assert_eq!(derived.plans[0].to_derived(&Instance::Record(vec![Value::Absent])), None);
}
