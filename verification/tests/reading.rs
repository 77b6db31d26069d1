use utility_types::args::{ArgsList, Declaration, MemberOptions};
use utility_types::meta::{Diagnostic, MetaItem, MetaValue, Violation};
use utility_types::operation::{OperationKind, OperationSpec};
use utility_types::path::{MetaPath, PathList};
use utility_types::types::TypeExpr;
use utility_types::{ForwardAttrsFilter, IdentList};

fn word(name: &str) -> MetaItem {
    MetaItem::Path(MetaPath::from_ident(name))
}

fn list(name: &str, items: Vec<MetaItem>) -> MetaItem {
    MetaItem::List { path: MetaPath::from_ident(name), items }
}

fn value(key: &str, value: MetaValue) -> MetaItem {
    MetaItem::NameValue { path: MetaPath::from_ident(key), value }
}

fn ident(name: &str) -> MetaItem {
    value("ident", MetaValue::Path(MetaPath::from_ident(name)))
}

fn words(names: &[&str]) -> Vec<MetaItem> {
    names.iter().map(|n| word(n)).collect()
}

fn two_segments(a: &str, b: &str) -> MetaPath {
    MetaPath { leading_colon: false, segments: vec![a.to_string(), b.to_string()] }
}

fn finding(location: usize, violation: Violation) -> Diagnostic {
    Diagnostic { location, violation }
}

fn strings(names: &[&str]) -> Vec<String> {
    names.iter().map(|n| n.to_string()).collect()
}

#[test]
fn an_ident_list_is_read_in_order() {
    assert_eq!(
        IdentList::from_list(&words(&["title", "author", "title"])),
        Ok(IdentList::new(strings(&["title", "author", "title"])))
    );
    let list = IdentList::new(strings(&["title", "author"]));
    assert_eq!(list.len(), 2);
    assert!(list.contains(&"author".to_string()));
    assert!(!list.contains(&"Author".to_string()));
    assert!(!IdentList::new(vec![]).contains(&"author".to_string()));
}

#[test]
fn an_ident_list_that_cannot_be_read_is_reported() {
    assert_eq!(IdentList::from_list(&vec![]), Err(finding(0, Violation::TooFewItems)));
    assert_eq!(
        IdentList::from_list(&vec![word("a"), MetaItem::Path(two_segments("foo", "bar")), word("c")]),
        Err(finding(1, Violation::NonIdent))
    );
    assert_eq!(
        IdentList::from_list(&vec![
            word("a"),
            word("b"),
            MetaItem::Lit("\"title\"".to_string()),
            MetaItem::Path(two_segments("foo", "bar")),
        ]),
        Err(finding(2, Violation::NonPath))
    );
    assert_eq!(
        IdentList::from_list(&vec![list("a", vec![])]),
        Err(finding(0, Violation::NonPath))
    );
    let rooted = MetaPath { leading_colon: true, segments: strings(&["a"]) };
    assert_eq!(IdentList::from_list(&vec![MetaItem::Path(rooted)]), Err(finding(0, Violation::NonIdent)));
}

#[test]
fn a_path_list_is_read_in_order() {
    assert_eq!(PathList::from_list(&vec![]), Ok(PathList::new(vec![])));
    assert_eq!(
        PathList::from_list(&vec![word("Debug"), MetaItem::Path(two_segments("serde", "Serialize"))]),
        Ok(PathList::new(vec![MetaPath::from_ident("Debug"), two_segments("serde", "Serialize")]))
    );
    assert_eq!(
        PathList::from_list(&vec![word("Debug"), value("Clone", MetaValue::Other("false".to_string()))]),
        Err(finding(1, Violation::NonWord))
    );
    let list = PathList::of_idents(&strings(&["Debug", "Clone"]));
    assert_eq!(list.len(), 2);
    assert!(list.contains(&MetaPath::from_ident("Clone")));
    assert!(!list.contains(&two_segments("Clone", "Clone")));
}

#[test]
fn a_path_is_written_with_its_separators() {
    assert_eq!(MetaPath::from_ident("serde").text(), "serde");
    assert_eq!(two_segments("serde", "Serialize").text(), "serde::Serialize");
    assert_eq!(
        MetaPath { leading_colon: true, segments: strings(&["a", "b", "c"]) }.text(),
        "::a::b::c"
    );
    assert_eq!(MetaPath { leading_colon: false, segments: vec![] }.text(), "");
    assert_eq!(MetaPath::from_ident("serde").get_ident(), Some(&"serde".to_string()));
    assert_eq!(two_segments("a", "b").get_ident(), None);
    assert!(MetaPath::from_ident("not").is_ident("not"));
    assert!(!MetaPath::from_ident("not").is_ident("no"));
    assert!(!two_segments("not", "not").is_ident("not"));
}

#[test]
fn a_spec_is_read_from_its_arguments() {
    let spec = OperationSpec::from_list(
        OperationKind::Pick,
        &vec![
            list("derive", words(&["Debug"])),
            list("forward_attrs", vec![list("not", words(&["doc"]))]),
            list("fields", words(&["title", "author"])),
            value("ident", MetaValue::Str("Meta".to_string())),
        ],
    )
    .unwrap();
    assert_eq!(
        spec,
        OperationSpec {
            kind: OperationKind::Pick,
            ident: Some("Meta".to_string()),
            selection: Some(IdentList::new(strings(&["title", "author"]))),
            derive: Some(PathList::of_idents(&strings(&["Debug"]))),
            forward_attrs: ForwardAttrsFilter::Deny(PathList::of_idents(&strings(&["doc"]))),
        }
    );
    assert_eq!(
        OperationSpec::from_list(OperationKind::Extract, &vec![]),
        Ok(OperationSpec {
            kind: OperationKind::Extract,
            ident: None,
            selection: None,
            derive: None,
            forward_attrs: ForwardAttrsFilter::All,
        })
    );
    assert_eq!(
        OperationSpec::from_list(
            OperationKind::Exclude,
            &vec![ident("T"), list("variants", words(&["A"]))]
        ),
        Ok(OperationSpec::selecting(OperationKind::Exclude, "T", IdentList::new(strings(&["A"]))))
    );
}

#[test]
fn the_selection_key_goes_by_the_operation() {
    let fields = vec![ident("T"), list("fields", words(&["a"]))];
    let variants = vec![ident("T"), list("variants", words(&["a"]))];
    for kind in [OperationKind::Pick, OperationKind::Omit] {
        assert!(OperationSpec::from_list(kind, &fields).is_ok());
        assert_eq!(
            OperationSpec::from_list(kind, &variants),
            Err(finding(1, Violation::UnknownKey))
        );
    }
    for kind in [OperationKind::Extract, OperationKind::Exclude] {
        assert!(OperationSpec::from_list(kind, &variants).is_ok());
        assert_eq!(OperationSpec::from_list(kind, &fields), Err(finding(1, Violation::UnknownKey)));
    }
    for kind in [OperationKind::Partial, OperationKind::Required] {
        assert_eq!(OperationSpec::from_list(kind, &fields), Err(finding(1, Violation::UnknownKey)));
        assert_eq!(
            OperationSpec::from_list(kind, &variants),
            Err(finding(1, Violation::UnknownKey))
        );
    }
    assert!(OperationKind::Pick.is_selection_key(&MetaPath::from_ident("fields")));
    assert!(!OperationKind::Pick.is_selection_key(&MetaPath::from_ident("variants")));
    assert!(OperationKind::Exclude.is_selection_key(&MetaPath::from_ident("variants")));
    assert!(!OperationKind::Partial.is_selection_key(&MetaPath::from_ident("fields")));
}

#[test]
fn an_argument_that_cannot_be_read_is_reported_at_its_position() {
    let read = |items: Vec<MetaItem>| OperationSpec::from_list(OperationKind::Pick, &items);
    assert_eq!(
        read(vec![ident("T"), MetaItem::Lit("1".to_string())]),
        Err(finding(1, Violation::NonMeta))
    );
    assert_eq!(read(vec![word("colour")]), Err(finding(0, Violation::UnknownKey)));
    assert_eq!(
        read(vec![MetaItem::Path(two_segments("ident", "ident"))]),
        Err(finding(0, Violation::UnknownKey))
    );
    assert_eq!(read(vec![ident("T"), ident("U")]), Err(finding(1, Violation::DuplicateKey)));
    assert_eq!(
        read(vec![list("fields", words(&["a"])), list("fields", words(&["b"]))]),
        Err(finding(1, Violation::DuplicateKey))
    );
    assert_eq!(
        read(vec![list("derive", vec![]), list("derive", vec![])]),
        Err(finding(1, Violation::DuplicateKey))
    );
    assert_eq!(
        read(vec![list("forward_attrs", vec![]), ident("T"), list("forward_attrs", vec![])]),
        Err(finding(2, Violation::DuplicateKey))
    );
    assert_eq!(read(vec![word("ident")]), Err(finding(0, Violation::UnexpectedFormat)));
    assert_eq!(
        read(vec![list("ident", words(&["T"]))]),
        Err(finding(0, Violation::UnexpectedFormat))
    );
    assert_eq!(read(vec![word("fields")]), Err(finding(0, Violation::UnexpectedFormat)));
    assert_eq!(
        read(vec![value("derive", MetaValue::Other("1".to_string()))]),
        Err(finding(0, Violation::UnexpectedFormat))
    );
    assert_eq!(read(vec![word("forward_attrs")]), Err(finding(0, Violation::UnexpectedFormat)));
    assert_eq!(
        read(vec![value("ident", MetaValue::Other("1 + 1".to_string()))]),
        Err(finding(0, Violation::UnexpectedValue))
    );
    assert_eq!(
        read(vec![value("ident", MetaValue::Path(two_segments("a", "b")))]),
        Err(finding(0, Violation::UnexpectedValue))
    );
    assert_eq!(
        read(vec![ident("T"), list("fields", vec![MetaItem::Lit("1".to_string())])]),
        Err(finding(1, Violation::NonPath))
    );
    assert_eq!(
        read(vec![ident("T"), list("derive", vec![list("x", vec![])])]),
        Err(finding(1, Violation::NonWord))
    );
    assert_eq!(
        read(vec![ident("T"), list("forward_attrs", vec![list("only", vec![])])]),
        Err(finding(1, Violation::ExpectedNot))
    );
    assert_eq!(
        read(vec![list("forward_attrs", vec![MetaItem::Lit("1".to_string())])]),
        Err(finding(0, Violation::NonPathOrList))
    );
    // the first finding is the one that is reported
    assert_eq!(
        read(vec![word("colour"), MetaItem::Lit("1".to_string())]),
        Err(finding(0, Violation::UnknownKey))
    );
}

#[test]
fn one_spec_is_read_from_each_item() {
    let items = vec![
        list("arg", vec![ident("Meta"), list("fields", words(&["title"]))]),
        list("anything", vec![ident("Meta2")]),
    ];
    let read = ArgsList::from_list(OperationKind::Pick, &items).unwrap();
    assert_eq!(read.0.len(), 2);
    assert_eq!(
        read.0[0],
        OperationSpec::selecting(OperationKind::Pick, "Meta", IdentList::new(strings(&["title"])))
    );
    assert_eq!(read.0[1], OperationSpec::new(OperationKind::Pick, "Meta2"));
    assert_eq!(ArgsList::from_list(OperationKind::Pick, &vec![]), Ok(ArgsList(vec![])));
    assert_eq!(
        OperationSpec::from_meta(OperationKind::Pick, &items[1]),
        Ok(OperationSpec::new(OperationKind::Pick, "Meta2"))
    );
}

#[test]
fn an_item_that_is_no_spec_is_reported_at_its_position() {
    let good = list("arg", vec![ident("Meta")]);
    let read = |items: Vec<MetaItem>| ArgsList::from_list(OperationKind::Omit, &items);
    assert_eq!(
        read(vec![list("arg", vec![ident("Meta")]), MetaItem::Lit("\"x\"".to_string())]),
        Err(finding(1, Violation::NonMeta))
    );
    assert_eq!(read(vec![word("arg")]), Err(finding(0, Violation::UnexpectedFormat)));
    assert_eq!(
        read(vec![good, value("arg", MetaValue::Str("x".to_string()))]),
        Err(finding(1, Violation::UnexpectedFormat))
    );
    assert_eq!(
        read(vec![
            list("arg", vec![ident("A")]),
            list("arg", vec![ident("B")]),
            list("arg", vec![ident("C"), word("colour")]),
        ]),
        Err(finding(2, Violation::UnknownKey))
    );
    assert_eq!(
        OperationSpec::from_meta(OperationKind::Omit, &MetaItem::Lit("1".to_string())),
        Err(Violation::NonMeta)
    );
    assert_eq!(
        OperationSpec::from_meta(OperationKind::Omit, &word("arg")),
        Err(Violation::UnexpectedFormat)
    );
    assert_eq!(
        OperationSpec::from_meta(OperationKind::Omit, &list("arg", vec![word("colour")])),
        Err(Violation::UnknownKey)
    );
}

#[test]
fn a_declaration_is_read_with_its_filter_and_its_specs() {
    let declaration = Declaration::from_list(
        OperationKind::Extract,
        &vec![
            list("arg", vec![ident("A"), list("variants", words(&["X"]))]),
            list("forward_attrs", words(&["serde"])),
            list("arg", vec![ident("B"), list("variants", words(&["Y"]))]),
        ],
    )
    .unwrap();
    assert_eq!(
        declaration.forward_attrs,
        ForwardAttrsFilter::Allow(PathList::of_idents(&strings(&["serde"])))
    );
    assert_eq!(declaration.args.0.len(), 2);
    assert_eq!(declaration.args.0[1].ident, Some("B".to_string()));

    let nothing = Declaration::from_list(OperationKind::Extract, &vec![]).unwrap();
    assert_eq!(nothing.forward_attrs, ForwardAttrsFilter::All);
    assert_eq!(nothing.args, ArgsList(vec![]));

    let partial = Declaration::from_list(
        OperationKind::Partial,
        &vec![ident("PartialA"), list("forward_attrs", words(&["serde"]))],
    )
    .unwrap();
    assert_eq!(partial.forward_attrs, ForwardAttrsFilter::All);
    assert_eq!(partial.args.0.len(), 1);
    assert_eq!(
        partial.args.0[0].forward_attrs,
        ForwardAttrsFilter::Allow(PathList::of_idents(&strings(&["serde"])))
    );
}

#[test]
fn a_declaration_that_cannot_be_read_is_reported() {
    let read = |kind, items: Vec<MetaItem>| Declaration::from_list(kind, &items);
    assert_eq!(
        read(
            OperationKind::Pick,
            vec![list("forward_attrs", vec![]), list("forward_attrs", vec![])]
        ),
        Err(finding(1, Violation::DuplicateKey))
    );
    assert_eq!(
        read(OperationKind::Pick, vec![word("forward_attrs")]),
        Err(finding(0, Violation::UnexpectedFormat))
    );
    assert_eq!(
        read(OperationKind::Pick, vec![list("forward_attrs", vec![list("only", vec![])])]),
        Err(finding(0, Violation::ExpectedNot))
    );
    assert_eq!(
        read(OperationKind::Pick, vec![MetaItem::Lit("1".to_string())]),
        Err(finding(0, Violation::NonMeta))
    );
    assert_eq!(
        read(OperationKind::Pick, vec![list("arg", vec![word("colour")])]),
        Err(finding(0, Violation::UnknownKey))
    );
    assert_eq!(
        read(OperationKind::Required, vec![ident("R"), list("fields", words(&["a"]))]),
        Err(finding(1, Violation::UnknownKey))
    );
}

#[test]
fn what_is_written_on_a_member_is_read() {
    let read = |kind, items: Vec<MetaItem>| MemberOptions::from_list(kind, &items);
    assert_eq!(
        read(OperationKind::Pick, vec![]),
        Ok(MemberOptions { forward_attrs: ForwardAttrsFilter::All, default: None })
    );
    assert_eq!(
        read(
            OperationKind::Partial,
            vec![
                value("default", MetaValue::Str("String::new()".to_string())),
                list("forward_attrs", words(&["serde"])),
            ]
        ),
        Ok(MemberOptions {
            forward_attrs: ForwardAttrsFilter::Allow(PathList::of_idents(&strings(&["serde"]))),
            default: Some("String::new()".to_string()),
        })
    );
    assert_eq!(
        read(
            OperationKind::Partial,
            vec![value("default", MetaValue::Path(two_segments("usize", "MAX")))]
        )
        .unwrap()
        .default,
        Some("usize::MAX".to_string())
    );
    // a default is known to Partial alone
    assert_eq!(
        read(OperationKind::Required, vec![value("default", MetaValue::Other("1".to_string()))]),
        Err(finding(0, Violation::UnknownKey))
    );
    assert_eq!(
        read(OperationKind::Partial, vec![word("default")]),
        Err(finding(0, Violation::UnexpectedFormat))
    );
    assert_eq!(
        read(OperationKind::Partial, vec![list("default", vec![])]),
        Err(finding(0, Violation::UnexpectedFormat))
    );
    assert_eq!(
        read(
            OperationKind::Partial,
            vec![
                value("default", MetaValue::Other("1".to_string())),
                value("default", MetaValue::Other("2".to_string())),
            ]
        ),
        Err(finding(1, Violation::DuplicateKey))
    );
    assert_eq!(
        read(
            OperationKind::Omit,
            vec![list("forward_attrs", vec![]), value("forward_attrs", MetaValue::Other("1".to_string()))]
        ),
        Err(finding(1, Violation::DuplicateKey))
    );
    assert_eq!(
        read(OperationKind::Omit, vec![value("forward_attrs", MetaValue::Other("1".to_string()))]),
        Err(finding(0, Violation::UnexpectedFormat))
    );
    assert_eq!(
        read(OperationKind::Omit, vec![list("forward_attrs", vec![list("only", vec![])])]),
        Err(finding(0, Violation::ExpectedNot))
    );
    assert_eq!(
        read(OperationKind::Omit, vec![MetaItem::Lit("1".to_string())]),
        Err(finding(0, Violation::NonMeta))
    );
    assert_eq!(
        read(OperationKind::Omit, vec![list("colour", vec![])]),
        Err(finding(0, Violation::UnknownKey))
    );
}

#[test]
fn an_optional_type_is_known_by_its_path() {
    let generic = |path: &[&str], inner: TypeExpr| TypeExpr::Generic {
        leading_colon: false,
        segments: strings(path),
        first: Box::new(inner),
        rest: vec![],
    };
    let inner = TypeExpr::plain("u8");
    let option = TypeExpr::plain("u8").wrap_optional();
    assert_eq!(option, generic(&["Option"], TypeExpr::plain("u8")));
    assert!(option.is_optional());
    assert_eq!(option.optional_inner(), Some(&inner));
    assert_eq!(*option.required(), inner);
    assert_eq!(*option.wrap_optional().required(), option);
    assert!(!inner.is_optional());
    assert_eq!(inner.optional_inner(), None);
    assert_eq!(*inner.required(), inner);
    assert!(generic(&["std", "option", "Option"], TypeExpr::plain("u8")).is_optional());
    assert!(generic(&["core", "option", "Option"], TypeExpr::plain("u8")).is_optional());
    assert!(!generic(&["std", "Option"], TypeExpr::plain("u8")).is_optional());
    assert!(!generic(&["option", "Option"], TypeExpr::plain("u8")).is_optional());
    assert!(!generic(&["alloc", "option", "Option"], TypeExpr::plain("u8")).is_optional());
    assert!(!generic(&["std", "option", "Option", "Option"], TypeExpr::plain("u8")).is_optional());
    assert!(!generic(&[], TypeExpr::plain("u8")).is_optional());
    assert!(!generic(&["option"], TypeExpr::plain("u8")).is_optional());
    assert!(!TypeExpr::plain("Option<u8>").is_optional());
    // a leading `::` and further arguments make no difference
    let rooted = TypeExpr::Generic {
        leading_colon: true,
        segments: strings(&["std", "option", "Option"]),
        first: Box::new(TypeExpr::plain("u8")),
        rest: strings(&["A"]),
    };
    assert_eq!(*rooted.required(), inner);
    assert_eq!(option.clone(), option);
}
