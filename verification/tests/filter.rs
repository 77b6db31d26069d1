use utility_types::filter::{default_forward_attrs, resolve_forward_attrs};
use utility_types::meta::{Diagnostic, MetaItem, MetaValue, Violation};
use utility_types::operation::{OperationKind, OperationSpec};
use utility_types::path::{IdentList, MetaPath, PathList};
use utility_types::schema::{Annotation, Member, SchemaKind, SourceSchema};
use utility_types::types::TypeExpr;
use utility_types::{filter_forward_attrs, ForwardAttrsFilter};

fn word(name: &str) -> MetaItem {
    MetaItem::Path(MetaPath::from_ident(name))
}

fn list(name: &str, items: Vec<MetaItem>) -> MetaItem {
    MetaItem::List { path: MetaPath::from_ident(name), items }
}

fn allow(names: &[&str]) -> ForwardAttrsFilter {
    ForwardAttrsFilter::Allow(PathList::of_idents(&names.iter().map(|n| n.to_string()).collect()))
}

fn deny(names: &[&str]) -> ForwardAttrsFilter {
    ForwardAttrsFilter::Deny(PathList::of_idents(&names.iter().map(|n| n.to_string()).collect()))
}

fn annotations(names: &[&str]) -> Vec<Annotation> {
    names.iter().map(|n| Annotation::new(n, "")).collect()
}

#[test]
fn compose_lets_the_narrower_scope_win() {
    assert_eq!(*allow(&["a"]).compose(&allow(&["a", "b"])), allow(&["a"]));
    assert_eq!(*deny(&["a"]).compose(&allow(&["a", "b"])), deny(&["a"]));
    assert_eq!(*allow(&[]).compose(&allow(&["a", "b"])), allow(&[]));
}

#[test]
fn compose_falls_back_to_the_wider_scope() {
    assert_eq!(*ForwardAttrsFilter::All.compose(&allow(&["a", "b"])), allow(&["a", "b"]));
    assert_eq!(*ForwardAttrsFilter::All.compose(&ForwardAttrsFilter::All), ForwardAttrsFilter::All);
    assert_eq!(*allow(&["a"]).compose(&ForwardAttrsFilter::All), allow(&["a"]));
}

#[test]
fn compose_can_be_grouped_either_way() {
    let filters = [ForwardAttrsFilter::All, allow(&["a"]), deny(&["b"])];
    for a in &filters {
        for b in &filters {
            for c in &filters {
                assert_eq!(a.compose(b).compose(c), a.compose(b.compose(c)));
            }
        }
    }
}

#[test]
fn admits_by_kind_of_filter() {
    let serde = MetaPath::from_ident("serde");
    let doc = MetaPath::from_ident("doc");
    assert!(ForwardAttrsFilter::All.admits(&serde));
    assert!(allow(&["serde"]).admits(&serde));
    assert!(!allow(&["serde"]).admits(&doc));
    assert!(!deny(&["serde"]).admits(&serde));
    assert!(deny(&["serde"]).admits(&doc));
    assert!(!allow(&[]).admits(&doc));
    assert!(deny(&[]).admits(&doc));
}

#[test]
fn admits_tells_a_leading_colon_and_longer_paths_apart() {
    let plain = MetaPath::from_ident("serde");
    let rooted = MetaPath { leading_colon: true, segments: vec!["serde".to_string()] };
    let longer =
        MetaPath { leading_colon: false, segments: vec!["serde".to_string(), "x".to_string()] };
    let filter = ForwardAttrsFilter::Allow(PathList::new(vec![longer.clone()]));
    assert!(filter.admits(&longer));
    assert!(!filter.admits(&plain));
    assert!(!allow(&["serde"]).admits(&rooted));
    assert!(plain.same(&MetaPath::from_ident("serde")));
    assert!(!plain.same(&rooted));
    assert!(!plain.same(&longer));
}

#[test]
fn the_standard_filter_allows_allow_doc_and_cfg() {
    let standard = default_forward_attrs();
    assert_eq!(standard, allow(&["allow", "doc", "cfg"]));
    assert_eq!(ForwardAttrsFilter::default(), ForwardAttrsFilter::All);
    let kept =
        filter_forward_attrs(&annotations(&["doc", "serde", "cfg", "derive", "allow"]), &standard);
    assert_eq!(kept, annotations(&["doc", "cfg", "allow"]));
}

#[test]
fn resolve_takes_the_narrowest_scope_that_says_anything() {
    let all = ForwardAttrsFilter::All;
    assert_eq!(resolve_forward_attrs(&all, &all, &all), default_forward_attrs());
    assert_eq!(resolve_forward_attrs(&all, &all, &allow(&["d"])), allow(&["d"]));
    assert_eq!(resolve_forward_attrs(&all, &allow(&["o"]), &allow(&["d"])), allow(&["o"]));
    assert_eq!(resolve_forward_attrs(&deny(&["m"]), &allow(&["o"]), &allow(&["d"])), deny(&["m"]));
    assert_eq!(resolve_forward_attrs(&deny(&["m"]), &all, &all), deny(&["m"]));
}

#[test]
fn filter_forward_attrs_keeps_the_order_and_every_repetition() {
    let attrs = annotations(&["b", "a", "c", "a"]);
    assert_eq!(filter_forward_attrs(&attrs, &ForwardAttrsFilter::All), attrs);
    assert_eq!(filter_forward_attrs(&attrs, &allow(&["a", "c"])), annotations(&["a", "c", "a"]));
    assert_eq!(filter_forward_attrs(&attrs, &deny(&["a"])), annotations(&["b", "c"]));
    assert_eq!(filter_forward_attrs(&attrs, &allow(&[])), annotations(&[]));
    assert_eq!(filter_forward_attrs(&vec![], &deny(&["a"])), annotations(&[]));
}

#[test]
fn a_filter_is_read_from_its_items() {
    assert_eq!(ForwardAttrsFilter::from_list(&vec![word("*")]), Ok(ForwardAttrsFilter::All));
    assert_eq!(ForwardAttrsFilter::from_list(&vec![word("serde")]), Ok(allow(&["serde"])));
    assert_eq!(
        ForwardAttrsFilter::from_list(&vec![word("serde"), word("doc")]),
        Ok(allow(&["serde", "doc"]))
    );
    assert_eq!(ForwardAttrsFilter::from_list(&vec![]), Ok(allow(&[])));
    assert_eq!(
        ForwardAttrsFilter::from_list(&vec![list("not", vec![word("serde"), word("doc")])]),
        Ok(deny(&["serde", "doc"]))
    );
    assert_eq!(ForwardAttrsFilter::from_list(&vec![list("not", vec![])]), Ok(deny(&[])));
    // `*` among others is an ordinary path
    assert_eq!(
        ForwardAttrsFilter::from_list(&vec![word("*"), word("doc")]),
        Ok(allow(&["*", "doc"]))
    );
}

#[test]
fn a_filter_that_cannot_be_read_is_reported() {
    assert_eq!(
        ForwardAttrsFilter::from_list(&vec![list("only", vec![word("serde")])]),
        Err(Diagnostic { location: 0, violation: Violation::ExpectedNot })
    );
    assert_eq!(
        ForwardAttrsFilter::from_list(&vec![MetaItem::Lit("\"serde\"".to_string())]),
        Err(Diagnostic { location: 0, violation: Violation::NonPathOrList })
    );
    assert_eq!(
        ForwardAttrsFilter::from_list(&vec![MetaItem::NameValue {
            path: MetaPath::from_ident("serde"),
            value: MetaValue::Other("1".to_string()),
        }]),
        Err(Diagnostic { location: 0, violation: Violation::NonPathOrList })
    );
    assert_eq!(
        ForwardAttrsFilter::from_list(&vec![list(
            "not",
            vec![word("serde"), MetaItem::Lit("1".to_string())]
        )]),
        Err(Diagnostic { location: 0, violation: Violation::NonWord })
    );
    assert_eq!(
        ForwardAttrsFilter::from_list(&vec![
            word("serde"),
            word("doc"),
            list("not", vec![word("cfg")])
        ]),
        Err(Diagnostic { location: 2, violation: Violation::NonWord })
    );
}

#[test]
fn the_filter_of_a_member_wins_over_that_of_the_spec_and_of_the_declaration() {
    let mut title = Member::named("title", TypeExpr::plain("String"));
    title.annotations = annotations(&["doc", "serde", "validate"]);
    title.forward_attrs = allow(&["validate"]);
    let mut author = Member::named("author", TypeExpr::plain("String"));
    author.annotations = annotations(&["doc", "serde", "validate"]);
    let mut source = SourceSchema::new(SchemaKind::Record, "Article", vec![title, author]);
    source.annotations = annotations(&["doc", "serde", "validate"]);
    source.forward_attrs = deny(&["doc"]);

    // nothing said on the spec: the declaration's filter holds for what has none of its own
    let spec = OperationSpec::selecting(
        OperationKind::Pick,
        "Meta",
        IdentList::new(vec!["title".to_string(), "author".to_string()]),
    );
    let derived = utility_types::pick(&source, &spec).unwrap();
    assert_eq!(derived.schema.annotations, annotations(&["serde", "validate"]));
    assert_eq!(derived.schema.members[0].annotations, annotations(&["validate"]));
    assert_eq!(derived.schema.members[1].annotations, annotations(&["serde", "validate"]));

    // a filter on the spec wins over that of the declaration
    let mut spec = spec;
    spec.forward_attrs = allow(&["serde"]);
    let derived = utility_types::pick(&source, &spec).unwrap();
    assert_eq!(derived.schema.annotations, annotations(&["serde"]));
    assert_eq!(derived.schema.members[0].annotations, annotations(&["validate"]));
    assert_eq!(derived.schema.members[1].annotations, annotations(&["serde"]));

    // nothing said anywhere: the standard filter
    source.forward_attrs = ForwardAttrsFilter::All;
    source.members[0].forward_attrs = ForwardAttrsFilter::All;
    spec.forward_attrs = ForwardAttrsFilter::All;
    let derived = utility_types::pick(&source, &spec).unwrap();
    assert_eq!(derived.schema.annotations, annotations(&["doc"]));
    assert_eq!(derived.schema.members[0].annotations, annotations(&["doc"]));
}
