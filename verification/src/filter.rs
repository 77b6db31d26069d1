//! Forwarding filters: which annotations of a source go over to what is
//! derived from it.

use crate::meta::{
    all_paths, first_non_path, paths_of, paths_read, Diagnostic, MetaItem, Violation,
};
use crate::path::{MetaPath, PathList, PathModel};
use crate::schema::{annotations_view, Annotation, AnnotationModel};
use vstd::prelude::*;

verus! {

/// A policy that says which annotations are forwarded.
#[derive(Debug, PartialEq, Eq)]
pub enum ForwardAttrsFilter {
    /// Every annotation. In a composition it stands for "nothing said here".
    All,
    /// Only the annotations with one of these paths.
    Allow(PathList),
    /// Every annotation but those with one of these paths.
    Deny(PathList),
}

/// What a [`ForwardAttrsFilter`] stands for in contracts.
pub enum FilterModel {
    All,
    Allow(Seq<PathModel>),
    Deny(Seq<PathModel>),
}

impl View for ForwardAttrsFilter {
    type V = FilterModel;

    open spec fn view(&self) -> FilterModel {
        match self {
            ForwardAttrsFilter::All => FilterModel::All,
            ForwardAttrsFilter::Allow(list) => FilterModel::Allow(list@),
            ForwardAttrsFilter::Deny(list) => FilterModel::Deny(list@),
        }
    }
}

impl FilterModel {
    /// Whether the filter lets an annotation with this path through.
    pub open spec fn admits(self, path: PathModel) -> bool {
        match self {
            FilterModel::All => true,
            FilterModel::Allow(paths) => paths.contains(path),
            FilterModel::Deny(paths) => !paths.contains(path),
        }
    }

    /// The filter of a narrower scope laid over that of a wider one: the
    /// narrower one wherever it says anything, else the wider one.
    pub open spec fn compose(self, outer: FilterModel) -> FilterModel {
        if self is All {
            outer
        } else {
            self
        }
    }

    /// The filter that holds where no scope says anything: `allow`, `doc` and
    /// `cfg` are forwarded and nothing else.
    pub open spec fn standard() -> FilterModel {
        FilterModel::Allow(
            seq![
                PathModel::of_ident("allow"@),
                PathModel::of_ident("doc"@),
                PathModel::of_ident("cfg"@),
            ],
        )
    }

    /// The filter in force for something in three nested scopes: that of the
    /// member, else that of the operation, else that of the declaration, else
    /// the standard one.
    pub open spec fn resolve(
        member: FilterModel,
        operation: FilterModel,
        declaration: FilterModel,
    ) -> FilterModel {
        member.compose(operation.compose(declaration.compose(Self::standard())))
    }

    /// The annotations that the filter lets through, in their order.
    pub open spec fn forwarded(self, annotations: Seq<AnnotationModel>) -> Seq<AnnotationModel> {
        annotations.filter(|a: AnnotationModel| self.admits(a.path))
    }
}

impl Clone for ForwardAttrsFilter {
    fn clone(&self) -> (r: Self)
        ensures
            r@ == self@,
    {
        match self {
            ForwardAttrsFilter::All => ForwardAttrsFilter::All,
            ForwardAttrsFilter::Allow(list) => ForwardAttrsFilter::Allow(list.clone()),
            ForwardAttrsFilter::Deny(list) => ForwardAttrsFilter::Deny(list.clone()),
        }
    }
}

impl Default for ForwardAttrsFilter {
    fn default() -> (r: Self)
        ensures
            r@ == FilterModel::All,
    {
        ForwardAttrsFilter::All
    }
}

/// What the items of `forward_attrs(..)` read as: a filter, or what is wrong
/// with them.
pub open spec fn filter_read(items: Seq<MetaItem>) -> Result<FilterModel, Violation> {
    if items.len() == 1 && !(items[0] is Path) {
        match items[0] {
            MetaItem::List { path, items: nested } => if path@.ident() == Some("not"@) {
                match paths_read(nested@) {
                    Ok(paths) => Ok(FilterModel::Deny(paths)),
                    Err(v) => Err(v),
                }
            } else {
                Err(Violation::ExpectedNot)
            },
            _ => Err(Violation::NonPathOrList),
        }
    } else if items.len() == 1 && items[0].as_ident() == Some("*"@) {
        Ok(FilterModel::All)
    } else {
        match paths_read(items) {
            Ok(paths) => Ok(FilterModel::Allow(paths)),
            Err(v) => Err(v),
        }
    }
}

impl ForwardAttrsFilter {
    /// This filter laid over the filter of a wider scope: this one, unless it
    /// is `All`, in which case the wider one.
    pub fn compose<'a>(&'a self, outer: &'a ForwardAttrsFilter) -> (r: &'a ForwardAttrsFilter)
        ensures
            r@ == self@.compose(outer@),
            *r == (if *self is All {
                *outer
            } else {
                *self
            }),
    {
        match self {
            ForwardAttrsFilter::All => outer,
            _ => self,
        }
    }

    /// Whether the filter lets an annotation with this path through.
    pub fn admits(&self, path: &MetaPath) -> (r: bool)
        ensures
            r == self@.admits(path@),
    {
        match self {
            ForwardAttrsFilter::All => true,
            ForwardAttrsFilter::Allow(allowed) => allowed.contains(path),
            ForwardAttrsFilter::Deny(denied) => !denied.contains(path),
        }
    }

    /// Reads a filter from the items of `forward_attrs(..)`.
    ///
    /// A single `*` is `All`. A single `not(..)` denies the paths in its
    /// brackets. Any other single list, and a single item that is neither a
    /// path nor a list, is refused. Everything else is a list of paths to
    /// allow, which may be empty. A finding inside `not(..)` is reported at
    /// the position of the `not(..)` itself.
    pub fn from_list(items: &Vec<MetaItem>) -> (r: Result<ForwardAttrsFilter, Diagnostic>)
        ensures
            if items@.len() == 1 && !(items@[0] is Path) {
                match items@[0] {
                    MetaItem::List { path, items: nested } => if path@.ident() == Some("not"@) {
                        match r {
                            Ok(f) => all_paths(nested@) && f@ == FilterModel::Deny(
                                paths_of(nested@),
                            ),
                            Err(d) => !all_paths(nested@) && d == (Diagnostic {
                                location: 0,
                                violation: Violation::NonWord,
                            }),
                        }
                    } else {
                        r == Err::<ForwardAttrsFilter, Diagnostic>(
                            Diagnostic { location: 0, violation: Violation::ExpectedNot },
                        )
                    },
                    _ => r == Err::<ForwardAttrsFilter, Diagnostic>(
                        Diagnostic { location: 0, violation: Violation::NonPathOrList },
                    ),
                }
            } else if items@.len() == 1 && items@[0].as_ident() == Some("*"@) {
                r matches Ok(f) && f@ == FilterModel::All
            } else {
                match r {
                    Ok(f) => all_paths(items@) && f@ == FilterModel::Allow(paths_of(items@)),
                    Err(d) => first_non_path(items@, d.location as int) && d.violation
                        == Violation::NonWord,
                }
            },
            match r {
                Ok(f) => filter_read(items@) == Ok::<FilterModel, Violation>(f@),
                Err(d) => filter_read(items@) == Err::<FilterModel, Violation>(d.violation),
            },
    {
        if items.len() == 1 {
            match &items[0] {
                MetaItem::Path(path) => {
                    if path.is_ident("*") {
                        return Ok(ForwardAttrsFilter::All);
                    }
                },
                MetaItem::List { path, items: nested } => {
                    if path.is_ident("not") {
                        return match PathList::from_list(nested) {
                            Ok(list) => Ok(ForwardAttrsFilter::Deny(list)),
                            Err(_) => Err(Diagnostic::new(0, Violation::NonWord)),
                        };
                    } else {
                        return Err(Diagnostic::new(0, Violation::ExpectedNot));
                    }
                },
                _ => {
                    return Err(Diagnostic::new(0, Violation::NonPathOrList));
                },
            }
        }
        match PathList::from_list(items) {
            Ok(list) => Ok(ForwardAttrsFilter::Allow(list)),
            Err(d) => Err(d),
        }
    }
}

/// The filter that holds where no scope says anything.
pub fn default_forward_attrs() -> (r: ForwardAttrsFilter)
    ensures
        r@ == FilterModel::standard(),
{
    let mut paths: Vec<MetaPath> = Vec::new();
    paths.push(MetaPath::from_ident("allow"));
    paths.push(MetaPath::from_ident("doc"));
    paths.push(MetaPath::from_ident("cfg"));
    let list = PathList::new(paths);
    assert(list@ =~= seq![
        PathModel::of_ident("allow"@),
        PathModel::of_ident("doc"@),
        PathModel::of_ident("cfg"@),
    ]);
    ForwardAttrsFilter::Allow(list)
}

/// The filter in force for something in three nested scopes, the narrowest first.
pub fn resolve_forward_attrs(
    member: &ForwardAttrsFilter,
    operation: &ForwardAttrsFilter,
    declaration: &ForwardAttrsFilter,
) -> (r: ForwardAttrsFilter)
    ensures
        r@ == FilterModel::resolve(member@, operation@, declaration@),
{
    let standard = default_forward_attrs();
    member.compose(operation.compose(declaration.compose(&standard))).clone()
}

/// The annotations among `attrs` that `filter` lets through, in their order.
pub fn filter_forward_attrs(attrs: &Vec<Annotation>, filter: &ForwardAttrsFilter) -> (r: Vec<
    Annotation,
>)
    ensures
        annotations_view(r@) == filter@.forwarded(annotations_view(attrs@)),
{
    let ghost pred = |a: AnnotationModel| filter@.admits(a.path);
    let ghost all = annotations_view(attrs@);
    let mut out: Vec<Annotation> = Vec::new();
    let mut i: usize = 0;
    assert(all.take(0) =~= Seq::<AnnotationModel>::empty());
    assert(annotations_view(out@) =~= Seq::<AnnotationModel>::empty());
    proof {
        reveal(Seq::filter);
    }
    while i < attrs.len()
        invariant
            0 <= i <= attrs.len(),
            all == annotations_view(attrs@),
            pred == (|a: AnnotationModel| filter@.admits(a.path)),
            annotations_view(out@) == all.take(i as int).filter(pred),
        decreases attrs.len() - i,
    {
        let ghost before = annotations_view(out@);
        proof {
            assert(all.take(i + 1) =~= all.take(i as int).push(all[i as int]));
            all.take(i as int).lemma_filter_push(all[i as int], pred);
        }
        if filter.admits(&attrs[i].path) {
            out.push(attrs[i].clone());
            assert(annotations_view(out@) =~= before.push(all[i as int]));
        }
        i += 1;
    }
    assert(all.take(attrs.len() as int) =~= all);
    out
}

/// Laying filters over one another can be grouped either way.
pub proof fn lemma_compose_associative(a: FilterModel, b: FilterModel, c: FilterModel)
    ensures
        a.compose(b).compose(c) == a.compose(b.compose(c)),
{
}

/// `All` says nothing: laid over a filter or under one, it leaves that filter.
pub proof fn lemma_compose_identity(a: FilterModel)
    ensures
        FilterModel::All.compose(a) == a,
        a.compose(FilterModel::All) == a,
{
}

/// The narrower scope wins wherever it says anything, whatever the wider one says.
pub proof fn lemma_inner_wins(inner: FilterModel, outer: FilterModel)
    requires
        !(inner is All),
    ensures
        inner.compose(outer) == inner,
        forall|p: PathModel| inner.compose(outer).admits(p) == inner.admits(p),
{
}

/// What a list of paths admits depends only on which paths it holds: neither
/// their order nor their repetition matters.
pub proof fn lemma_admits_by_membership(a: Seq<PathModel>, b: Seq<PathModel>, p: PathModel)
    requires
        a.to_set() == b.to_set(),
    ensures
        FilterModel::Allow(a).admits(p) == FilterModel::Allow(b).admits(p),
        FilterModel::Deny(a).admits(p) == FilterModel::Deny(b).admits(p),
{
    assert(a.contains(p) == a.to_set().contains(p));
    assert(b.contains(p) == b.to_set().contains(p));
}

} // verus!
