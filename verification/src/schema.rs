//! Schemas: the shape of a record or of a tagged union, apart from any value of it.

use crate::filter::{FilterModel, ForwardAttrsFilter};
use crate::path::{MetaPath, PathList, PathModel};
use crate::types::{TypeExpr, TypeModel};
use vstd::prelude::*;

verus! {

/// Whether a schema is that of a record or that of a tagged union.
#[derive(Clone, Copy, Debug, PartialEq, Eq, Structural)]
pub enum SchemaKind {
    /// A record: its members are fields.
    Record,
    /// A tagged union: its members are variants.
    TaggedUnion,
}

/// The text of an optional string.
pub open spec fn text_opt(o: Option<String>) -> Option<Seq<char>> {
    match o {
        Some(s) => Some(s@),
        None => None,
    }
}

/// A copy of an optional string.
pub fn clone_text_opt(o: &Option<String>) -> (r: Option<String>)
    ensures
        text_opt(r) == text_opt(*o),
{
    match o {
        Some(s) => Some(s.clone()),
        None => None,
    }
}

/// An annotation on a declaration or on one of its members: the path that
/// names it, and the rest as written.
#[derive(Debug, PartialEq, Eq)]
pub struct Annotation {
    /// The path by which filters know the annotation.
    pub path: MetaPath,
    /// Everything behind the path, as written.
    pub body: String,
}

/// What an [`Annotation`] stands for in contracts.
pub struct AnnotationModel {
    pub path: PathModel,
    pub body: Seq<char>,
}

impl View for Annotation {
    type V = AnnotationModel;

    open spec fn view(&self) -> AnnotationModel {
        AnnotationModel { path: self.path@, body: self.body@ }
    }
}

/// The models of a sequence of annotations.
pub open spec fn annotations_view(v: Seq<Annotation>) -> Seq<AnnotationModel> {
    v.map_values(|a: Annotation| a@)
}

impl Clone for Annotation {
    fn clone(&self) -> (r: Self)
        ensures
            r@ == self@,
    {
        Annotation { path: self.path.clone(), body: self.body.clone() }
    }
}

impl Annotation {
    /// The annotation named by the single identifier `name`, with the given rest.
    pub fn new(name: &str, body: &str) -> (r: Annotation)
        ensures
            r@ == (AnnotationModel { path: PathModel::of_ident(name@), body: body@ }),
    {
        Annotation { path: MetaPath::from_ident(name), body: body.to_owned() }
    }
}

/// A copy of a list of annotations.
pub fn clone_annotations(v: &Vec<Annotation>) -> (r: Vec<Annotation>)
    ensures
        annotations_view(r@) == annotations_view(v@),
{
    let r = v.clone();
    assert(annotations_view(r@) =~= annotations_view(v@));
    r
}

/// A member of a schema: a field of a record or a variant of a tagged union.
#[derive(Debug, PartialEq, Eq)]
pub struct Member {
    /// The member's name; only a positional field has none.
    pub name: Option<String>,
    /// The member's visibility, as written.
    pub vis: String,
    /// The declared type of a field; for a variant, its payload as written.
    pub ty: TypeExpr,
    /// The annotations on the member.
    pub annotations: Vec<Annotation>,
    /// The member's own forwarding filter; `All` where it has none.
    pub forward_attrs: ForwardAttrsFilter,
    /// The expression that stands in for a missing value, if one is declared.
    pub default: Option<String>,
}

/// What a [`Member`] stands for in contracts.
pub struct MemberModel {
    pub name: Option<Seq<char>>,
    pub vis: Seq<char>,
    pub ty: TypeModel,
    pub annotations: Seq<AnnotationModel>,
    pub forward_attrs: FilterModel,
    pub default: Option<Seq<char>>,
}

impl View for Member {
    type V = MemberModel;

    open spec fn view(&self) -> MemberModel {
        MemberModel {
            name: text_opt(self.name),
            vis: self.vis@,
            ty: self.ty@,
            annotations: annotations_view(self.annotations@),
            forward_attrs: self.forward_attrs@,
            default: text_opt(self.default),
        }
    }
}

/// The models of a sequence of members.
pub open spec fn members_view(v: Seq<Member>) -> Seq<MemberModel> {
    v.map_values(|m: Member| m@)
}

impl MemberModel {
    /// Whether the member has a name and the selection holds it.
    pub open spec fn named_in(self, selection: Seq<Seq<char>>) -> bool {
        self.name is Some && selection.contains(self.name->0)
    }
}

impl Clone for Member {
    fn clone(&self) -> (r: Self)
        ensures
            r@ == self@,
    {
        Member {
            name: clone_text_opt(&self.name),
            vis: self.vis.clone(),
            ty: self.ty.clone(),
            annotations: clone_annotations(&self.annotations),
            forward_attrs: self.forward_attrs.clone(),
            default: clone_text_opt(&self.default),
        }
    }
}

impl Member {
    /// The member called `name` of type `ty`, without annotations, filter or default.
    pub fn named(name: &str, ty: TypeExpr) -> (r: Member)
        ensures
            r@ == (MemberModel {
                name: Some(name@),
                vis: Seq::empty(),
                ty: ty@,
                annotations: Seq::empty(),
                forward_attrs: FilterModel::All,
                default: None,
            }),
    {
        let annotations: Vec<Annotation> = Vec::new();
        assert(annotations_view(annotations@) =~= Seq::<AnnotationModel>::empty());
        Member {
            name: Some(name.to_owned()),
            vis: String::new(),
            ty,
            annotations,
            forward_attrs: ForwardAttrsFilter::All,
            default: None,
        }
    }

    /// The positional member of type `ty`, without annotations, filter or default.
    pub fn positional(ty: TypeExpr) -> (r: Member)
        ensures
            r@ == (MemberModel {
                name: None,
                vis: Seq::empty(),
                ty: ty@,
                annotations: Seq::empty(),
                forward_attrs: FilterModel::All,
                default: None,
            }),
    {
        let annotations: Vec<Annotation> = Vec::new();
        assert(annotations_view(annotations@) =~= Seq::<AnnotationModel>::empty());
        Member {
            name: None,
            vis: String::new(),
            ty,
            annotations,
            forward_attrs: ForwardAttrsFilter::All,
            default: None,
        }
    }
}

/// The schema that operations are applied to.
#[derive(Debug, PartialEq, Eq)]
pub struct SourceSchema {
    /// Record or tagged union.
    pub kind: SchemaKind,
    /// The name of the declaration.
    pub name: String,
    /// Its visibility, as written; every derived schema gets the same.
    pub vis: String,
    /// Its generic parameters, as written; every derived schema gets the same.
    pub generics: String,
    /// The annotations on the declaration.
    pub annotations: Vec<Annotation>,
    /// The forwarding filter given for the whole declaration; `All` where none is.
    pub forward_attrs: ForwardAttrsFilter,
    /// The members, in the order of the declaration.
    pub members: Vec<Member>,
}

/// What a [`SourceSchema`] stands for in contracts.
pub struct SchemaModel {
    pub kind: SchemaKind,
    pub name: Seq<char>,
    pub vis: Seq<char>,
    pub generics: Seq<char>,
    pub annotations: Seq<AnnotationModel>,
    pub forward_attrs: FilterModel,
    pub members: Seq<MemberModel>,
}

impl View for SourceSchema {
    type V = SchemaModel;

    open spec fn view(&self) -> SchemaModel {
        SchemaModel {
            kind: self.kind,
            name: self.name@,
            vis: self.vis@,
            generics: self.generics@,
            annotations: annotations_view(self.annotations@),
            forward_attrs: self.forward_attrs@,
            members: members_view(self.members@),
        }
    }
}

impl SourceSchema {
    /// The schema of the given kind with the given name and members, without
    /// visibility, generic parameters, annotations or filter.
    pub fn new(kind: SchemaKind, name: &str, members: Vec<Member>) -> (r: SourceSchema)
        ensures
            r@ == (SchemaModel {
                kind,
                name: name@,
                vis: Seq::empty(),
                generics: Seq::empty(),
                annotations: Seq::empty(),
                forward_attrs: FilterModel::All,
                members: members_view(members@),
            }),
    {
        let annotations: Vec<Annotation> = Vec::new();
        assert(annotations_view(annotations@) =~= Seq::<AnnotationModel>::empty());
        SourceSchema {
            kind,
            name: name.to_owned(),
            vis: String::new(),
            generics: String::new(),
            annotations,
            forward_attrs: ForwardAttrsFilter::All,
            members,
        }
    }
}

/// A schema derived from a source schema by one operation.
#[derive(Debug, PartialEq, Eq)]
pub struct DerivedSchema {
    /// Record or tagged union.
    pub kind: SchemaKind,
    /// The target name of the operation.
    pub name: String,
    /// The visibility of the source.
    pub vis: String,
    /// The generic parameters of the source.
    pub generics: String,
    /// The decorations attached by the operation: `None` where it names no
    /// list, an empty list where it names an empty one.
    pub decorations: Option<PathList>,
    /// The annotations of the source that are forwarded.
    pub annotations: Vec<Annotation>,
    /// The members that are kept, in the order of the source.
    pub members: Vec<Member>,
}

/// What a [`DerivedSchema`] stands for in contracts.
pub struct DerivedModel {
    pub kind: SchemaKind,
    pub name: Seq<char>,
    pub vis: Seq<char>,
    pub generics: Seq<char>,
    pub decorations: Option<Seq<PathModel>>,
    pub annotations: Seq<AnnotationModel>,
    pub members: Seq<MemberModel>,
}

/// The models of an optional list of paths.
pub open spec fn paths_opt(o: Option<PathList>) -> Option<Seq<PathModel>> {
    match o {
        Some(l) => Some(l@),
        None => None,
    }
}

impl View for DerivedSchema {
    type V = DerivedModel;

    open spec fn view(&self) -> DerivedModel {
        DerivedModel {
            kind: self.kind,
            name: self.name@,
            vis: self.vis@,
            generics: self.generics@,
            decorations: paths_opt(self.decorations),
            annotations: annotations_view(self.annotations@),
            members: members_view(self.members@),
        }
    }
}

} // verus!
