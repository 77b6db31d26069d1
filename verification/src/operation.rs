//! Operation specs: what is asked of a source schema.

use crate::filter::{FilterModel, ForwardAttrsFilter};
use crate::path::{IdentList, PathList, PathModel};
use crate::schema::{paths_opt, text_opt, SchemaKind};
use vstd::prelude::*;

verus! {

/// The six operations.
#[derive(Clone, Copy, Debug, PartialEq, Eq, Structural)]
pub enum OperationKind {
    /// Keep the fields that are named.
    Pick,
    /// Keep the fields that are not named.
    Omit,
    /// Keep every field and make its type optional.
    Partial,
    /// Keep every field and remove one optional wrapper from its type.
    Required,
    /// Keep the variants that are named.
    Extract,
    /// Keep the variants that are not named.
    Exclude,
}

impl OperationKind {
    /// Whether the operation works by a selection of names.
    pub open spec fn selects(self) -> bool {
        !(self is Partial || self is Required)
    }

    /// The kind of schema that the operation applies to, which is also the
    /// kind of schema that it yields.
    pub open spec fn applies_to(self) -> SchemaKind {
        if self is Extract || self is Exclude {
            SchemaKind::TaggedUnion
        } else {
            SchemaKind::Record
        }
    }

    /// Whether the operation works by a selection of names.
    pub fn needs_selection(&self) -> (r: bool)
        ensures
            r == self.selects(),
    {
        match self {
            OperationKind::Partial | OperationKind::Required => false,
            _ => true,
        }
    }

    /// The kind of schema that the operation applies to.
    pub fn source_kind(&self) -> (r: SchemaKind)
        ensures
            r == self.applies_to(),
    {
        match self {
            OperationKind::Extract | OperationKind::Exclude => SchemaKind::TaggedUnion,
            _ => SchemaKind::Record,
        }
    }
}

/// One operation to apply to a source schema.
///
/// Every part that can be left out when the spec is written is optional here,
/// so that a spec with gaps can be held and its gaps reported.
#[derive(Debug, PartialEq, Eq)]
pub struct OperationSpec {
    /// The operation.
    pub kind: OperationKind,
    /// The name of the schema to derive.
    pub ident: Option<String>,
    /// The names that the operation selects by.
    pub selection: Option<IdentList>,
    /// The decorations to attach to the derived declaration.
    pub derive: Option<PathList>,
    /// The forwarding filter of this operation; `All` where it has none.
    pub forward_attrs: ForwardAttrsFilter,
}

/// What an [`OperationSpec`] stands for in contracts.
pub struct SpecModel {
    pub kind: OperationKind,
    pub ident: Option<Seq<char>>,
    pub selection: Option<Seq<Seq<char>>>,
    pub derive: Option<Seq<PathModel>>,
    pub forward_attrs: FilterModel,
}

/// The names of an optional selection.
pub open spec fn idents_opt(o: Option<IdentList>) -> Option<Seq<Seq<char>>> {
    match o {
        Some(l) => Some(l@),
        None => None,
    }
}

impl View for OperationSpec {
    type V = SpecModel;

    open spec fn view(&self) -> SpecModel {
        SpecModel {
            kind: self.kind,
            ident: text_opt(self.ident),
            selection: idents_opt(self.selection),
            derive: paths_opt(self.derive),
            forward_attrs: self.forward_attrs@,
        }
    }
}

/// The models of a sequence of operation specs.
pub open spec fn specs_view(v: Seq<OperationSpec>) -> Seq<SpecModel> {
    v.map_values(|s: OperationSpec| s@)
}

impl SpecModel {
    /// The names selected; none where no selection is given.
    pub open spec fn selected(self) -> Seq<Seq<char>> {
        match self.selection {
            Some(s) => s,
            None => Seq::empty(),
        }
    }
}

impl OperationSpec {
    /// The spec of an operation with the target name `ident` and nothing else.
    pub fn new(kind: OperationKind, ident: &str) -> (r: OperationSpec)
        ensures
            r@ == (SpecModel {
                kind,
                ident: Some(ident@),
                selection: None,
                derive: None,
                forward_attrs: FilterModel::All,
            }),
    {
        OperationSpec {
            kind,
            ident: Some(ident.to_owned()),
            selection: None,
            derive: None,
            forward_attrs: ForwardAttrsFilter::All,
        }
    }

    /// The spec of an operation with the target name `ident` that selects by `names`.
    pub fn selecting(kind: OperationKind, ident: &str, names: IdentList) -> (r: OperationSpec)
        ensures
            r@ == (SpecModel {
                kind,
                ident: Some(ident@),
                selection: Some(names@),
                derive: None,
                forward_attrs: FilterModel::All,
            }),
    {
        OperationSpec {
            kind,
            ident: Some(ident.to_owned()),
            selection: Some(names),
            derive: None,
            forward_attrs: ForwardAttrsFilter::All,
        }
    }
}

} // verus!
