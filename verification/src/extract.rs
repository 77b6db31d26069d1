//! Extract: a tagged union with the named variants of its source and no others.

use crate::derive::{
    derivation, derive_one, identity_rules, kept, lemma_selecting, objections, scope_filter,
    with_forwarded, Derivation,
};
use crate::meta::Diagnostic;
use crate::operation::{OperationKind, OperationSpec, SpecModel};
use crate::plan::{Direction, PlanModel};
use crate::schema::{MemberModel, SchemaKind, SchemaModel, SourceSchema};
use vstd::prelude::*;

verus! {

/// The variants of the source that Extract keeps: those whose name the
/// selection holds, in the order of the source.
pub open spec fn extracted(source: SchemaModel, selection: Seq<Seq<char>>) -> Seq<MemberModel> {
    source.members.filter(|m: MemberModel| m.named_in(selection))
}

/// The positions of the variants that Extract keeps, in rising order.
pub open spec fn extracted_positions(source: SchemaModel, selection: Seq<Seq<char>>) -> Seq<int> {
    kept(OperationKind::Extract, source.members, selection, source.members.len() as int)
}

/// Derives the tagged union that holds the variants of `source` named in the
/// selection of `spec`.
///
/// A name in the selection that no variant has selects nothing and is no
/// error. A variant without a name is never kept. The variants keep their
/// payloads and the order of the source; of their annotations those are kept
/// that the filter in force lets through. The one plan leads from the source
/// to the derived union and takes the value of every kept variant over
/// unchanged.
///
/// Nothing is derived where `spec` is written for another operation, where
/// `source` is no tagged union, or where `spec` lacks a target name or a
/// selection or has an empty one: then every such finding is returned.
pub fn extract(source: &SourceSchema, spec: &OperationSpec) -> (r: Result<
    Derivation,
    Vec<Diagnostic>,
>)
    ensures
        match r {
            Ok(d) => {
                &&& objections(OperationKind::Extract, source@, spec@).len() == 0
                &&& d@ == derivation(OperationKind::Extract, source@, spec@)
                &&& d@.schema.kind == SchemaKind::TaggedUnion
                &&& d@.schema.name == spec@.ident->0
                &&& d@.schema.members == extracted(source@, spec@.selected()).map_values(
                    |m: MemberModel| with_forwarded(m, scope_filter(source@, spec@)),
                )
                &&& d@.plans == seq![
                    PlanModel {
                        direction: Direction::SourceToDerived,
                        rules: identity_rules(extracted_positions(source@, spec@.selected())),
                    },
                ]
            },
            Err(e) => e@.len() > 0 && e@ == objections(OperationKind::Extract, source@, spec@),
        },
{
    let r = derive_one(OperationKind::Extract, source, spec);
    proof {
        lemma_extract(source@, spec@);
    }
    r
}

/// What Extract derives, spelled out: the named variants with their
/// annotations filtered, and one plan of identity rules from the source.
pub proof fn lemma_extract(source: SchemaModel, spec: SpecModel)
    ensures
        derivation(OperationKind::Extract, source, spec).schema.kind == SchemaKind::TaggedUnion,
        derivation(OperationKind::Extract, source, spec).schema.members == extracted(
            source,
            spec.selected(),
        ).map_values(|m: MemberModel| with_forwarded(m, scope_filter(source, spec))),
        derivation(OperationKind::Extract, source, spec).plans == seq![
            PlanModel {
                direction: Direction::SourceToDerived,
                rules: identity_rules(extracted_positions(source, spec.selected())),
            },
        ],
{
    lemma_selecting(
        OperationKind::Extract,
        source,
        spec,
        |m: MemberModel| m.named_in(spec.selected()),
    );
}

} // verus!
