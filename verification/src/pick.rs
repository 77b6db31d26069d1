//! Pick: a record with the named fields of its source and no others.

use crate::derive::{
    derivation, derive_one, identity_rules, kept, lemma_selecting, objections, scope_filter,
    with_forwarded, Derivation,
};
use crate::meta::Diagnostic;
use crate::operation::{OperationKind, OperationSpec, SpecModel};
use crate::plan::{Direction, PlanModel};
use crate::schema::{MemberModel, SchemaKind, SchemaModel, SourceSchema};
use vstd::prelude::*;

verus! {

/// The members of the source that Pick keeps: those with a name that the
/// selection holds, in the order of the source.
pub open spec fn picked(source: SchemaModel, selection: Seq<Seq<char>>) -> Seq<MemberModel> {
    source.members.filter(|m: MemberModel| m.named_in(selection))
}

/// The positions of the members that Pick keeps, in rising order.
pub open spec fn picked_positions(source: SchemaModel, selection: Seq<Seq<char>>) -> Seq<int> {
    kept(OperationKind::Pick, source.members, selection, source.members.len() as int)
}

/// Derives the record that holds the fields of `source` named in the
/// selection of `spec`.
///
/// A name in the selection that no field has selects nothing and is no error.
/// A field without a name is never kept. The fields keep their types and the
/// order of the source; of their annotations those are kept that the filter in
/// force lets through. The one plan leads from the source to the derived
/// record and takes every kept value over unchanged.
///
/// Nothing is derived where `spec` is written for another operation, where
/// `source` is no record, or where `spec` lacks a target name or a selection
/// or has an empty one: then every such finding is returned.
pub fn pick(source: &SourceSchema, spec: &OperationSpec) -> (r: Result<
    Derivation,
    Vec<Diagnostic>,
>)
    ensures
        match r {
            Ok(d) => {
                &&& objections(OperationKind::Pick, source@, spec@).len() == 0
                &&& d@ == derivation(OperationKind::Pick, source@, spec@)
                &&& d@.schema.kind == SchemaKind::Record
                &&& d@.schema.name == spec@.ident->0
                &&& d@.schema.members == picked(source@, spec@.selected()).map_values(
                    |m: MemberModel| with_forwarded(m, scope_filter(source@, spec@)),
                )
                &&& d@.plans == seq![
                    PlanModel {
                        direction: Direction::SourceToDerived,
                        rules: identity_rules(picked_positions(source@, spec@.selected())),
                    },
                ]
            },
            Err(e) => e@.len() > 0 && e@ == objections(OperationKind::Pick, source@, spec@),
        },
{
    let r = derive_one(OperationKind::Pick, source, spec);
    proof {
        lemma_pick(source@, spec@);
    }
    r
}

/// What Pick derives, spelled out: the picked members with their annotations
/// filtered, and one plan of identity rules from the source.
pub proof fn lemma_pick(source: SchemaModel, spec: SpecModel)
    ensures
        derivation(OperationKind::Pick, source, spec).schema.kind == SchemaKind::Record,
        derivation(OperationKind::Pick, source, spec).schema.members == picked(
            source,
            spec.selected(),
        ).map_values(|m: MemberModel| with_forwarded(m, scope_filter(source, spec))),
        derivation(OperationKind::Pick, source, spec).plans == seq![
            PlanModel {
                direction: Direction::SourceToDerived,
                rules: identity_rules(picked_positions(source, spec.selected())),
            },
        ],
{
    lemma_selecting(
        OperationKind::Pick,
        source,
        spec,
        |m: MemberModel| m.named_in(spec.selected()),
    );
}

} // verus!
