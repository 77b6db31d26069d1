//! Required: a record with every field of its source, each with one optional
//! wrapper removed.

use crate::derive::{
    derivation, derive_one, forward_rules, kept, lemma_filter_all, lemma_kept_all, objections,
    positions, scope_filter, Derivation,
};
use crate::meta::Diagnostic;
use crate::operation::{OperationKind, OperationSpec, SpecModel};
use crate::partial::made_optional;
use crate::plan::{Direction, MappingModel, PlanModel, RuleModel};
use crate::schema::{MemberModel, SchemaKind, SchemaModel, SourceSchema};
use crate::types::lemma_required_of_optional;
use vstd::prelude::*;

verus! {

/// The member as Required leaves it: where its type is the optional wrapper
/// around a type, it gets the type inside; otherwise it keeps its type. Of
/// its annotations those are left that the filter in force for it lets
/// through.
pub open spec fn made_required(m: MemberModel, source: SchemaModel, spec: SpecModel) -> MemberModel {
    MemberModel {
        name: m.name,
        vis: m.vis,
        ty: m.ty.required(),
        annotations: m.forward_attrs.compose(scope_filter(source, spec)).forwarded(m.annotations),
        forward_attrs: m.forward_attrs,
        default: m.default,
    }
}

/// The rule for the value of a member on the way to the required record: a
/// value of an optional type is unwrapped, any other is taken over.
pub open spec fn requiring_rule(m: MemberModel) -> RuleModel {
    if m.ty.is_optional() {
        RuleModel::UnwrapOptional(m.default)
    } else {
        RuleModel::Identity
    }
}

/// The rules for the values of all members on the way to the required record.
pub open spec fn requiring_rules(members: Seq<MemberModel>) -> Seq<MappingModel> {
    Seq::new(
        members.len(),
        |i: int| MappingModel { source: i as usize, kind: requiring_rule(members[i]) },
    )
}

/// Derives the record that holds every field of `source` with one optional
/// wrapper removed from its type.
///
/// A type counts as optional where it is written as a path that spells
/// `Option`, `std::option::Option` or `core::option::Option` and has a type
/// as its first generic argument. Exactly one wrapper is removed; a type that
/// is not optional stays as it is. The fields keep the order of the source;
/// of their annotations those are kept that the filter in force lets
/// through. A selection in `spec` is not looked at. The one plan leads from
/// the source to the derived record; there is no plan that leads back.
///
/// Nothing is derived where `spec` is written for another operation, where
/// `source` is no record, or where `spec` lacks a target name or has an empty
/// one: then every such finding is returned.
pub fn required(source: &SourceSchema, spec: &OperationSpec) -> (r: Result<
    Derivation,
    Vec<Diagnostic>,
>)
    ensures
        match r {
            Ok(d) => {
                &&& objections(OperationKind::Required, source@, spec@).len() == 0
                &&& d@ == derivation(OperationKind::Required, source@, spec@)
                &&& d@.schema.kind == SchemaKind::Record
                &&& d@.schema.name == spec@.ident->0
                &&& d@.schema.members == source@.members.map_values(
                    |m: MemberModel| made_required(m, source@, spec@),
                )
                &&& d@.plans == seq![
                    PlanModel {
                        direction: Direction::SourceToDerived,
                        rules: requiring_rules(source@.members),
                    },
                ]
            },
            Err(e) => e@.len() > 0 && e@ == objections(OperationKind::Required, source@, spec@),
        },
{
    let r = derive_one(OperationKind::Required, source, spec);
    proof {
        lemma_required(source@, spec@);
    }
    r
}

/// What Required derives, spelled out: every member of the source with one
/// optional wrapper removed from its type, and one plan from the source.
pub proof fn lemma_required(source: SchemaModel, spec: SpecModel)
    ensures
        derivation(OperationKind::Required, source, spec).schema.kind == SchemaKind::Record,
        derivation(OperationKind::Required, source, spec).schema.members
            == source.members.map_values(|m: MemberModel| made_required(m, source, spec)),
        derivation(OperationKind::Required, source, spec).schema.members.len()
            == source.members.len(),
        forall|i: int|
            0 <= i < source.members.len() ==> (#[trigger] derivation(
                OperationKind::Required,
                source,
                spec,
            ).schema.members[i]).ty == source.members[i].ty.required(),
        derivation(OperationKind::Required, source, spec).plans == seq![
            PlanModel {
                direction: Direction::SourceToDerived,
                rules: requiring_rules(source.members),
            },
        ],
{
    let kind = OperationKind::Required;
    let n = source.members.len();
    lemma_filter_all(source.members, |m: MemberModel| crate::derive::keeps(kind, m, spec.selected()));
    lemma_kept_all(kind, source.members, spec.selected(), n as int);
    assert(derivation(kind, source, spec).schema.members =~= source.members.map_values(
        |m: MemberModel| made_required(m, source, spec),
    ));
    assert(kept(kind, source.members, spec.selected(), n as int) == positions(n));
    assert(forward_rules(kind, source.members, spec.selected()) =~= requiring_rules(
        source.members,
    ));
}

/// Required undoes what Partial did to the types: a member that was made
/// optional and is then made required has the type it had at first.
pub proof fn lemma_required_undoes_partial(m: MemberModel, source: SchemaModel, spec: SpecModel)
    ensures
        made_required(made_optional(m, source, spec), source, spec).ty == m.ty,
{
    lemma_required_of_optional(m.ty);
}

} // verus!
