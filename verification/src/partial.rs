//! Partial: a record with every field of its source, each made optional.

use crate::derive::{
    backward_rules, derivation, derive_one, forward_rules, kept, lemma_filter_all,
    lemma_kept_all, objections, positions, scope_filter, Derivation,
};
use crate::meta::Diagnostic;
use crate::operation::{OperationKind, OperationSpec, SpecModel};
use crate::plan::{Direction, InstanceModel, MappingModel, PlanModel, RuleModel, ValueModel};
use crate::schema::{MemberModel, SchemaKind, SchemaModel, SourceSchema};
use vstd::prelude::*;

verus! {

/// The member as Partial leaves it: its type is the optional wrapper around
/// the type it had, and of its annotations those are left that the filter in
/// force for it lets through.
pub open spec fn made_optional(m: MemberModel, source: SchemaModel, spec: SpecModel) -> MemberModel {
    MemberModel {
        name: m.name,
        vis: m.vis,
        ty: m.ty.optional(),
        annotations: m.forward_attrs.compose(scope_filter(source, spec)).forwarded(m.annotations),
        forward_attrs: m.forward_attrs,
        default: m.default,
    }
}

/// The rules that wrap the value of every one of `n` members.
pub open spec fn wrapping_rules(n: nat) -> Seq<MappingModel> {
    Seq::new(n, |i: int| MappingModel { source: i as usize, kind: RuleModel::WrapOptional })
}

/// The rules that unwrap the value of every member, each with the member's
/// own declared default for a value that is not there.
pub open spec fn unwrapping_rules(members: Seq<MemberModel>) -> Seq<MappingModel> {
    Seq::new(
        members.len(),
        |i: int|
            MappingModel { source: i as usize, kind: RuleModel::UnwrapOptional(members[i].default) },
    )
}

/// Derives the record that holds every field of `source` with its type made
/// optional.
///
/// A type that is optional already is wrapped once more. The fields keep the
/// order of the source; of their annotations those are kept that the filter in
/// force lets through. A selection in `spec` is not looked at. The first plan
/// leads from the source to the derived record and wraps every value; the
/// second leads back and unwraps every value, putting the field's declared
/// default, or else the default of its type, where a value is not there.
///
/// Nothing is derived where `spec` is written for another operation, where
/// `source` is no record, or where `spec` lacks a target name or has an empty
/// one: then every such finding is returned.
pub fn partial(source: &SourceSchema, spec: &OperationSpec) -> (r: Result<
    Derivation,
    Vec<Diagnostic>,
>)
    ensures
        match r {
            Ok(d) => {
                &&& objections(OperationKind::Partial, source@, spec@).len() == 0
                &&& d@ == derivation(OperationKind::Partial, source@, spec@)
                &&& d@.schema.kind == SchemaKind::Record
                &&& d@.schema.name == spec@.ident->0
                &&& d@.schema.members == source@.members.map_values(
                    |m: MemberModel| made_optional(m, source@, spec@),
                )
                &&& d@.plans == seq![
                    PlanModel {
                        direction: Direction::SourceToDerived,
                        rules: wrapping_rules(source@.members.len()),
                    },
                    PlanModel {
                        direction: Direction::DerivedToSource,
                        rules: unwrapping_rules(source@.members),
                    },
                ]
            },
            Err(e) => e@.len() > 0 && e@ == objections(OperationKind::Partial, source@, spec@),
        },
{
    let r = derive_one(OperationKind::Partial, source, spec);
    proof {
        lemma_partial(source@, spec@);
    }
    r
}

/// What Partial derives, spelled out: every member of the source with its
/// type made optional, one plan that wraps every value and one that unwraps
/// every value.
pub proof fn lemma_partial(source: SchemaModel, spec: SpecModel)
    ensures
        derivation(OperationKind::Partial, source, spec).schema.kind == SchemaKind::Record,
        derivation(OperationKind::Partial, source, spec).schema.members
            == source.members.map_values(|m: MemberModel| made_optional(m, source, spec)),
        derivation(OperationKind::Partial, source, spec).schema.members.len()
            == source.members.len(),
        forall|i: int|
            0 <= i < source.members.len() ==> (#[trigger] derivation(
                OperationKind::Partial,
                source,
                spec,
            ).schema.members[i]).ty == source.members[i].ty.optional(),
        derivation(OperationKind::Partial, source, spec).plans == seq![
            PlanModel {
                direction: Direction::SourceToDerived,
                rules: wrapping_rules(source.members.len()),
            },
            PlanModel {
                direction: Direction::DerivedToSource,
                rules: unwrapping_rules(source.members),
            },
        ],
{
    let kind = OperationKind::Partial;
    let n = source.members.len();
    lemma_filter_all(source.members, |m: MemberModel| crate::derive::keeps(kind, m, spec.selected()));
    lemma_kept_all(kind, source.members, spec.selected(), n as int);
    assert(derivation(kind, source, spec).schema.members =~= source.members.map_values(
        |m: MemberModel| made_optional(m, source, spec),
    ));
    assert(kept(kind, source.members, spec.selected(), n as int) == positions(n));
    assert(forward_rules(kind, source.members, spec.selected()) =~= wrapping_rules(n));
    assert(backward_rules(kind, source.members, spec.selected()) =~= unwrapping_rules(
        source.members,
    ));
}

/// The value with every field wrapped.
pub open spec fn all_present(fields: Seq<ValueModel>) -> Seq<ValueModel> {
    fields.map_values(|v: ValueModel| ValueModel::Present(Box::new(v)))
}

/// The way there and back again gives the value back: a value of the source
/// goes over to the derived record with every field wrapped, and from there,
/// with every field there, it comes back exactly as it was.
pub proof fn lemma_partial_round_trip(
    source: SchemaModel,
    spec: SpecModel,
    fields: Seq<ValueModel>,
)
    requires
        fields.len() == source.members.len(),
        source.members.len() <= usize::MAX,
    ensures
        ({
            let d = derivation(OperationKind::Partial, source, spec);
            let there = d.plans[0].to_derived(InstanceModel::Record(fields));
            &&& there == Some(InstanceModel::Record(all_present(fields)))
            &&& d.plans[1].to_source(there->0) == Some(InstanceModel::Record(fields))
        }),
{
    lemma_partial(source, spec);
    let d = derivation(OperationKind::Partial, source, spec);
    let forward = d.plans[0];
    let backward = d.plans[1];
    assert forall|k: int| 0 <= k < forward.rules.len() implies (#[trigger] forward.derived_field(
        fields,
        k,
    )) == Some(ValueModel::Present(Box::new(fields[k]))) by {
        assert(forward.rules[k].source == k);
    }
    assert(forward.covers(fields));
    let wrapped = Seq::new(forward.rules.len(), |k: int| forward.derived_field(fields, k)->0);
    assert(wrapped =~= all_present(fields));
    assert(backward.in_place(wrapped.len()));
    assert forall|k: int| 0 <= k < backward.rules.len() implies (#[trigger] backward.rules[k]).kind.apply(
        wrapped[k],
    ) == Some(fields[k]) by {}
    assert(backward.applies_to_all(wrapped));
    assert(Seq::new(wrapped.len(), |k: int| backward.rules[k].kind.apply(wrapped[k])->0)
        =~= fields);
}

/// What stands in for a value that is not there: the value of the member's
/// declared default, or the default of its type where none is declared.
pub open spec fn stand_in(m: MemberModel) -> ValueModel {
    match m.default {
        Some(e) => ValueModel::Declared(e),
        None => ValueModel::TypeDefault,
    }
}

/// On the way back a field whose value is not there gets its declared
/// default, or the default of its type where none is declared, and a field
/// whose value is there gets that value.
pub proof fn lemma_partial_defaults(
    source: SchemaModel,
    spec: SpecModel,
    fields: Seq<ValueModel>,
)
    requires
        fields.len() == source.members.len(),
        source.members.len() <= usize::MAX,
        forall|k: int|
            0 <= k < fields.len() ==> (#[trigger] fields[k]) is Present || fields[k] is Absent,
    ensures
        ({
            let back = derivation(OperationKind::Partial, source, spec).plans[1].to_source(
                InstanceModel::Record(fields),
            );
            &&& back matches Some(InstanceModel::Record(values))
            &&& values.len() == fields.len()
            &&& forall|k: int|
                0 <= k < fields.len() ==> (#[trigger] values[k]) == (match fields[k] {
                    ValueModel::Present(v) => *v,
                    _ => stand_in(source.members[k]),
                })
        }),
{
    lemma_partial(source, spec);
    let backward = derivation(OperationKind::Partial, source, spec).plans[1];
    assert(backward.in_place(fields.len()));
    assert forall|k: int| 0 <= k < backward.rules.len() implies (#[trigger] backward.rules[k]).kind.apply(
        fields[k],
    ) is Some by {
        assert(fields[k] is Present || fields[k] is Absent);
    }
    assert(backward.applies_to_all(fields));
}

} // verus!
