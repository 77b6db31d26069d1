//! Omit: a record with the fields of its source but the named ones.

use crate::derive::{
    derivation, derive_one, identity_rules, kept, lemma_complementary, lemma_filter_agrees_on,
    lemma_filter_splits,
    lemma_selecting, objections, scope_filter, with_forwarded, Derivation,
};
use crate::meta::Diagnostic;
use crate::operation::{OperationKind, OperationSpec, SpecModel};
use crate::pick::{picked, picked_positions};
use crate::plan::{Direction, PlanModel};
use crate::schema::{MemberModel, SchemaKind, SchemaModel, SourceSchema};
use vstd::prelude::*;

verus! {

/// The members of the source that Omit keeps: all but those with a name that
/// the selection holds, in the order of the source.
pub open spec fn omitted(source: SchemaModel, selection: Seq<Seq<char>>) -> Seq<MemberModel> {
    source.members.filter(|m: MemberModel| !m.named_in(selection))
}

/// The positions of the members that Omit keeps, in rising order.
pub open spec fn omitted_positions(source: SchemaModel, selection: Seq<Seq<char>>) -> Seq<int> {
    kept(OperationKind::Omit, source.members, selection, source.members.len() as int)
}

/// Derives the record that holds the fields of `source` not named in the
/// selection of `spec`.
///
/// A name in the selection that no field has removes nothing and is no error.
/// A field without a name is always kept. The fields keep their types and the
/// order of the source; of their annotations those are kept that the filter in
/// force lets through. The one plan leads from the source to the derived
/// record and takes every kept value over unchanged.
///
/// Nothing is derived where `spec` is written for another operation, where
/// `source` is no record, or where `spec` lacks a target name or a selection
/// or has an empty one: then every such finding is returned.
pub fn omit(source: &SourceSchema, spec: &OperationSpec) -> (r: Result<
    Derivation,
    Vec<Diagnostic>,
>)
    ensures
        match r {
            Ok(d) => {
                &&& objections(OperationKind::Omit, source@, spec@).len() == 0
                &&& d@ == derivation(OperationKind::Omit, source@, spec@)
                &&& d@.schema.kind == SchemaKind::Record
                &&& d@.schema.name == spec@.ident->0
                &&& d@.schema.members == omitted(source@, spec@.selected()).map_values(
                    |m: MemberModel| with_forwarded(m, scope_filter(source@, spec@)),
                )
                &&& d@.plans == seq![
                    PlanModel {
                        direction: Direction::SourceToDerived,
                        rules: identity_rules(omitted_positions(source@, spec@.selected())),
                    },
                ]
            },
            Err(e) => e@.len() > 0 && e@ == objections(OperationKind::Omit, source@, spec@),
        },
{
    let r = derive_one(OperationKind::Omit, source, spec);
    proof {
        lemma_omit(source@, spec@);
    }
    r
}

/// What Omit derives, spelled out: the members that are not named with their
/// annotations filtered, and one plan of identity rules from the source.
pub proof fn lemma_omit(source: SchemaModel, spec: SpecModel)
    ensures
        derivation(OperationKind::Omit, source, spec).schema.kind == SchemaKind::Record,
        derivation(OperationKind::Omit, source, spec).schema.members == omitted(
            source,
            spec.selected(),
        ).map_values(|m: MemberModel| with_forwarded(m, scope_filter(source, spec))),
        derivation(OperationKind::Omit, source, spec).plans == seq![
            PlanModel {
                direction: Direction::SourceToDerived,
                rules: identity_rules(omitted_positions(source, spec.selected())),
            },
        ],
{
    lemma_selecting(
        OperationKind::Omit,
        source,
        spec,
        |m: MemberModel| !m.named_in(spec.selected()),
    );
}

/// Pick and Omit by the same names split the members of the source between
/// them: every position is kept by exactly one of the two, and the members
/// that the two keep are together the members of the source, each as often as
/// the source has it.
pub proof fn lemma_pick_omit_partition(source: SchemaModel, selection: Seq<Seq<char>>)
    ensures
        forall|i: int|
            0 <= i < source.members.len() ==> (picked_positions(source, selection).contains(i)
                != #[trigger] omitted_positions(source, selection).contains(i)),
        picked_positions(source, selection).len() + omitted_positions(source, selection).len()
            == source.members.len(),
        picked(source, selection).len() + omitted(source, selection).len()
            == source.members.len(),
        picked(source, selection).to_multiset().add(omitted(source, selection).to_multiset())
            == source.members.to_multiset(),
        forall|m: MemberModel|
            !(picked(source, selection).contains(m) && omitted(source, selection).contains(m)),
{
    lemma_complementary(OperationKind::Pick, OperationKind::Omit, source.members, selection);
    lemma_filter_splits(
        source.members,
        |m: MemberModel| m.named_in(selection),
        |m: MemberModel| !m.named_in(selection),
    );
}

/// Where every member has a name and two selections split the names of the
/// members between them, picking by the one is omitting by the other: Pick by
/// the one and Pick by the other split the members of the source between them.
pub proof fn lemma_pick_is_omit_of_the_rest(
    source: SchemaModel,
    selection: Seq<Seq<char>>,
    rest: Seq<Seq<char>>,
)
    requires
        forall|i: int|
            0 <= i < source.members.len() ==> (#[trigger] source.members[i]).name is Some
                && selection.contains(source.members[i].name->0) != rest.contains(
                source.members[i].name->0,
            ),
    ensures
        picked(source, selection) == omitted(source, rest),
        picked(source, rest) == omitted(source, selection),
{
    lemma_filter_agrees_on(
        source.members,
        |m: MemberModel| m.named_in(selection),
        |m: MemberModel| !m.named_in(rest),
    );
    lemma_filter_agrees_on(
        source.members,
        |m: MemberModel| m.named_in(rest),
        |m: MemberModel| !m.named_in(selection),
    );
}

} // verus!
