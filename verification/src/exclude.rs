//! Exclude: a tagged union with the variants of its source but the named ones.

use crate::derive::{
    derivation, derive_one, identity_rules, kept, lemma_complementary, lemma_filter_agrees_on,
    lemma_filter_splits,
    lemma_kept_positions, lemma_members_by_position, lemma_selecting, objections, scope_filter,
    with_forwarded, Derivation,
};
use crate::extract::{extracted, extracted_positions};
use crate::meta::Diagnostic;
use crate::operation::{OperationKind, OperationSpec, SpecModel};
use crate::plan::{lemma_first_for_found, Direction, InstanceModel, PlanModel, ValueModel};
use crate::schema::{MemberModel, SchemaKind, SchemaModel, SourceSchema};
use vstd::prelude::*;

verus! {

/// The variants of the source that Exclude keeps: all but those whose name
/// the selection holds, in the order of the source.
pub open spec fn excluded(source: SchemaModel, selection: Seq<Seq<char>>) -> Seq<MemberModel> {
    source.members.filter(|m: MemberModel| !m.named_in(selection))
}

/// The positions of the variants that Exclude keeps, in rising order.
pub open spec fn excluded_positions(source: SchemaModel, selection: Seq<Seq<char>>) -> Seq<int> {
    kept(OperationKind::Exclude, source.members, selection, source.members.len() as int)
}

/// Derives the tagged union that holds the variants of `source` not named in
/// the selection of `spec`.
///
/// A name in the selection that no variant has removes nothing and is no
/// error. A variant without a name is always kept. The variants keep their
/// payloads and the order of the source; of their annotations those are kept
/// that the filter in force lets through. The one plan leads both ways: a
/// value of a kept variant goes over unchanged, and every value of the derived
/// union goes back unchanged.
///
/// Nothing is derived where `spec` is written for another operation, where
/// `source` is no tagged union, or where `spec` lacks a target name or a
/// selection or has an empty one: then every such finding is returned.
pub fn exclude(source: &SourceSchema, spec: &OperationSpec) -> (r: Result<
    Derivation,
    Vec<Diagnostic>,
>)
    ensures
        match r {
            Ok(d) => {
                &&& objections(OperationKind::Exclude, source@, spec@).len() == 0
                &&& d@ == derivation(OperationKind::Exclude, source@, spec@)
                &&& d@.schema.kind == SchemaKind::TaggedUnion
                &&& d@.schema.name == spec@.ident->0
                &&& d@.schema.members == excluded(source@, spec@.selected()).map_values(
                    |m: MemberModel| with_forwarded(m, scope_filter(source@, spec@)),
                )
                &&& d@.plans == seq![
                    PlanModel {
                        direction: Direction::Both,
                        rules: identity_rules(excluded_positions(source@, spec@.selected())),
                    },
                ]
            },
            Err(e) => e@.len() > 0 && e@ == objections(OperationKind::Exclude, source@, spec@),
        },
{
    let r = derive_one(OperationKind::Exclude, source, spec);
    proof {
        lemma_exclude(source@, spec@);
    }
    r
}

/// What Exclude derives, spelled out: the variants that are not named with
/// their annotations filtered, and one plan of identity rules that leads
/// both ways.
pub proof fn lemma_exclude(source: SchemaModel, spec: SpecModel)
    ensures
        derivation(OperationKind::Exclude, source, spec).schema.kind == SchemaKind::TaggedUnion,
        derivation(OperationKind::Exclude, source, spec).schema.members == excluded(
            source,
            spec.selected(),
        ).map_values(|m: MemberModel| with_forwarded(m, scope_filter(source, spec))),
        derivation(OperationKind::Exclude, source, spec).plans == seq![
            PlanModel {
                direction: Direction::Both,
                rules: identity_rules(excluded_positions(source, spec.selected())),
            },
        ],
{
    lemma_selecting(
        OperationKind::Exclude,
        source,
        spec,
        |m: MemberModel| !m.named_in(spec.selected()),
    );
}

/// Extract and Exclude by the same names split the variants of the source
/// between them: every position is kept by exactly one of the two, and the
/// variants that the two keep are together the variants of the source, each
/// as often as the source has it.
pub proof fn lemma_extract_exclude_partition(source: SchemaModel, selection: Seq<Seq<char>>)
    ensures
        forall|i: int|
            0 <= i < source.members.len() ==> (extracted_positions(source, selection).contains(i)
                != #[trigger] excluded_positions(source, selection).contains(i)),
        extracted_positions(source, selection).len() + excluded_positions(
            source,
            selection,
        ).len() == source.members.len(),
        extracted(source, selection).len() + excluded(source, selection).len()
            == source.members.len(),
        extracted(source, selection).to_multiset().add(excluded(source, selection).to_multiset())
            == source.members.to_multiset(),
        forall|m: MemberModel|
            !(extracted(source, selection).contains(m) && excluded(source, selection).contains(
                m,
            )),
{
    lemma_complementary(
        OperationKind::Extract,
        OperationKind::Exclude,
        source.members,
        selection,
    );
    lemma_filter_splits(
        source.members,
        |m: MemberModel| m.named_in(selection),
        |m: MemberModel| !m.named_in(selection),
    );
}

/// Every value of the union that Exclude derives goes back to the source: the
/// variant at position `k` of the derived union becomes the variant of the
/// source that it was made from, which has the same name, with its payload
/// unchanged.
pub proof fn lemma_exclude_goes_back(
    source: SchemaModel,
    spec: SpecModel,
    k: int,
    payload: ValueModel,
)
    requires
        0 <= k < derivation(OperationKind::Exclude, source, spec).schema.members.len(),
        source.members.len() <= usize::MAX,
    ensures
        ({
            let d = derivation(OperationKind::Exclude, source, spec);
            let back = d.plans[0].to_source(InstanceModel::Variant { index: k as usize, payload });
            &&& back matches Some(InstanceModel::Variant { index, payload: p })
            &&& p == payload
            &&& index == excluded_positions(source, spec.selected())[k]
            &&& index < source.members.len()
            &&& source.members[index as int].name == d.schema.members[k].name
            &&& d.plans[0].to_derived(back->0) == Some(
                InstanceModel::Variant { index: k as usize, payload },
            )
        }),
{
    let d = derivation(OperationKind::Exclude, source, spec);
    let pos = excluded_positions(source, spec.selected());
    lemma_exclude(source, spec);
    lemma_members_by_position(OperationKind::Exclude, source, spec);
    lemma_kept_positions(
        OperationKind::Exclude,
        source.members,
        spec.selected(),
        source.members.len() as int,
    );
    assert(d.schema.members.len() == pos.len());
    assert(0 <= pos[k] < source.members.len());
    let rules = d.plans[0].rules;
    assert(rules[k].source == pos[k] as usize);
    assert forall|j: int| 0 <= j < k implies (#[trigger] rules[j]).source != rules[k].source by {
        assert(pos[j] < pos[k]);
        assert(0 <= pos[j] < source.members.len());
        assert(rules[j].source == pos[j] as usize);
    }
    lemma_first_for_found(rules, k, rules.len() as int);
}

/// Where every variant has a name and two selections split the names of the
/// variants between them, extracting by the one is excluding by the other.
pub proof fn lemma_extract_is_exclude_of_the_rest(
    source: SchemaModel,
    selection: Seq<Seq<char>>,
    rest: Seq<Seq<char>>,
)
    requires
        forall|i: int|
            0 <= i < source.members.len() ==> (#[trigger] source.members[i]).name is Some
                && selection.contains(source.members[i].name->0) != rest.contains(
                source.members[i].name->0,
            ),
    ensures
        extracted(source, selection) == excluded(source, rest),
        extracted(source, rest) == excluded(source, selection),
{
    lemma_filter_agrees_on(
        source.members,
        |m: MemberModel| m.named_in(selection),
        |m: MemberModel| !m.named_in(rest),
    );
    lemma_filter_agrees_on(
        source.members,
        |m: MemberModel| m.named_in(rest),
        |m: MemberModel| !m.named_in(selection),
    );
}

} // verus!
