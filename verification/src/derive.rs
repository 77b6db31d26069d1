//! What the six operations have in common: which members are kept, what
//! becomes of a kept member, and which plans go with the derived schema.

use crate::filter::{default_forward_attrs, filter_forward_attrs, FilterModel, ForwardAttrsFilter};
use crate::meta::{Diagnostic, Violation};
use crate::operation::{specs_view, OperationKind, OperationSpec, SpecModel};
use crate::path::IdentList;
use crate::plan::{
    plans_view, rules_view, ConversionPlan, Direction, MappingModel, MappingRule, PlanModel,
    RuleKind, RuleModel,
};
use crate::schema::{
    clone_text_opt, members_view, DerivedModel, DerivedSchema, Member, MemberModel,
    SchemaModel, SourceSchema,
};
use crate::types::TypeModel;
use crate::validate::{all_valid, check_spec, findings, lemma_no_findings_iff_valid, validate};
use vstd::prelude::*;

verus! {

/// What one operation yields: the derived schema and the plans that lead
/// between its values and those of the source.
#[derive(Debug, PartialEq, Eq)]
pub struct Derivation {
    pub schema: DerivedSchema,
    pub plans: Vec<ConversionPlan>,
}

/// What a [`Derivation`] stands for in contracts.
pub struct DerivationModel {
    pub schema: DerivedModel,
    pub plans: Seq<PlanModel>,
}

impl View for Derivation {
    type V = DerivationModel;

    open spec fn view(&self) -> DerivationModel {
        DerivationModel { schema: self.schema@, plans: plans_view(self.plans@) }
    }
}

/// Whether the operation keeps the member, given the names it selects by.
pub open spec fn keeps(kind: OperationKind, m: MemberModel, selection: Seq<Seq<char>>) -> bool {
    match kind {
        OperationKind::Pick | OperationKind::Extract => m.named_in(selection),
        OperationKind::Omit | OperationKind::Exclude => !m.named_in(selection),
        OperationKind::Partial | OperationKind::Required => true,
    }
}

/// The type that the operation gives to a kept member of type `ty`.
pub open spec fn rewritten(kind: OperationKind, ty: TypeModel) -> TypeModel {
    match kind {
        OperationKind::Partial => ty.optional(),
        OperationKind::Required => ty.required(),
        _ => ty,
    }
}

/// The filter in force for the derived declaration itself: that of the
/// operation, else that of the source, else the standard one.
pub open spec fn scope_filter(source: SchemaModel, spec: SpecModel) -> FilterModel {
    FilterModel::resolve(FilterModel::All, spec.forward_attrs, source.forward_attrs)
}

/// What becomes of a kept member: its type is rewritten, and of its
/// annotations those are left that the filter in force for it lets through.
pub open spec fn derived_member(
    kind: OperationKind,
    m: MemberModel,
    scope: FilterModel,
) -> MemberModel {
    MemberModel {
        name: m.name,
        vis: m.vis,
        ty: rewritten(kind, m.ty),
        annotations: m.forward_attrs.compose(scope).forwarded(m.annotations),
        forward_attrs: m.forward_attrs,
        default: m.default,
    }
}

/// The members of the derived schema: the kept members of the source, in the
/// order of the source, each as the operation leaves it.
pub open spec fn derived_members(
    kind: OperationKind,
    source: SchemaModel,
    spec: SpecModel,
) -> Seq<MemberModel> {
    source.members.filter(|m: MemberModel| keeps(kind, m, spec.selected())).map_values(
        |m: MemberModel| derived_member(kind, m, scope_filter(source, spec)),
    )
}

/// The positions, among the first `n` members, of those that are kept, in
/// rising order.
pub open spec fn kept(
    kind: OperationKind,
    members: Seq<MemberModel>,
    selection: Seq<Seq<char>>,
    n: int,
) -> Seq<int>
    decreases n,
{
    if n <= 0 {
        Seq::empty()
    } else if keeps(kind, members[n - 1], selection) {
        kept(kind, members, selection, n - 1).push(n - 1)
    } else {
        kept(kind, members, selection, n - 1)
    }
}

/// What is done to the value of a kept member on the way from the source to
/// the derived schema.
pub open spec fn forward_rule(kind: OperationKind, m: MemberModel) -> RuleModel {
    match kind {
        OperationKind::Partial => RuleModel::WrapOptional,
        OperationKind::Required => if m.ty.is_optional() {
            RuleModel::UnwrapOptional(m.default)
        } else {
            RuleModel::Identity
        },
        _ => RuleModel::Identity,
    }
}

/// The rules that lead from the source to the derived schema.
pub open spec fn forward_rules(
    kind: OperationKind,
    members: Seq<MemberModel>,
    selection: Seq<Seq<char>>,
) -> Seq<MappingModel> {
    kept(kind, members, selection, members.len() as int).map_values(
        |i: int| MappingModel { source: i as usize, kind: forward_rule(kind, members[i]) },
    )
}

/// The rules that lead back from a schema of optional members to the source.
pub open spec fn backward_rules(
    kind: OperationKind,
    members: Seq<MemberModel>,
    selection: Seq<Seq<char>>,
) -> Seq<MappingModel> {
    kept(kind, members, selection, members.len() as int).map_values(
        |i: int|
            MappingModel { source: i as usize, kind: RuleModel::UnwrapOptional(members[i].default) },
    )
}

/// The plans that go with the derived schema.
///
/// Partial has one plan each way. Exclude has one plan that leads both ways.
/// The others have one plan, from the source to the derived schema.
pub open spec fn plans(kind: OperationKind, source: SchemaModel, spec: SpecModel) -> Seq<
    PlanModel,
> {
    let forward = forward_rules(kind, source.members, spec.selected());
    match kind {
        OperationKind::Partial => seq![
            PlanModel { direction: Direction::SourceToDerived, rules: forward },
            PlanModel {
                direction: Direction::DerivedToSource,
                rules: backward_rules(kind, source.members, spec.selected()),
            },
        ],
        OperationKind::Exclude => seq![PlanModel { direction: Direction::Both, rules: forward }],
        _ => seq![PlanModel { direction: Direction::SourceToDerived, rules: forward }],
    }
}

/// The schema that the operation derives, for a spec that names its target.
pub open spec fn derived_schema(
    kind: OperationKind,
    source: SchemaModel,
    spec: SpecModel,
) -> DerivedModel {
    DerivedModel {
        kind: kind.applies_to(),
        name: spec.ident->0,
        vis: source.vis,
        generics: source.generics,
        decorations: spec.derive,
        annotations: scope_filter(source, spec).forwarded(source.annotations),
        members: derived_members(kind, source, spec),
    }
}

/// What the operation yields.
pub open spec fn derivation(
    kind: OperationKind,
    source: SchemaModel,
    spec: SpecModel,
) -> DerivationModel {
    DerivationModel {
        schema: derived_schema(kind, source, spec),
        plans: plans(kind, source, spec),
    }
}

/// What stands against applying the operation `kind` to `source` as `spec`
/// says: the spec is written for another operation, the source is of the
/// wrong kind, the spec itself has gaps. All are found at position 0.
pub open spec fn objections(kind: OperationKind, source: SchemaModel, spec: SpecModel) -> Seq<
    Diagnostic,
> {
    (if spec.kind != kind {
        seq![Diagnostic { location: 0, violation: Violation::WrongOperation }]
    } else {
        Seq::empty()
    }) + (if source.kind != kind.applies_to() {
        seq![Diagnostic { location: 0, violation: Violation::UnsupportedShape }]
    } else {
        Seq::empty()
    }) + spec.own_findings(0)
}

/// The member with those of its annotations that the filter in force for it
/// lets through, and otherwise unchanged.
pub open spec fn with_forwarded(m: MemberModel, scope: FilterModel) -> MemberModel {
    MemberModel {
        name: m.name,
        vis: m.vis,
        ty: m.ty,
        annotations: m.forward_attrs.compose(scope).forwarded(m.annotations),
        forward_attrs: m.forward_attrs,
        default: m.default,
    }
}

/// The rules that take over, unchanged, the values of the members at the
/// given positions of the source.
pub open spec fn identity_rules(positions: Seq<int>) -> Seq<MappingModel> {
    positions.map_values(|i: int| MappingModel { source: i as usize, kind: RuleModel::Identity })
}

/// All positions below `n`, in rising order.
pub open spec fn positions(n: nat) -> Seq<int> {
    Seq::new(n, |i: int| i)
}

/// Filtering by two conditions that agree on every value gives the same.
pub proof fn lemma_filter_agrees<A>(s: Seq<A>, p: spec_fn(A) -> bool, q: spec_fn(A) -> bool)
    requires
        forall|x: A| #[trigger] p(x) == q(x),
    ensures
        s.filter(p) == s.filter(q),
    decreases s.len(),
{
    reveal(Seq::filter);
    if s.len() > 0 {
        lemma_filter_agrees(s.drop_last(), p, q);
    }
}

/// What stands against applying the operation.
pub fn precheck(kind: OperationKind, source: &SourceSchema, spec: &OperationSpec) -> (r: Vec<
    Diagnostic,
>)
    ensures
        r@ == objections(kind, source@, spec@),
{
    let mut out: Vec<Diagnostic> = Vec::new();
    if spec.kind != kind {
        out.push(Diagnostic::new(0, Violation::WrongOperation));
    }
    if source.kind != kind.source_kind() {
        out.push(Diagnostic::new(0, Violation::UnsupportedShape));
    }
    let ghost before = out@;
    let mut own = check_spec(spec, 0);
    out.append(&mut own);
    assert(out@ =~= objections(kind, source@, spec@));
    out
}

/// Whether the member has a name and the selection holds it.
fn is_named_in(member: &Member, selection: &Option<IdentList>) -> (r: bool)
    ensures
        r == member@.named_in(
            match selection {
                Some(s) => s@,
                None => Seq::empty(),
            },
        ),
{
    match (&member.name, selection) {
        (Some(name), Some(list)) => list.contains(name),
        _ => false,
    }
}

/// Whether the operation keeps the member.
fn is_kept(kind: OperationKind, member: &Member, selection: &Option<IdentList>) -> (r: bool)
    ensures
        r == keeps(
            kind,
            member@,
            match selection {
                Some(s) => s@,
                None => Seq::empty(),
            },
        ),
{
    match kind {
        OperationKind::Pick | OperationKind::Extract => is_named_in(member, selection),
        OperationKind::Omit | OperationKind::Exclude => !is_named_in(member, selection),
        OperationKind::Partial | OperationKind::Required => true,
    }
}

/// The kept member as the operation leaves it.
fn derive_member(kind: OperationKind, member: &Member, scope: &ForwardAttrsFilter) -> (r: Member)
    ensures
        r@ == derived_member(kind, member@, scope@),
{
    let ty = match kind {
        OperationKind::Partial => member.ty.wrap_optional(),
        OperationKind::Required => member.ty.required().clone(),
        _ => member.ty.clone(),
    };
    Member {
        name: clone_text_opt(&member.name),
        vis: member.vis.clone(),
        ty,
        annotations: filter_forward_attrs(
            &member.annotations,
            member.forward_attrs.compose(scope),
        ),
        forward_attrs: member.forward_attrs.clone(),
        default: clone_text_opt(&member.default),
    }
}

/// The rule for the value of a kept member on the way to the derived schema.
fn forward_rule_of(kind: OperationKind, member: &Member) -> (r: RuleKind)
    ensures
        r@ == forward_rule(kind, member@),
{
    match kind {
        OperationKind::Partial => RuleKind::WrapOptional,
        OperationKind::Required => if member.ty.is_optional() {
            RuleKind::UnwrapOptional(clone_text_opt(&member.default))
        } else {
            RuleKind::Identity
        },
        _ => RuleKind::Identity,
    }
}

/// What the operation `kind` yields for `source` and `spec`, where nothing
/// stands against applying it.
fn derive_unchecked(kind: OperationKind, source: &SourceSchema, spec: &OperationSpec) -> (r:
    Derivation)
    requires
        spec@.ident is Some,
    ensures
        r@ == derivation(kind, source@, spec@),
{
    let standard = default_forward_attrs();
    let scope = spec.forward_attrs.compose(source.forward_attrs.compose(&standard));
    let ghost all = members_view(source.members@);
    let ghost selection = spec@.selected();
    let ghost pred = |m: MemberModel| keeps(kind, m, selection);
    let ghost change = |m: MemberModel| derived_member(kind, m, scope@);
    let ghost forward_of = |i: int|
        MappingModel { source: i as usize, kind: forward_rule(kind, all[i]) };
    let ghost backward_of = |i: int|
        MappingModel { source: i as usize, kind: RuleModel::UnwrapOptional(all[i].default) };
    let mut members: Vec<Member> = Vec::new();
    let mut forward: Vec<MappingRule> = Vec::new();
    let mut backward: Vec<MappingRule> = Vec::new();
    let mut i: usize = 0;
    proof {
        reveal(Seq::filter);
        assert(all.take(0) =~= Seq::<MemberModel>::empty());
        assert(members_view(members@) =~= all.take(0).filter(pred).map_values(change));
        assert(rules_view(forward@) =~= kept(kind, all, selection, 0).map_values(forward_of));
        assert(rules_view(backward@) =~= kept(kind, all, selection, 0).map_values(backward_of));
    }
    while i < source.members.len()
        invariant
            0 <= i <= source.members.len(),
            all == members_view(source.members@),
            selection == spec@.selected(),
            pred == (|m: MemberModel| keeps(kind, m, selection)),
            change == (|m: MemberModel| derived_member(kind, m, scope@)),
            forward_of == (|i: int|
                MappingModel { source: i as usize, kind: forward_rule(kind, all[i]) }),
            backward_of == (|i: int|
                MappingModel {
                    source: i as usize,
                    kind: RuleModel::UnwrapOptional(all[i].default),
                }),
            members_view(members@) == all.take(i as int).filter(pred).map_values(change),
            rules_view(forward@) == kept(kind, all, selection, i as int).map_values(forward_of),
            rules_view(backward@) == kept(kind, all, selection, i as int).map_values(
                backward_of,
            ),
        decreases source.members.len() - i,
    {
        let member = &source.members[i];
        let ghost members_before = members_view(members@);
        let ghost forward_before = rules_view(forward@);
        let ghost backward_before = rules_view(backward@);
        let ghost kept_before = kept(kind, all, selection, i as int);
        proof {
            assert(all[i as int] == member@);
            assert(all.take(i + 1) =~= all.take(i as int).push(all[i as int]));
            all.take(i as int).lemma_filter_push(all[i as int], pred);
        }
        if is_kept(kind, member, &spec.selection) {
            members.push(derive_member(kind, member, scope));
            forward.push(MappingRule { source: i, kind: forward_rule_of(kind, member) });
            backward.push(
                MappingRule {
                    source: i,
                    kind: RuleKind::UnwrapOptional(clone_text_opt(&member.default)),
                },
            );
            proof {
                assert(members_view(members@) =~= members_before.push(change(all[i as int])));
                assert(all.take(i as int).filter(pred).push(all[i as int]).map_values(change)
                    =~= members_before.push(change(all[i as int])));
                assert(rules_view(forward@) =~= forward_before.push(forward_of(i as int)));
                assert(kept_before.push(i as int).map_values(forward_of) =~= forward_before.push(
                    forward_of(i as int),
                ));
                assert(rules_view(backward@) =~= backward_before.push(backward_of(i as int)));
                assert(kept_before.push(i as int).map_values(backward_of)
                    =~= backward_before.push(backward_of(i as int)));
            }
        }
        i += 1;
    }
    proof {
        assert(all.take(source.members.len() as int) =~= all);
        assert(rules_view(forward@) == forward_rules(kind, all, selection));
        assert(rules_view(backward@) == backward_rules(kind, all, selection));
    }
    let mut plans_out: Vec<ConversionPlan> = Vec::new();
    match kind {
        OperationKind::Partial => {
            plans_out.push(ConversionPlan { direction: Direction::SourceToDerived, rules: forward });
            plans_out.push(
                ConversionPlan { direction: Direction::DerivedToSource, rules: backward },
            );
        },
        OperationKind::Exclude => {
            plans_out.push(ConversionPlan { direction: Direction::Both, rules: forward });
        },
        _ => {
            plans_out.push(ConversionPlan { direction: Direction::SourceToDerived, rules: forward });
        },
    }
    assert(plans_view(plans_out@) =~= plans(kind, source@, spec@));
    let name = match &spec.ident {
        Some(t) => t.clone(),
        None => String::new(),
    };
    let decorations = match &spec.derive {
        Some(list) => Some(list.clone()),
        None => None,
    };
    let schema = DerivedSchema {
        kind: kind.source_kind(),
        name,
        vis: source.vis.clone(),
        generics: source.generics.clone(),
        decorations,
        annotations: filter_forward_attrs(&source.annotations, scope),
        members,
    };
    Derivation { schema, plans: plans_out }
}

/// What the operation `kind` yields for `source` and `spec`, or what stands
/// against applying it.
pub fn derive_one(kind: OperationKind, source: &SourceSchema, spec: &OperationSpec) -> (r: Result<
    Derivation,
    Vec<Diagnostic>,
>)
    ensures
        match r {
            Ok(d) => objections(kind, source@, spec@).len() == 0 && d@ == derivation(
                kind,
                source@,
                spec@,
            ),
            Err(e) => e@.len() > 0 && e@ == objections(kind, source@, spec@),
        },
{
    let found = precheck(kind, source, spec);
    if found.len() > 0 {
        return Err(found);
    }
    assert(spec@.ident is Some) by {
        if spec@.ident is None {
            assert(spec@.own_findings(0).len() > 0);
        }
    }
    Ok(derive_unchecked(kind, source, spec))
}

/// The findings on the kind of the source, for the first `n` specs: one for
/// each spec whose operation does not apply to a schema of that kind.
pub open spec fn shape_findings(source: SchemaModel, specs: Seq<SpecModel>, n: int) -> Seq<
    Diagnostic,
>
    decreases n,
{
    if n <= 0 {
        Seq::empty()
    } else if source.kind != specs[n - 1].kind.applies_to() {
        shape_findings(source, specs, n - 1).push(
            Diagnostic { location: (n - 1) as usize, violation: Violation::UnsupportedShape },
        )
    } else {
        shape_findings(source, specs, n - 1)
    }
}

/// Everything that stands against applying the specs to the source: the
/// findings on the specs, then those on the kind of the source.
pub open spec fn all_findings(source: SchemaModel, specs: Seq<SpecModel>) -> Seq<Diagnostic> {
    findings(specs, specs.len() as int) + shape_findings(source, specs, specs.len() as int)
}

/// There is no finding on the kind of the source exactly when every
/// operation applies to a schema of that kind.
pub proof fn lemma_shape_findings_empty(source: SchemaModel, specs: Seq<SpecModel>, n: int)
    requires
        0 <= n <= specs.len(),
    ensures
        (shape_findings(source, specs, n).len() == 0) <==> (forall|i: int|
            0 <= i < n ==> source.kind == (#[trigger] specs[i]).kind.applies_to()),
    decreases n,
{
    if n > 0 {
        lemma_shape_findings_empty(source, specs, n - 1);
    }
}

/// Applies every spec to the source, or reports everything that stands
/// against doing so.
///
/// The specs are those written on one declaration. Either all of them are
/// applied, each by its own operation and in the order given, or none is and
/// every finding is returned: those of [`validate`], then one for each spec
/// whose operation does not apply to a schema of the source's kind.
pub fn derive_all(source: &SourceSchema, specs: &Vec<OperationSpec>) -> (r: Result<
    Vec<Derivation>,
    Vec<Diagnostic>,
>)
    ensures
        match r {
            Ok(ds) => {
                &&& all_findings(source@, specs_view(specs@)).len() == 0
                &&& ds@.len() == specs@.len()
                &&& forall|i: int|
                    0 <= i < specs@.len() ==> (#[trigger] ds@[i])@ == derivation(
                        specs@[i].kind,
                        source@,
                        specs@[i]@,
                    )
            },
            Err(e) => e@.len() > 0 && e@ == all_findings(source@, specs_view(specs@)),
        },
{
    let ghost models = specs_view(specs@);
    let mut found = validate(specs);
    let ghost on_specs = found@;
    let mut i: usize = 0;
    while i < specs.len()
        invariant
            0 <= i <= specs.len(),
            models == specs_view(specs@),
            found@ == on_specs + shape_findings(source@, models, i as int),
        decreases specs.len() - i,
    {
        let ghost before = found@;
        if source.kind != specs[i].kind.source_kind() {
            found.push(Diagnostic::new(i, Violation::UnsupportedShape));
            assert(found@ =~= on_specs + shape_findings(source@, models, i + 1));
        }
        i += 1;
    }
    if found.len() > 0 {
        return Err(found);
    }
    proof {
        assert(on_specs.len() == 0);
        lemma_no_findings_iff_valid(models);
        assert(all_valid(models));
    }
    let mut out: Vec<Derivation> = Vec::new();
    let mut k: usize = 0;
    while k < specs.len()
        invariant
            0 <= k <= specs.len(),
            models == specs_view(specs@),
            all_valid(models),
            out@.len() == k,
            forall|j: int|
                0 <= j < k ==> (#[trigger] out@[j])@ == derivation(
                    specs@[j].kind,
                    source@,
                    specs@[j]@,
                ),
        decreases specs.len() - k,
    {
        proof {
            assert(models[k as int] == specs@[k as int]@);
            assert(models[k as int].well_formed());
        }
        out.push(derive_unchecked(specs[k].kind, source, &specs[k]));
        k += 1;
    }
    Ok(out)
}

/// Filtering by two conditions that agree on every entry of the sequence
/// gives the same.
pub proof fn lemma_filter_agrees_on<A>(s: Seq<A>, p: spec_fn(A) -> bool, q: spec_fn(A) -> bool)
    requires
        forall|i: int| 0 <= i < s.len() ==> p(#[trigger] s[i]) == q(s[i]),
    ensures
        s.filter(p) == s.filter(q),
    decreases s.len(),
{
    reveal(Seq::filter);
    if s.len() > 0 {
        assert forall|i: int| 0 <= i < s.drop_last().len() implies p(#[trigger] s.drop_last()[i])
            == q(s.drop_last()[i]) by {
            assert(s.drop_last()[i] == s[i]);
        }
        lemma_filter_agrees_on(s.drop_last(), p, q);
        assert(p(s[s.len() - 1]) == q(s[s.len() - 1]));
    }
}

/// The names of the given members, in order; `None` for a member without one.
pub open spec fn names_of(members: Seq<MemberModel>) -> Seq<Option<Seq<char>>> {
    members.map_values(|m: MemberModel| m.name)
}

/// A name is among the members that are kept by name exactly when the
/// selection holds it and a member of the source has it; it is among the
/// members that are left after dropping by name exactly when the selection
/// does not hold it and a member of the source has it.
pub proof fn lemma_names_selected(
    members: Seq<MemberModel>,
    selection: Seq<Seq<char>>,
    name: Seq<char>,
)
    ensures
        names_of(members.filter(|m: MemberModel| m.named_in(selection))).contains(Some(name)) <==> (
        selection.contains(name) && names_of(members).contains(Some(name))),
        names_of(members.filter(|m: MemberModel| !m.named_in(selection))).contains(Some(name))
            <==> (!selection.contains(name) && names_of(members).contains(Some(name))),
{
    let keep = |m: MemberModel| m.named_in(selection);
    let drop = |m: MemberModel| !m.named_in(selection);
    let all = names_of(members);
    lemma_names_filtered(members, keep, name);
    lemma_names_filtered(members, drop, name);
    if names_of(members.filter(keep)).contains(Some(name)) {
        let m = choose|m: MemberModel| members.contains(m) && keep(m) && m.name == Some(name);
        assert(selection.contains(name));
    }
    if names_of(members.filter(drop)).contains(Some(name)) {
        let m = choose|m: MemberModel| members.contains(m) && drop(m) && m.name == Some(name);
        assert(!selection.contains(name));
    }
    if all.contains(Some(name)) {
        let i = choose|i: int| 0 <= i < all.len() && all[i] == Some(name);
        assert(members.contains(members[i]));
        assert(members[i].name == Some(name));
        if selection.contains(name) {
            assert(keep(members[i]));
        } else {
            assert(drop(members[i]));
        }
    }
}

/// A name is among the filtered members exactly when a member of the source
/// has it and passes the filter.
proof fn lemma_names_filtered(
    members: Seq<MemberModel>,
    pred: spec_fn(MemberModel) -> bool,
    name: Seq<char>,
)
    ensures
        names_of(members.filter(pred)).contains(Some(name)) <==> (exists|m: MemberModel|
            members.contains(m) && pred(m) && m.name == Some(name)),
        (exists|m: MemberModel| members.contains(m) && pred(m) && m.name == Some(name))
            ==> names_of(members).contains(Some(name)),
{
    let kept = members.filter(pred);
    let kept_names = names_of(kept);
    if kept_names.contains(Some(name)) {
        let k = choose|k: int| 0 <= k < kept_names.len() && kept_names[k] == Some(name);
        members.lemma_filter_pred(pred, k);
        assert(kept.contains(kept[k]));
        members.lemma_filter_contains_rev(pred, kept[k]);
        assert(members.contains(kept[k]) && pred(kept[k]) && kept[k].name == Some(name));
    }
    if exists|m: MemberModel| members.contains(m) && pred(m) && m.name == Some(name) {
        let m = choose|m: MemberModel| members.contains(m) && pred(m) && m.name == Some(name);
        let i = choose|i: int| 0 <= i < members.len() && members[i] == m;
        members.lemma_filter_contains(pred, i);
        let k = choose|k: int| 0 <= k < kept.len() && kept[k] == m;
        assert(kept_names[k] == Some(name));
        assert(names_of(members)[i] == Some(name));
    }
}

/// A selection counts as a set of names: two selections that hold the same
/// names, in whatever order and however often, select the same members.
pub proof fn lemma_selection_by_membership(
    kind: OperationKind,
    members: Seq<MemberModel>,
    a: Seq<Seq<char>>,
    b: Seq<Seq<char>>,
)
    requires
        a.to_set() == b.to_set(),
    ensures
        forall|m: MemberModel| keeps(kind, m, a) == keeps(kind, m, b),
        members.filter(|m: MemberModel| keeps(kind, m, a)) == members.filter(
            |m: MemberModel| keeps(kind, m, b),
        ),
        kept(kind, members, a, members.len() as int) == kept(
            kind,
            members,
            b,
            members.len() as int,
        ),
{
    assert forall|m: MemberModel| keeps(kind, m, a) == keeps(kind, m, b) by {
        if m.name is Some {
            assert(a.contains(m.name->0) == a.to_set().contains(m.name->0));
            assert(b.contains(m.name->0) == b.to_set().contains(m.name->0));
        }
    }
    lemma_filter_agrees(
        members,
        |m: MemberModel| keeps(kind, m, a),
        |m: MemberModel| keeps(kind, m, b),
    );
    lemma_kept_agrees(kind, members, a, b, members.len() as int);
}

proof fn lemma_kept_agrees(
    kind: OperationKind,
    members: Seq<MemberModel>,
    a: Seq<Seq<char>>,
    b: Seq<Seq<char>>,
    n: int,
)
    requires
        forall|m: MemberModel| keeps(kind, m, a) == keeps(kind, m, b),
    ensures
        kept(kind, members, a, n) == kept(kind, members, b, n),
    decreases n,
{
    if n > 0 {
        lemma_kept_agrees(kind, members, a, b, n - 1);
    }
}

/// Filtering by a condition that holds of every value changes nothing.
pub proof fn lemma_filter_all<A>(s: Seq<A>, p: spec_fn(A) -> bool)
    requires
        forall|x: A| #[trigger] p(x),
    ensures
        s.filter(p) == s,
    decreases s.len(),
{
    reveal(Seq::filter);
    if s.len() > 0 {
        lemma_filter_all(s.drop_last(), p);
        assert(s.drop_last().push(s.last()) =~= s);
    }
}

/// Filtering by a condition and by its opposite splits a sequence in two:
/// together the two parts hold every entry exactly as often as the sequence
/// holds it.
pub proof fn lemma_filter_splits<A>(s: Seq<A>, p: spec_fn(A) -> bool, q: spec_fn(A) -> bool)
    requires
        forall|x: A| #[trigger] p(x) != q(x),
    ensures
        s.filter(p).len() + s.filter(q).len() == s.len(),
        s.filter(p).to_multiset().add(s.filter(q).to_multiset()) == s.to_multiset(),
        forall|x: A| !(s.filter(p).contains(x) && s.filter(q).contains(x)),
    decreases s.len(),
{
    broadcast use vstd::seq_lib::group_to_multiset_ensures;

    reveal(Seq::filter);
    if s.len() == 0 {
        assert(s.filter(p).to_multiset().add(s.filter(q).to_multiset()) =~= s.to_multiset());
    } else {
        let front = s.drop_last();
        let last = s.last();
        lemma_filter_splits(front, p, q);
        assert(front.push(last) =~= s);
        assert(p(last) != q(last));
        if p(last) {
            assert(s.filter(p) == front.filter(p).push(last));
            assert(s.filter(q) == front.filter(q));
        } else {
            assert(s.filter(p) == front.filter(p));
            assert(s.filter(q) == front.filter(q).push(last));
        }
        assert(s.filter(p).to_multiset().add(s.filter(q).to_multiset()) =~= front.to_multiset().insert(
            last,
        ));
    }
    assert forall|x: A| !(s.filter(p).contains(x) && s.filter(q).contains(x)) by {
        if s.filter(p).contains(x) && s.filter(q).contains(x) {
            let i = choose|i: int| 0 <= i < s.filter(p).len() && s.filter(p)[i] == x;
            s.lemma_filter_pred(p, i);
            let j = choose|j: int| 0 <= j < s.filter(q).len() && s.filter(q)[j] == x;
            s.lemma_filter_pred(q, j);
            assert(p(x) != q(x));
        }
    }
}

/// The kept positions are exactly the positions of the members that the
/// operation keeps, and they stand in rising order.
pub proof fn lemma_kept_positions(
    kind: OperationKind,
    members: Seq<MemberModel>,
    selection: Seq<Seq<char>>,
    n: int,
)
    requires
        0 <= n <= members.len(),
    ensures
        forall|i: int|
            kept(kind, members, selection, n).contains(i) <==> (0 <= i < n && keeps(
                kind,
                #[trigger] members[i],
                selection,
            )),
        forall|a: int, b: int|
            #![trigger kept(kind, members, selection, n)[a], kept(kind, members, selection, n)[b]]
            0 <= a < b < kept(kind, members, selection, n).len() ==> kept(
                kind,
                members,
                selection,
                n,
            )[a] < kept(kind, members, selection, n)[b],
        forall|a: int|
            0 <= a < kept(kind, members, selection, n).len() ==> 0 <= (#[trigger] kept(
                kind,
                members,
                selection,
                n,
            )[a]) < n,
        kept(kind, members, selection, n).len() <= n,
    decreases n,
{
    let now = kept(kind, members, selection, n);
    if n > 0 {
        let before = kept(kind, members, selection, n - 1);
        lemma_kept_positions(kind, members, selection, n - 1);
        assert forall|i: int| now.contains(i) <==> (0 <= i < n && keeps(
            kind,
            #[trigger] members[i],
            selection,
        )) by {
            if keeps(kind, members[n - 1], selection) {
                assert(now == before.push(n - 1));
                if now.contains(i) {
                    let a = choose|a: int| 0 <= a < now.len() && now[a] == i;
                    if a < before.len() {
                        assert(before[a] == i);
                        assert(before.contains(i));
                    }
                }
                if 0 <= i < n && keeps(kind, members[i], selection) {
                    if i == n - 1 {
                        assert(now[now.len() - 1] == i);
                    } else {
                        assert(before.contains(i));
                        let a = choose|a: int| 0 <= a < before.len() && before[a] == i;
                        assert(now[a] == i);
                    }
                }
            } else {
                assert(now == before);
            }
        }
    } else {
        assert forall|i: int| !now.contains(i) by {
            assert(now.len() == 0);
        }
    }
}

/// The members of the derived schema are the members of the source at the
/// kept positions, each as the operation leaves it: what is derived follows
/// the order of the source and never changes it.
pub proof fn lemma_members_by_position(
    kind: OperationKind,
    source: SchemaModel,
    spec: SpecModel,
)
    ensures
        derived_members(kind, source, spec) == kept(
            kind,
            source.members,
            spec.selected(),
            source.members.len() as int,
        ).map_values(
            |i: int| derived_member(kind, source.members[i], scope_filter(source, spec)),
        ),
{
    lemma_prefix_by_position(kind, source, spec, source.members.len() as int);
    assert(source.members.take(source.members.len() as int) =~= source.members);
}

proof fn lemma_prefix_by_position(
    kind: OperationKind,
    source: SchemaModel,
    spec: SpecModel,
    n: int,
)
    requires
        0 <= n <= source.members.len(),
    ensures
        source.members.take(n).filter(|m: MemberModel| keeps(kind, m, spec.selected())).map_values(
            |m: MemberModel| derived_member(kind, m, scope_filter(source, spec)),
        ) == kept(kind, source.members, spec.selected(), n).map_values(
            |i: int| derived_member(kind, source.members[i], scope_filter(source, spec)),
        ),
    decreases n,
{
    let all = source.members;
    let pred = |m: MemberModel| keeps(kind, m, spec.selected());
    let change = |m: MemberModel| derived_member(kind, m, scope_filter(source, spec));
    let by_position = |i: int| derived_member(kind, source.members[i], scope_filter(source, spec));
    reveal(Seq::filter);
    if n == 0 {
        assert(all.take(0) =~= Seq::<MemberModel>::empty());
        assert(all.take(0).filter(pred).map_values(change) =~= kept(
            kind,
            all,
            spec.selected(),
            0,
        ).map_values(by_position));
    } else {
        lemma_prefix_by_position(kind, source, spec, n - 1);
        assert(all.take(n) =~= all.take(n - 1).push(all[n - 1]));
        all.take(n - 1).lemma_filter_push(all[n - 1], pred);
        let before = kept(kind, all, spec.selected(), n - 1);
        if pred(all[n - 1]) {
            assert(all.take(n - 1).filter(pred).push(all[n - 1]).map_values(change) =~= all.take(
                n - 1,
            ).filter(pred).map_values(change).push(change(all[n - 1])));
            assert(before.push(n - 1).map_values(by_position) =~= before.map_values(
                by_position,
            ).push(by_position(n - 1)));
        }
    }
}

/// Where the operation keeps every member, the kept positions are all positions.
pub proof fn lemma_kept_all(
    kind: OperationKind,
    members: Seq<MemberModel>,
    selection: Seq<Seq<char>>,
    n: int,
)
    requires
        0 <= n <= members.len(),
        !kind.selects(),
    ensures
        kept(kind, members, selection, n) == positions(n as nat),
    decreases n,
{
    if n > 0 {
        lemma_kept_all(kind, members, selection, n - 1);
        assert(positions((n - 1) as nat).push(n - 1) =~= positions(n as nat));
    } else {
        assert(kept(kind, members, selection, n) =~= positions(0));
    }
}

/// For an operation that selects by name, the derived schema holds the
/// members that the operation keeps, in the order of the source, with their
/// types as they are and with the annotations that are forwarded; and its
/// plan takes every kept value over unchanged.
pub proof fn lemma_selecting(
    kind: OperationKind,
    source: SchemaModel,
    spec: SpecModel,
    keep: spec_fn(MemberModel) -> bool,
)
    requires
        kind.selects(),
        forall|m: MemberModel| #[trigger] keep(m) == keeps(kind, m, spec.selected()),
    ensures
        derived_members(kind, source, spec) == source.members.filter(keep).map_values(
            |m: MemberModel| with_forwarded(m, scope_filter(source, spec)),
        ),
        forward_rules(kind, source.members, spec.selected()) == identity_rules(
            kept(kind, source.members, spec.selected(), source.members.len() as int),
        ),
{
    let pred = |m: MemberModel| keeps(kind, m, spec.selected());
    lemma_filter_agrees(source.members, keep, pred);
    assert(source.members.filter(pred).map_values(
        |m: MemberModel| derived_member(kind, m, scope_filter(source, spec)),
    ) =~= source.members.filter(pred).map_values(
        |m: MemberModel| with_forwarded(m, scope_filter(source, spec)),
    ));
    assert(forward_rules(kind, source.members, spec.selected()) =~= identity_rules(
        kept(kind, source.members, spec.selected(), source.members.len() as int),
    ));
}

/// Two operations that select by the same names, one keeping what is named
/// and the other what is not, split the members of the source between them:
/// every position is kept by exactly one of the two.
pub proof fn lemma_complementary(
    keeping: OperationKind,
    dropping: OperationKind,
    members: Seq<MemberModel>,
    selection: Seq<Seq<char>>,
)
    requires
        keeping is Pick || keeping is Extract,
        dropping is Omit || dropping is Exclude,
    ensures
        forall|i: int|
            0 <= i < members.len() ==> (kept(
                keeping,
                members,
                selection,
                members.len() as int,
            ).contains(i) != #[trigger] kept(
                dropping,
                members,
                selection,
                members.len() as int,
            ).contains(i)),
        kept(keeping, members, selection, members.len() as int).len() + kept(
            dropping,
            members,
            selection,
            members.len() as int,
        ).len() == members.len(),
{
    let n = members.len() as int;
    lemma_kept_positions(keeping, members, selection, n);
    lemma_kept_positions(dropping, members, selection, n);
    lemma_kept_lengths(keeping, dropping, members, selection, n);
    assert forall|i: int| 0 <= i < members.len() implies (kept(
        keeping,
        members,
        selection,
        n,
    ).contains(i) != #[trigger] kept(dropping, members, selection, n).contains(i)) by {
        assert(keeps(keeping, members[i], selection) != keeps(dropping, members[i], selection));
    }
}

proof fn lemma_kept_lengths(
    keeping: OperationKind,
    dropping: OperationKind,
    members: Seq<MemberModel>,
    selection: Seq<Seq<char>>,
    n: int,
)
    requires
        keeping is Pick || keeping is Extract,
        dropping is Omit || dropping is Exclude,
        0 <= n <= members.len(),
    ensures
        kept(keeping, members, selection, n).len() + kept(dropping, members, selection, n).len()
            == n,
    decreases n,
{
    if n > 0 {
        lemma_kept_lengths(keeping, dropping, members, selection, n - 1);
    }
}

} // verus!
