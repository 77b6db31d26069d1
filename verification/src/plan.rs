//! Conversion plans: how a value of a derived schema is made from a value of
//! its source, and the other way round.

use crate::schema::{clone_text_opt, text_opt};
use vstd::prelude::*;

verus! {

/// The direction in which a plan may be followed.
#[derive(Clone, Copy, Debug, PartialEq, Eq, Structural)]
pub enum Direction {
    /// From a value of the source to a value of the derived schema.
    SourceToDerived,
    /// From a value of the derived schema to a value of the source.
    DerivedToSource,
    /// Either way.
    Both,
}

/// What a rule does to the value of a member.
#[derive(Debug, PartialEq, Eq)]
pub enum RuleKind {
    /// The value is taken over as it is.
    Identity,
    /// The value is wrapped: `v` becomes `Some(v)`.
    WrapOptional,
    /// The value is unwrapped: `Some(v)` becomes `v`, and `None` becomes the
    /// declared default, or the default of the type where none is declared.
    UnwrapOptional(Option<String>),
}

/// What a [`RuleKind`] stands for in contracts.
pub enum RuleModel {
    Identity,
    WrapOptional,
    UnwrapOptional(Option<Seq<char>>),
}

impl View for RuleKind {
    type V = RuleModel;

    open spec fn view(&self) -> RuleModel {
        match self {
            RuleKind::Identity => RuleModel::Identity,
            RuleKind::WrapOptional => RuleModel::WrapOptional,
            RuleKind::UnwrapOptional(d) => RuleModel::UnwrapOptional(text_opt(*d)),
        }
    }
}

/// The rule for one member of the derived schema.
#[derive(Debug, PartialEq, Eq)]
pub struct MappingRule {
    /// The position, among the members of the source, of the member that the
    /// derived member corresponds to.
    pub source: usize,
    /// What is done to the value.
    pub kind: RuleKind,
}

/// What a [`MappingRule`] stands for in contracts.
pub struct MappingModel {
    pub source: usize,
    pub kind: RuleModel,
}

impl View for MappingRule {
    type V = MappingModel;

    open spec fn view(&self) -> MappingModel {
        MappingModel { source: self.source, kind: self.kind@ }
    }
}

/// The models of a sequence of rules.
pub open spec fn rules_view(v: Seq<MappingRule>) -> Seq<MappingModel> {
    v.map_values(|r: MappingRule| r@)
}

/// A plan: one rule for each member of the derived schema, in the order of
/// its members, and the direction in which the rules may be followed.
#[derive(Debug, PartialEq, Eq)]
pub struct ConversionPlan {
    pub direction: Direction,
    pub rules: Vec<MappingRule>,
}

/// What a [`ConversionPlan`] stands for in contracts.
pub struct PlanModel {
    pub direction: Direction,
    pub rules: Seq<MappingModel>,
}

impl View for ConversionPlan {
    type V = PlanModel;

    open spec fn view(&self) -> PlanModel {
        PlanModel { direction: self.direction, rules: rules_view(self.rules@) }
    }
}

/// The models of a sequence of plans.
pub open spec fn plans_view(v: Seq<ConversionPlan>) -> Seq<PlanModel> {
    v.map_values(|p: ConversionPlan| p@)
}

/// The value of one member. What it holds is never looked into: a plan only
/// moves values, wraps them and unwraps them.
#[derive(Debug, PartialEq, Eq)]
pub enum Value {
    /// Some value, known by a text that stands for it.
    Atom(String),
    /// An optional value that is there.
    Present(Box<Value>),
    /// An optional value that is not there.
    Absent,
    /// The value of a declared default expression.
    Declared(String),
    /// The default value of the member's type.
    TypeDefault,
}

/// What a [`Value`] stands for in contracts.
pub enum ValueModel {
    Atom(Seq<char>),
    Present(Box<ValueModel>),
    Absent,
    Declared(Seq<char>),
    TypeDefault,
}

impl View for Value {
    type V = ValueModel;

    open spec fn view(&self) -> ValueModel
        decreases self,
    {
        match self {
            Value::Atom(t) => ValueModel::Atom(t@),
            Value::Present(v) => ValueModel::Present(Box::new((**v)@)),
            Value::Absent => ValueModel::Absent,
            Value::Declared(t) => ValueModel::Declared(t@),
            Value::TypeDefault => ValueModel::TypeDefault,
        }
    }
}

/// The models of a sequence of values.
pub open spec fn values_view(v: Seq<Value>) -> Seq<ValueModel> {
    v.map_values(|x: Value| x@)
}

impl Clone for Value {
    fn clone(&self) -> (r: Self)
        ensures
            r@ == self@,
        decreases self,
    {
        match self {
            Value::Atom(t) => Value::Atom(t.clone()),
            Value::Present(v) => Value::Present(Box::new((**v).clone())),
            Value::Absent => Value::Absent,
            Value::Declared(t) => Value::Declared(t.clone()),
            Value::TypeDefault => Value::TypeDefault,
        }
    }
}

/// A value of a schema: of a record the values of its fields in order, of a
/// tagged union the position of the variant and the variant's payload.
#[derive(Debug, PartialEq, Eq)]
pub enum Instance {
    Record(Vec<Value>),
    Variant { index: usize, payload: Value },
}

/// What an [`Instance`] stands for in contracts.
pub enum InstanceModel {
    Record(Seq<ValueModel>),
    Variant { index: usize, payload: ValueModel },
}

impl View for Instance {
    type V = InstanceModel;

    open spec fn view(&self) -> InstanceModel {
        match self {
            Instance::Record(fields) => InstanceModel::Record(values_view(fields@)),
            Instance::Variant { index, payload } => InstanceModel::Variant {
                index: *index,
                payload: payload@,
            },
        }
    }
}

/// The model of an optional instance.
pub open spec fn instance_opt(o: Option<Instance>) -> Option<InstanceModel> {
    match o {
        Some(i) => Some(i@),
        None => None,
    }
}

/// The model of an optional value.
pub open spec fn value_opt(o: Option<Value>) -> Option<ValueModel> {
    match o {
        Some(v) => Some(v@),
        None => None,
    }
}

impl RuleModel {
    /// What the rule makes of a value; nothing where the rule unwraps and the
    /// value is not an optional one.
    pub open spec fn apply(self, v: ValueModel) -> Option<ValueModel> {
        match self {
            RuleModel::Identity => Some(v),
            RuleModel::WrapOptional => Some(ValueModel::Present(Box::new(v))),
            RuleModel::UnwrapOptional(default) => match v {
                ValueModel::Present(inner) => Some(*inner),
                ValueModel::Absent => Some(
                    match default {
                        Some(e) => ValueModel::Declared(e),
                        None => ValueModel::TypeDefault,
                    },
                ),
                _ => None,
            },
        }
    }
}

/// The position of the first among the first `n` rules that is for the source
/// member at position `index`.
pub open spec fn first_for(rules: Seq<MappingModel>, index: usize, n: int) -> Option<int>
    decreases n,
{
    if n <= 0 {
        None
    } else {
        match first_for(rules, index, n - 1) {
            Some(k) => Some(k),
            None => if rules[n - 1].source == index {
                Some(n - 1)
            } else {
                None
            },
        }
    }
}

impl PlanModel {
    /// Whether the plan may be followed from source to derived.
    pub open spec fn leads_to_derived(self) -> bool {
        !(self.direction is DerivedToSource)
    }

    /// Whether the plan may be followed from derived to source.
    pub open spec fn leads_to_source(self) -> bool {
        !(self.direction is SourceToDerived)
    }

    /// The value of the derived field at position `k`, made from the fields of
    /// a source record.
    pub open spec fn derived_field(self, fields: Seq<ValueModel>, k: int) -> Option<ValueModel> {
        if self.rules[k].source < fields.len() {
            self.rules[k].kind.apply(fields[self.rules[k].source as int])
        } else {
            None
        }
    }

    /// Whether every field of the derived record can be made from the fields
    /// of a source record.
    pub open spec fn covers(self, fields: Seq<ValueModel>) -> bool {
        forall|k: int| 0 <= k < self.rules.len() ==> (#[trigger] self.derived_field(fields, k)) is Some
    }

    /// The value of the derived schema that is made from a value of the source.
    ///
    /// A record gets one field for each rule. A variant goes over if a rule is
    /// for it, and then to the position of the first such rule. There is no
    /// result where the plan does not lead this way, where a rule points
    /// outside the record or cannot be applied, or where no rule is for the variant.
    pub open spec fn to_derived(self, input: InstanceModel) -> Option<InstanceModel> {
        if !self.leads_to_derived() {
            None
        } else {
            match input {
                InstanceModel::Record(fields) => if self.covers(fields) {
                    Some(
                        InstanceModel::Record(
                            Seq::new(self.rules.len(), |k: int| self.derived_field(fields, k)->0),
                        ),
                    )
                } else {
                    None
                },
                InstanceModel::Variant { index, payload } => match first_for(
                    self.rules,
                    index,
                    self.rules.len() as int,
                ) {
                    Some(k) => match self.rules[k].kind.apply(payload) {
                        Some(v) => Some(InstanceModel::Variant { index: k as usize, payload: v }),
                        None => None,
                    },
                    None => None,
                },
            }
        }
    }

    /// Whether the plan has one rule for each of `n` members, each for the
    /// member at its own position.
    pub open spec fn in_place(self, n: nat) -> bool {
        &&& self.rules.len() == n
        &&& forall|k: int| 0 <= k < n ==> (#[trigger] self.rules[k]).source == k
    }

    /// Whether every rule can be applied to the field at its own position.
    pub open spec fn applies_to_all(self, fields: Seq<ValueModel>) -> bool {
        forall|k: int|
            0 <= k < self.rules.len() ==> (#[trigger] self.rules[k]).kind.apply(fields[k]) is Some
    }

    /// The value of the source that is made from a value of the derived schema.
    ///
    /// A record can be made only where the plan has a rule for every member of
    /// the source, in place. A variant goes back to the position that its rule
    /// names. There is no result where the plan does not lead this way or a
    /// rule cannot be applied.
    pub open spec fn to_source(self, input: InstanceModel) -> Option<InstanceModel> {
        if !self.leads_to_source() {
            None
        } else {
            match input {
                InstanceModel::Record(fields) => if self.in_place(fields.len())
                    && self.applies_to_all(fields) {
                    Some(
                        InstanceModel::Record(
                            Seq::new(fields.len(), |k: int| self.rules[k].kind.apply(fields[k])->0),
                        ),
                    )
                } else {
                    None
                },
                InstanceModel::Variant { index, payload } => if index < self.rules.len() {
                    match self.rules[index as int].kind.apply(payload) {
                        Some(v) => Some(
                            InstanceModel::Variant {
                                index: self.rules[index as int].source,
                                payload: v,
                            },
                        ),
                        None => None,
                    }
                } else {
                    None
                },
            }
        }
    }
}

/// A rule found among the first `n` is still the first among more.
pub proof fn lemma_first_for_stays(rules: Seq<MappingModel>, index: usize, n: int, m: int)
    requires
        0 <= n <= m,
        first_for(rules, index, n) is Some,
    ensures
        first_for(rules, index, m) == first_for(rules, index, n),
    decreases m - n,
{
    if n < m {
        lemma_first_for_stays(rules, index, n, m - 1);
    }
}

/// Where no rule before position `k` is for the source member that the rule
/// at `k` is for, the rule at `k` is the first for it.
pub proof fn lemma_first_for_found(rules: Seq<MappingModel>, k: int, n: int)
    requires
        0 <= k < n <= rules.len(),
        forall|j: int| 0 <= j < k ==> (#[trigger] rules[j]).source != rules[k].source,
    ensures
        first_for(rules, rules[k].source, n) == Some(k),
    decreases n,
{
    lemma_first_for_none(rules, rules[k].source, k);
    assert(first_for(rules, rules[k].source, k + 1) == Some(k));
    lemma_first_for_stays(rules, rules[k].source, k + 1, n);
}

/// Where none of the first `n` rules is for a source member, none is found for it.
pub proof fn lemma_first_for_none(rules: Seq<MappingModel>, index: usize, n: int)
    requires
        0 <= n <= rules.len(),
        forall|j: int| 0 <= j < n ==> (#[trigger] rules[j]).source != index,
    ensures
        first_for(rules, index, n) is None,
    decreases n,
{
    if n > 0 {
        lemma_first_for_none(rules, index, n - 1);
    }
}

impl Clone for RuleKind {
    fn clone(&self) -> (r: Self)
        ensures
            r@ == self@,
    {
        match self {
            RuleKind::Identity => RuleKind::Identity,
            RuleKind::WrapOptional => RuleKind::WrapOptional,
            RuleKind::UnwrapOptional(d) => RuleKind::UnwrapOptional(clone_text_opt(d)),
        }
    }
}

impl RuleKind {
    /// What the rule makes of a value.
    pub fn apply(&self, v: &Value) -> (r: Option<Value>)
        ensures
            value_opt(r) == self@.apply(v@),
    {
        match self {
            RuleKind::Identity => Some(v.clone()),
            RuleKind::WrapOptional => Some(Value::Present(Box::new(v.clone()))),
            RuleKind::UnwrapOptional(default) => match v {
                Value::Present(inner) => Some((**inner).clone()),
                Value::Absent => match default {
                    Some(e) => Some(Value::Declared(e.clone())),
                    None => Some(Value::TypeDefault),
                },
                _ => None,
            },
        }
    }
}

impl ConversionPlan {
    /// The value of the derived schema that is made from a value of the source.
    #[verifier::loop_isolation(false)]
    pub fn to_derived(&self, input: &Instance) -> (r: Option<Instance>)
        ensures
            instance_opt(r) == self@.to_derived(input@),
    {
        if matches!(self.direction, Direction::DerivedToSource) {
            return None;
        }
        let ghost plan = self@;
        match input {
            Instance::Record(fields) => {
                let ghost models = values_view(fields@);
                let mut out: Vec<Value> = Vec::new();
                let mut k: usize = 0;
                while k < self.rules.len()
                    invariant
                        0 <= k <= self.rules.len(),
                        plan == self@,
                        models == values_view(fields@),
                        out@.len() == k,
                        forall|j: int|
                            0 <= j < k ==> (#[trigger] plan.derived_field(models, j)) == Some(
                                out@[j]@,
                            ),
                    decreases self.rules.len() - k,
                {
                    let rule = &self.rules[k];
                    assert(plan.rules[k as int] == rule@);
                    if rule.source >= fields.len() {
                        assert(plan.derived_field(models, k as int) is None);
                        return None;
                    }
                    assert(models[rule.source as int] == fields@[rule.source as int]@);
                    match rule.kind.apply(&fields[rule.source]) {
                        Some(v) => {
                            out.push(v);
                        },
                        None => {
                            assert(plan.derived_field(models, k as int) is None);
                            return None;
                        },
                    }
                    k += 1;
                }
                assert(plan.covers(models));
                assert(values_view(out@) =~= Seq::new(
                    plan.rules.len(),
                    |k: int| plan.derived_field(models, k)->0,
                ));
                Some(Instance::Record(out))
            },
            Instance::Variant { index, payload } => {
                let mut k: usize = 0;
                while k < self.rules.len()
                    invariant
                        0 <= k <= self.rules.len(),
                        plan == self@,
                        first_for(plan.rules, *index, k as int) is None,
                    decreases self.rules.len() - k,
                {
                    let rule = &self.rules[k];
                    assert(plan.rules[k as int] == rule@);
                    if rule.source == *index {
                        proof {
                            assert(first_for(plan.rules, *index, k + 1) == Some(k as int));
                            lemma_first_for_stays(
                                plan.rules,
                                *index,
                                k + 1,
                                plan.rules.len() as int,
                            );
                        }
                        return match rule.kind.apply(payload) {
                            Some(v) => Some(Instance::Variant { index: k, payload: v }),
                            None => None,
                        };
                    }
                    k += 1;
                }
                None
            },
        }
    }

    /// The value of the source that is made from a value of the derived schema.
    #[verifier::loop_isolation(false)]
    pub fn to_source(&self, input: &Instance) -> (r: Option<Instance>)
        ensures
            instance_opt(r) == self@.to_source(input@),
    {
        if matches!(self.direction, Direction::SourceToDerived) {
            return None;
        }
        let ghost plan = self@;
        match input {
            Instance::Record(fields) => {
                let ghost models = values_view(fields@);
                if self.rules.len() != fields.len() {
                    return None;
                }
                let mut out: Vec<Value> = Vec::new();
                let mut k: usize = 0;
                while k < self.rules.len()
                    invariant
                        0 <= k <= self.rules.len(),
                        self.rules.len() == fields.len(),
                        plan == self@,
                        models == values_view(fields@),
                        out@.len() == k,
                        forall|j: int| 0 <= j < k ==> (#[trigger] plan.rules[j]).source == j,
                        forall|j: int|
                            0 <= j < k ==> (#[trigger] plan.rules[j]).kind.apply(models[j])
                                == Some(out@[j]@),
                    decreases self.rules.len() - k,
                {
                    let rule = &self.rules[k];
                    assert(plan.rules[k as int] == rule@);
                    assert(models[k as int] == fields@[k as int]@);
                    if rule.source != k {
                        return None;
                    }
                    match rule.kind.apply(&fields[k]) {
                        Some(v) => {
                            out.push(v);
                        },
                        None => {
                            return None;
                        },
                    }
                    k += 1;
                }
                assert(plan.in_place(models.len()));
                assert(plan.applies_to_all(models));
                assert(values_view(out@) =~= Seq::new(
                    models.len(),
                    |k: int| plan.rules[k].kind.apply(models[k])->0,
                ));
                Some(Instance::Record(out))
            },
            Instance::Variant { index, payload } => {
                if *index >= self.rules.len() {
                    return None;
                }
                let rule = &self.rules[*index];
                assert(plan.rules[*index as int] == rule@);
                match rule.kind.apply(payload) {
                    Some(v) => Some(Instance::Variant { index: rule.source, payload: v }),
                    None => None,
                }
            },
        }
    }
}

} // verus!
