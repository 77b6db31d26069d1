//! Validation of operation specs, before anything is derived from them.

use crate::meta::{Diagnostic, Violation};
use crate::operation::{specs_view, OperationSpec, SpecModel};
use vstd::prelude::*;

verus! {

impl SpecModel {
    /// What is wrong with the target name, if anything: it is missing or empty.
    pub open spec fn target_violation(self) -> Option<Violation> {
        match self.ident {
            None => Some(Violation::MissingTarget),
            Some(t) => if t.len() == 0 {
                Some(Violation::EmptyTarget)
            } else {
                None
            },
        }
    }

    /// What is wrong with the selection, if anything: the operation selects by
    /// name and the selection is missing or empty.
    pub open spec fn selection_violation(self) -> Option<Violation> {
        if !self.kind.selects() {
            None
        } else {
            match self.selection {
                None => Some(Violation::MissingSelection),
                Some(s) => if s.len() == 0 {
                    Some(Violation::EmptySelection)
                } else {
                    None
                },
            }
        }
    }

    /// Whether the spec by itself is in order.
    pub open spec fn well_formed(self) -> bool {
        self.target_violation() is None && self.selection_violation() is None
    }

    /// The findings on the spec by itself, each at `location`: first that on
    /// the target name, then that on the selection.
    pub open spec fn own_findings(self, location: usize) -> Seq<Diagnostic> {
        at(location, self.target_violation()) + at(location, self.selection_violation())
    }
}

/// The finding for a violation, if there is one.
pub open spec fn at(location: usize, violation: Option<Violation>) -> Seq<Diagnostic> {
    match violation {
        Some(v) => seq![Diagnostic { location, violation: v }],
        None => Seq::empty(),
    }
}

/// Whether the spec at position `i` has a non-empty target name that a spec at
/// an earlier position has too.
pub open spec fn repeats_target(specs: Seq<SpecModel>, i: int) -> bool {
    &&& specs[i].ident is Some
    &&& specs[i].ident->0.len() > 0
    &&& exists|j: int| 0 <= j < i && (#[trigger] specs[j]).ident == specs[i].ident
}

/// The findings on the spec at position `i` among `specs`: those on the spec by
/// itself, then that on its target name being taken.
pub open spec fn findings_at(specs: Seq<SpecModel>, i: int) -> Seq<Diagnostic> {
    specs[i].own_findings(i as usize) + if repeats_target(specs, i) {
        seq![Diagnostic { location: i as usize, violation: Violation::DuplicateTarget }]
    } else {
        Seq::empty()
    }
}

/// The findings on the first `n` of `specs`, in the order of the specs.
pub open spec fn findings(specs: Seq<SpecModel>, n: int) -> Seq<Diagnostic>
    decreases n,
{
    if n <= 0 {
        Seq::empty()
    } else {
        findings(specs, n - 1) + findings_at(specs, n - 1)
    }
}

/// Whether the specs can all be applied to one source: each is in order by
/// itself, and no two have the same target name.
pub open spec fn all_valid(specs: Seq<SpecModel>) -> bool {
    &&& forall|i: int| 0 <= i < specs.len() ==> (#[trigger] specs[i]).well_formed()
    &&& forall|i: int, j: int|
        0 <= j < i < specs.len() ==> (#[trigger] specs[j]).ident != (#[trigger] specs[i]).ident
}

/// The findings on one spec by itself, each at `location`.
pub fn check_spec(spec: &OperationSpec, location: usize) -> (r: Vec<Diagnostic>)
    ensures
        r@ == spec@.own_findings(location),
{
    let mut out: Vec<Diagnostic> = Vec::new();
    match &spec.ident {
        None => {
            out.push(Diagnostic::new(location, Violation::MissingTarget));
        },
        Some(t) => {
            if t.as_str().is_empty() {
                out.push(Diagnostic::new(location, Violation::EmptyTarget));
            }
        },
    }
    assert(out@ =~= at(location, spec@.target_violation()));
    if spec.kind.needs_selection() {
        match &spec.selection {
            None => {
                out.push(Diagnostic::new(location, Violation::MissingSelection));
            },
            Some(s) => {
                if s.len() == 0 {
                    out.push(Diagnostic::new(location, Violation::EmptySelection));
                }
            },
        }
    }
    assert(out@ =~= spec@.own_findings(location));
    out
}

/// Whether the spec at position `i` has a non-empty target name that an
/// earlier spec has too.
fn target_is_taken(specs: &Vec<OperationSpec>, i: usize) -> (r: bool)
    requires
        i < specs@.len(),
    ensures
        r == repeats_target(specs_view(specs@), i as int),
{
    let ghost models = specs_view(specs@);
    match &specs[i].ident {
        None => false,
        Some(t) => {
            if t.as_str().is_empty() {
                return false;
            }
            let mut j: usize = 0;
            while j < i
                invariant
                    0 <= j <= i < specs@.len(),
                    models == specs_view(specs@),
                    models[i as int].ident == Some(t@),
                    t@.len() > 0,
                    forall|k: int| 0 <= k < j ==> (#[trigger] models[k]).ident != Some(t@),
                decreases i - j,
            {
                match &specs[j].ident {
                    Some(u) => {
                        if *u == *t {
                            assert(models[j as int].ident == models[i as int].ident);
                            return true;
                        }
                    },
                    None => {},
                }
                j += 1;
            }
            false
        },
    }
}

/// Every finding on the specs of one source, in the order of the specs and,
/// for one spec, in the order target name, selection, repeated target name.
///
/// Nothing is held back at the first finding: the list holds one entry for
/// each violation.
pub fn validate(specs: &Vec<OperationSpec>) -> (r: Vec<Diagnostic>)
    ensures
        r@ == findings(specs_view(specs@), specs@.len() as int),
{
    let ghost models = specs_view(specs@);
    let mut out: Vec<Diagnostic> = Vec::new();
    let mut i: usize = 0;
    while i < specs.len()
        invariant
            0 <= i <= specs.len(),
            models == specs_view(specs@),
            out@ == findings(models, i as int),
        decreases specs.len() - i,
    {
        let ghost before = out@;
        let mut own = check_spec(&specs[i], i);
        out.append(&mut own);
        if target_is_taken(specs, i) {
            out.push(Diagnostic::new(i, Violation::DuplicateTarget));
        }
        assert(out@ =~= before + findings_at(models, i as int));
        i += 1;
    }
    out
}

/// There is no finding exactly when every spec is in order by itself and no
/// two specs have the same target name.
pub proof fn lemma_no_findings_iff_valid(specs: Seq<SpecModel>)
    ensures
        (findings(specs, specs.len() as int).len() == 0) <==> all_valid(specs),
{
    lemma_findings_empty(specs, specs.len() as int);
    if all_valid(specs) {
        assert forall|i: int| 0 <= i < specs.len() implies (#[trigger] findings_at(
            specs,
            i,
        )).len() == 0 by {
            assert(specs[i].well_formed());
            if repeats_target(specs, i) {
                let j = choose|j: int| 0 <= j < i && (#[trigger] specs[j]).ident == specs[i].ident;
                assert(specs[j].ident != specs[i].ident);
            }
        }
    } else {
        if forall|i: int| 0 <= i < specs.len() ==> (#[trigger] findings_at(specs, i)).len() == 0 {
            assert forall|i: int| 0 <= i < specs.len() implies (#[trigger] specs[i]).well_formed() by {
                assert(findings_at(specs, i).len() == 0);
            }
            assert forall|i: int, j: int| 0 <= j < i < specs.len() implies (#[trigger] specs[j]).ident
                != (#[trigger] specs[i]).ident by {
                assert(findings_at(specs, i).len() == 0);
                assert(specs[i].well_formed());
                if specs[j].ident == specs[i].ident {
                    assert(repeats_target(specs, i));
                }
            }
            assert(false);
        }
    }
}

/// The findings on a prefix are none exactly when there is none at any
/// position of the prefix.
proof fn lemma_findings_empty(specs: Seq<SpecModel>, n: int)
    requires
        0 <= n <= specs.len(),
    ensures
        (findings(specs, n).len() == 0) <==> (forall|i: int|
            0 <= i < n ==> (#[trigger] findings_at(specs, i)).len() == 0),
    decreases n,
{
    if n > 0 {
        lemma_findings_empty(specs, n - 1);
        if findings(specs, n).len() == 0 {
            assert(findings_at(specs, n - 1).len() == 0);
        }
    }
}

} // verus!
