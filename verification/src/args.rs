//! Reading operation specs from the items in which they are written.
//!
//! An operation is written as a list of keyed items: `ident = Meta`,
//! `fields(title, author)` or `variants(..)`, `derive(Debug)`,
//! `forward_attrs(serde)`. Reading stops at the first item that cannot be read
//! and reports it at its position in the list. What is missing is not
//! reported here: a spec with gaps is read as it stands.

use crate::filter::{filter_read, FilterModel, ForwardAttrsFilter};
use crate::meta::{idents_read, paths_read, Diagnostic, MetaItem, MetaValue, Violation};
use crate::operation::{specs_view, OperationKind, OperationSpec, SpecModel};
use crate::path::{IdentList, MetaPath, PathList, PathModel};
use crate::schema::{paths_opt, text_opt};
use vstd::prelude::*;

verus! {

impl OperationKind {
    /// The key under which the operation's selection is written: `fields` for
    /// the operations on records that select, `variants` for those on tagged
    /// unions, none for the operations that do not select.
    pub open spec fn selection_key(self) -> Option<Seq<char>> {
        match self {
            OperationKind::Pick | OperationKind::Omit => Some("fields"@),
            OperationKind::Extract | OperationKind::Exclude => Some("variants"@),
            OperationKind::Partial | OperationKind::Required => None,
        }
    }

    /// Whether `path` is the key under which the operation's selection is written.
    pub fn is_selection_key(&self, path: &MetaPath) -> (r: bool)
        ensures
            r == (self.selection_key() is Some && path@.ident() == self.selection_key()),
    {
        match self {
            OperationKind::Pick | OperationKind::Omit => path.is_ident("fields"),
            OperationKind::Extract | OperationKind::Exclude => path.is_ident("variants"),
            OperationKind::Partial | OperationKind::Required => false,
        }
    }
}

/// What has been read of one operation's arguments.
struct Draft {
    ident: Option<String>,
    selection: Option<IdentList>,
    derive: Option<PathList>,
    forward_attrs: Option<ForwardAttrsFilter>,
}

/// What a [`Draft`] stands for in contracts.
pub struct DraftModel {
    pub ident: Option<Seq<char>>,
    pub selection: Option<Seq<Seq<char>>>,
    pub derive: Option<Seq<PathModel>>,
    pub forward_attrs: Option<FilterModel>,
}

impl View for Draft {
    type V = DraftModel;

    closed spec fn view(&self) -> DraftModel {
        DraftModel {
            ident: text_opt(self.ident),
            selection: match self.selection {
                Some(l) => Some(l@),
                None => None,
            },
            derive: paths_opt(self.derive),
            forward_attrs: match self.forward_attrs {
                Some(f) => Some(f@),
                None => None,
            },
        }
    }
}

impl DraftModel {
    /// The draft in which nothing has been read.
    pub open spec fn blank() -> DraftModel {
        DraftModel { ident: None, selection: None, derive: None, forward_attrs: None }
    }

    /// The spec that the draft amounts to; where no filter was read, the
    /// filter is `All`.
    pub open spec fn finish(self, kind: OperationKind) -> SpecModel {
        SpecModel {
            kind,
            ident: self.ident,
            selection: self.selection,
            derive: self.derive,
            forward_attrs: match self.forward_attrs {
                Some(f) => f,
                None => FilterModel::All,
            },
        }
    }
}

/// The target name that a value behind `ident =` reads as: the contents of a
/// string, or a path that is a single identifier.
pub open spec fn target_read(value: MetaValue) -> Result<Seq<char>, Violation> {
    match value {
        MetaValue::Str(s) => Ok(s@),
        MetaValue::Path(p) => match p@.ident() {
            Some(name) => Ok(name),
            None => Err(Violation::UnexpectedValue),
        },
        MetaValue::Other(_) => Err(Violation::UnexpectedValue),
    }
}

/// The draft after one more item is read, or what is wrong with the item.
///
/// A literal is no keyed item. The keys are tried in the order `ident`, the
/// operation's selection key, `derive`, `forward_attrs`; any other key is
/// unknown. A key that was read before is a duplicate. `ident` takes a value,
/// the other keys take a list.
pub open spec fn item_read(kind: OperationKind, draft: DraftModel, item: MetaItem) -> Result<
    DraftModel,
    Violation,
> {
    match item.key() {
        None => Err(Violation::NonMeta),
        Some(key) => if key.ident() == Some("ident"@) {
            if draft.ident is Some {
                Err(Violation::DuplicateKey)
            } else {
                match item {
                    MetaItem::NameValue { value, .. } => match target_read(value) {
                        Ok(t) => Ok(DraftModel { ident: Some(t), ..draft }),
                        Err(v) => Err(v),
                    },
                    _ => Err(Violation::UnexpectedFormat),
                }
            }
        } else if kind.selection_key() is Some && key.ident() == kind.selection_key() {
            if draft.selection is Some {
                Err(Violation::DuplicateKey)
            } else {
                match item {
                    MetaItem::List { items, .. } => match idents_read(items@) {
                        Ok(names) => Ok(DraftModel { selection: Some(names), ..draft }),
                        Err(v) => Err(v),
                    },
                    _ => Err(Violation::UnexpectedFormat),
                }
            }
        } else if key.ident() == Some("derive"@) {
            if draft.derive is Some {
                Err(Violation::DuplicateKey)
            } else {
                match item {
                    MetaItem::List { items, .. } => match paths_read(items@) {
                        Ok(paths) => Ok(DraftModel { derive: Some(paths), ..draft }),
                        Err(v) => Err(v),
                    },
                    _ => Err(Violation::UnexpectedFormat),
                }
            }
        } else if key.ident() == Some("forward_attrs"@) {
            if draft.forward_attrs is Some {
                Err(Violation::DuplicateKey)
            } else {
                match item {
                    MetaItem::List { items, .. } => match filter_read(items@) {
                        Ok(f) => Ok(DraftModel { forward_attrs: Some(f), ..draft }),
                        Err(v) => Err(v),
                    },
                    _ => Err(Violation::UnexpectedFormat),
                }
            }
        } else {
            Err(Violation::UnknownKey)
        },
    }
}

/// The draft after the first `n` items are read, or the finding on the first
/// item that cannot be read, at its position.
pub open spec fn items_read(kind: OperationKind, items: Seq<MetaItem>, n: int) -> Result<
    DraftModel,
    Diagnostic,
>
    decreases n,
{
    if n <= 0 {
        Ok(DraftModel::blank())
    } else {
        match items_read(kind, items, n - 1) {
            Err(d) => Err(d),
            Ok(draft) => match item_read(kind, draft, items[n - 1]) {
                Ok(next) => Ok(next),
                Err(v) => Err(Diagnostic { location: (n - 1) as usize, violation: v }),
            },
        }
    }
}

/// The spec that the items of one operation read as.
pub open spec fn spec_read(kind: OperationKind, items: Seq<MetaItem>) -> Result<
    SpecModel,
    Diagnostic,
> {
    match items_read(kind, items, items.len() as int) {
        Ok(draft) => Ok(draft.finish(kind)),
        Err(d) => Err(d),
    }
}

/// The spec that one item reads as: the item must be a list, and its items
/// are the operation's arguments.
pub open spec fn meta_read(kind: OperationKind, item: MetaItem) -> Result<SpecModel, Violation> {
    match item {
        MetaItem::List { items, .. } => match spec_read(kind, items@) {
            Ok(s) => Ok(s),
            Err(d) => Err(d.violation),
        },
        MetaItem::Lit(_) => Err(Violation::NonMeta),
        _ => Err(Violation::UnexpectedFormat),
    }
}

/// The specs that the first `n` items read as, one for each item, or the
/// finding on the first item that cannot be read, at its position.
pub open spec fn args_read(kind: OperationKind, items: Seq<MetaItem>, n: int) -> Result<
    Seq<SpecModel>,
    Diagnostic,
>
    decreases n,
{
    if n <= 0 {
        Ok(Seq::empty())
    } else {
        match args_read(kind, items, n - 1) {
            Err(d) => Err(d),
            Ok(specs) => match meta_read(kind, items[n - 1]) {
                Ok(s) => Ok(specs.push(s)),
                Err(v) => Err(Diagnostic { location: (n - 1) as usize, violation: v }),
            },
        }
    }
}

/// Reads the target name behind `ident =`.
fn read_target(value: &MetaValue) -> (r: Result<String, Violation>)
    ensures
        match r {
            Ok(t) => target_read(*value) == Ok::<Seq<char>, Violation>(t@),
            Err(v) => target_read(*value) == Err::<Seq<char>, Violation>(v),
        },
{
    match value {
        MetaValue::Str(s) => Ok(s.clone()),
        MetaValue::Path(p) => match p.get_ident() {
            Some(name) => Ok(name.clone()),
            None => Err(Violation::UnexpectedValue),
        },
        MetaValue::Other(_) => Err(Violation::UnexpectedValue),
    }
}

/// Reads one more item into the draft.
fn read_item(kind: OperationKind, draft: Draft, item: &MetaItem) -> (r: Result<Draft, Violation>)
    ensures
        match r {
            Ok(next) => item_read(kind, draft@, *item) == Ok::<DraftModel, Violation>(next@),
            Err(v) => item_read(kind, draft@, *item) == Err::<DraftModel, Violation>(v),
        },
{
    let key = match item {
        MetaItem::Path(p) => p,
        MetaItem::List { path, .. } => path,
        MetaItem::NameValue { path, .. } => path,
        MetaItem::Lit(_) => {
            return Err(Violation::NonMeta);
        },
    };
    assert(item.key() == Some(key@));
    let Draft { ident, selection, derive, forward_attrs } = draft;
    if key.is_ident("ident") {
        if ident.is_some() {
            return Err(Violation::DuplicateKey);
        }
        match item {
            MetaItem::NameValue { value, .. } => match read_target(value) {
                Ok(t) => Ok(Draft { ident: Some(t), selection, derive, forward_attrs }),
                Err(v) => Err(v),
            },
            _ => Err(Violation::UnexpectedFormat),
        }
    } else if kind.is_selection_key(key) {
        if selection.is_some() {
            return Err(Violation::DuplicateKey);
        }
        match item {
            MetaItem::List { items, .. } => match IdentList::from_list(items) {
                Ok(names) => Ok(Draft { ident, selection: Some(names), derive, forward_attrs }),
                Err(d) => Err(d.violation),
            },
            _ => Err(Violation::UnexpectedFormat),
        }
    } else if key.is_ident("derive") {
        if derive.is_some() {
            return Err(Violation::DuplicateKey);
        }
        match item {
            MetaItem::List { items, .. } => match PathList::from_list(items) {
                Ok(paths) => Ok(Draft { ident, selection, derive: Some(paths), forward_attrs }),
                Err(d) => Err(d.violation),
            },
            _ => Err(Violation::UnexpectedFormat),
        }
    } else if key.is_ident("forward_attrs") {
        if forward_attrs.is_some() {
            return Err(Violation::DuplicateKey);
        }
        match item {
            MetaItem::List { items, .. } => match ForwardAttrsFilter::from_list(items) {
                Ok(f) => Ok(Draft { ident, selection, derive, forward_attrs: Some(f) }),
                Err(d) => Err(d.violation),
            },
            _ => Err(Violation::UnexpectedFormat),
        }
    } else {
        Err(Violation::UnknownKey)
    }
}

impl OperationSpec {
    /// Reads the spec of an operation from its arguments.
    ///
    /// Every item must be a keyed item with one of the keys `ident`, `fields`
    /// or `variants` as the operation has it, `derive` and `forward_attrs`,
    /// each at most once and in the form that it takes. What is not written
    /// is left out of the spec.
    pub fn from_list(kind: OperationKind, items: &Vec<MetaItem>) -> (r: Result<
        OperationSpec,
        Diagnostic,
    >)
        ensures
            match r {
                Ok(s) => spec_read(kind, items@) == Ok::<SpecModel, Diagnostic>(s@),
                Err(d) => spec_read(kind, items@) == Err::<SpecModel, Diagnostic>(d),
            },
    {
        let mut draft = Draft { ident: None, selection: None, derive: None, forward_attrs: None };
        let mut i: usize = 0;
        while i < items.len()
            invariant
                0 <= i <= items.len(),
                items_read(kind, items@, i as int) == Ok::<DraftModel, Diagnostic>(draft@),
            decreases items.len() - i,
        {
            match read_item(kind, draft, &items[i]) {
                Ok(next) => {
                    draft = next;
                },
                Err(v) => {
                    let d = Diagnostic::new(i, v);
                    proof {
                        assert(items_read(kind, items@, i + 1) == Err::<DraftModel, Diagnostic>(d));
                        lemma_items_read_stays(kind, items@, i + 1, items@.len() as int);
                    }
                    return Err(d);
                },
            }
            i += 1;
        }
        let Draft { ident, selection, derive, forward_attrs } = draft;
        let filter = match forward_attrs {
            Some(f) => f,
            None => ForwardAttrsFilter::All,
        };
        Ok(OperationSpec { kind, ident, selection, derive, forward_attrs: filter })
    }

    /// Reads the spec of an operation from the one item in which it is
    /// written: a list whose items are the operation's arguments.
    pub fn from_meta(kind: OperationKind, item: &MetaItem) -> (r: Result<OperationSpec, Violation>)
        ensures
            match r {
                Ok(s) => meta_read(kind, *item) == Ok::<SpecModel, Violation>(s@),
                Err(v) => meta_read(kind, *item) == Err::<SpecModel, Violation>(v),
            },
    {
        match item {
            MetaItem::List { items, .. } => match OperationSpec::from_list(kind, items) {
                Ok(s) => Ok(s),
                Err(d) => Err(d.violation),
            },
            MetaItem::Lit(_) => Err(Violation::NonMeta),
            _ => Err(Violation::UnexpectedFormat),
        }
    }
}

/// Once an item could not be read, reading more items changes nothing.
pub proof fn lemma_items_read_stays(kind: OperationKind, items: Seq<MetaItem>, n: int, m: int)
    requires
        0 <= n <= m,
        items_read(kind, items, n) is Err,
    ensures
        items_read(kind, items, m) == items_read(kind, items, n),
    decreases m - n,
{
    if n < m {
        lemma_items_read_stays(kind, items, n, m - 1);
    }
}

/// Once an item could not be read as a spec, reading more items changes nothing.
pub proof fn lemma_args_read_stays(kind: OperationKind, items: Seq<MetaItem>, n: int, m: int)
    requires
        0 <= n <= m,
        args_read(kind, items, n) is Err,
    ensures
        args_read(kind, items, m) == args_read(kind, items, n),
    decreases m - n,
{
    if n < m {
        lemma_args_read_stays(kind, items, n, m - 1);
    }
}

/// The specs written on one declaration, in the order in which they are written.
#[derive(Debug, PartialEq, Eq)]
pub struct ArgsList(pub Vec<OperationSpec>);

impl View for ArgsList {
    type V = Seq<SpecModel>;

    open spec fn view(&self) -> Seq<SpecModel> {
        specs_view(self.0@)
    }
}

impl ArgsList {
    /// Reads the specs of one operation from the items in which they are
    /// written, one spec from each item.
    ///
    /// Every item must be a list whose items are the arguments of one
    /// operation. The first item that cannot be read is reported at its
    /// position: a literal as `NonMeta`, a bare path or a key with a value as
    /// `UnexpectedFormat`, a list by what is wrong inside it.
    pub fn from_list(kind: OperationKind, items: &Vec<MetaItem>) -> (r: Result<
        ArgsList,
        Diagnostic,
    >)
        ensures
            match r {
                Ok(list) => args_read(kind, items@, items@.len() as int) == Ok::<
                    Seq<SpecModel>,
                    Diagnostic,
                >(list@),
                Err(d) => args_read(kind, items@, items@.len() as int) == Err::<
                    Seq<SpecModel>,
                    Diagnostic,
                >(d),
            },
    {
        let mut specs: Vec<OperationSpec> = Vec::new();
        let mut i: usize = 0;
        assert(specs_view(specs@) =~= Seq::<SpecModel>::empty());
        while i < items.len()
            invariant
                0 <= i <= items.len(),
                args_read(kind, items@, i as int) == Ok::<Seq<SpecModel>, Diagnostic>(
                    specs_view(specs@),
                ),
            decreases items.len() - i,
        {
            let ghost before = specs_view(specs@);
            match OperationSpec::from_meta(kind, &items[i]) {
                Ok(s) => {
                    let ghost model = s@;
                    specs.push(s);
                    assert(specs_view(specs@) =~= before.push(model));
                },
                Err(v) => {
                    let d = Diagnostic::new(i, v);
                    proof {
                        assert(args_read(kind, items@, i + 1) == Err::<
                            Seq<SpecModel>,
                            Diagnostic,
                        >(d));
                        lemma_args_read_stays(kind, items@, i + 1, items@.len() as int);
                    }
                    return Err(d);
                },
            }
            i += 1;
        }
        Ok(ArgsList(specs))
    }
}

/// What is written on a declaration for one kind of operation: the filter
/// for the whole declaration, and the specs.
#[derive(Debug, PartialEq, Eq)]
pub struct Declaration {
    /// The forwarding filter of the declaration; `All` where none is written.
    pub forward_attrs: ForwardAttrsFilter,
    /// The specs, in the order in which they are written.
    pub args: ArgsList,
}

/// What a [`Declaration`] stands for in contracts.
pub struct DeclarationModel {
    pub forward_attrs: FilterModel,
    pub args: Seq<SpecModel>,
}

impl View for Declaration {
    type V = DeclarationModel;

    open spec fn view(&self) -> DeclarationModel {
        DeclarationModel { forward_attrs: self.forward_attrs@, args: self.args@ }
    }
}

/// What has been read of a declaration's items.
pub struct HeadModel {
    pub forward_attrs: Option<FilterModel>,
    pub args: Seq<SpecModel>,
}

/// What has been read after one more item of a declaration: an item with the
/// key `forward_attrs` is the declaration's filter, every other item is a spec.
/// Exclude takes a spec under the key `arg` alone; the other operations take
/// it under any key.
pub open spec fn head_item_read(kind: OperationKind, head: HeadModel, item: MetaItem) -> Result<
    HeadModel,
    Violation,
> {
    if item.key() is Some && item.key()->0.ident() == Some("forward_attrs"@) {
        if head.forward_attrs is Some {
            Err(Violation::DuplicateKey)
        } else {
            match item {
                MetaItem::List { items, .. } => match filter_read(items@) {
                    Ok(f) => Ok(HeadModel { forward_attrs: Some(f), ..head }),
                    Err(v) => Err(v),
                },
                _ => Err(Violation::UnexpectedFormat),
            }
        }
    } else if kind is Exclude && item.key() is Some && item.key()->0.ident() != Some("arg"@) {
        Err(Violation::UnknownKey)
    } else {
        match meta_read(kind, item) {
            Ok(s) => Ok(HeadModel { args: head.args.push(s), ..head }),
            Err(v) => Err(v),
        }
    }
}

/// What has been read after the first `n` items of a declaration, or the
/// finding on the first item that cannot be read, at its position.
pub open spec fn head_read(kind: OperationKind, items: Seq<MetaItem>, n: int) -> Result<
    HeadModel,
    Diagnostic,
>
    decreases n,
{
    if n <= 0 {
        Ok(HeadModel { forward_attrs: None, args: Seq::empty() })
    } else {
        match head_read(kind, items, n - 1) {
            Err(d) => Err(d),
            Ok(head) => match head_item_read(kind, head, items[n - 1]) {
                Ok(next) => Ok(next),
                Err(v) => Err(Diagnostic { location: (n - 1) as usize, violation: v }),
            },
        }
    }
}

/// What the items on a declaration read as.
///
/// For an operation that selects, one item may give the declaration's filter
/// and every other item is one spec. For the others all items together are
/// the arguments of the one spec, and the declaration has no filter of its
/// own.
pub open spec fn declaration_read(kind: OperationKind, items: Seq<MetaItem>) -> Result<
    DeclarationModel,
    Diagnostic,
> {
    if kind.selects() {
        match head_read(kind, items, items.len() as int) {
            Ok(head) => Ok(
                DeclarationModel {
                    forward_attrs: match head.forward_attrs {
                        Some(f) => f,
                        None => FilterModel::All,
                    },
                    args: head.args,
                },
            ),
            Err(d) => Err(d),
        }
    } else {
        match spec_read(kind, items) {
            Ok(s) => Ok(DeclarationModel { forward_attrs: FilterModel::All, args: seq![s] }),
            Err(d) => Err(d),
        }
    }
}

/// Once an item of a declaration could not be read, reading more changes nothing.
pub proof fn lemma_head_read_stays(kind: OperationKind, items: Seq<MetaItem>, n: int, m: int)
    requires
        0 <= n <= m,
        head_read(kind, items, n) is Err,
    ensures
        head_read(kind, items, m) == head_read(kind, items, n),
    decreases m - n,
{
    if n < m {
        lemma_head_read_stays(kind, items, n, m - 1);
    }
}

impl Declaration {
    /// Reads what is written on a declaration for the operation `kind`.
    ///
    /// The first item that cannot be read is reported at its position.
    pub fn from_list(kind: OperationKind, items: &Vec<MetaItem>) -> (r: Result<
        Declaration,
        Diagnostic,
    >)
        ensures
            match r {
                Ok(decl) => declaration_read(kind, items@) == Ok::<DeclarationModel, Diagnostic>(
                    decl@,
                ),
                Err(d) => declaration_read(kind, items@) == Err::<DeclarationModel, Diagnostic>(d),
            },
    {
        if !kind.needs_selection() {
            return match OperationSpec::from_list(kind, items) {
                Ok(s) => {
                    let ghost model = s@;
                    let mut specs: Vec<OperationSpec> = Vec::new();
                    specs.push(s);
                    assert(specs_view(specs@) =~= seq![model]);
                    Ok(Declaration { forward_attrs: ForwardAttrsFilter::All, args: ArgsList(specs) })
                },
                Err(d) => Err(d),
            };
        }
        let mut filter: Option<ForwardAttrsFilter> = None;
        let mut specs: Vec<OperationSpec> = Vec::new();
        let mut i: usize = 0;
        assert(specs_view(specs@) =~= Seq::<SpecModel>::empty());
        while i < items.len()
            invariant
                0 <= i <= items.len(),
                kind.selects(),
                head_read(kind, items@, i as int) == Ok::<HeadModel, Diagnostic>(
                    HeadModel {
                        forward_attrs: match filter {
                            Some(f) => Some(f@),
                            None => None,
                        },
                        args: specs_view(specs@),
                    },
                ),
            decreases items.len() - i,
        {
            let ghost before = specs_view(specs@);
            let item = &items[i];
            let is_filter = match item {
                MetaItem::Path(p) => p.is_ident("forward_attrs"),
                MetaItem::List { path, .. } => path.is_ident("forward_attrs"),
                MetaItem::NameValue { path, .. } => path.is_ident("forward_attrs"),
                MetaItem::Lit(_) => false,
            };
            let is_other_key = matches!(kind, OperationKind::Exclude) && match item {
                MetaItem::Path(p) => !p.is_ident("arg"),
                MetaItem::List { path, .. } => !path.is_ident("arg"),
                MetaItem::NameValue { path, .. } => !path.is_ident("arg"),
                MetaItem::Lit(_) => false,
            };
            let step: Result<(), Violation> = if is_filter {
                if filter.is_some() {
                    Err(Violation::DuplicateKey)
                } else {
                    match item {
                        MetaItem::List { items: nested, .. } => match ForwardAttrsFilter::from_list(
                            nested,
                        ) {
                            Ok(f) => {
                                filter = Some(f);
                                Ok(())
                            },
                            Err(d) => Err(d.violation),
                        },
                        _ => Err(Violation::UnexpectedFormat),
                    }
                }
            } else if is_other_key {
                Err(Violation::UnknownKey)
            } else {
                match OperationSpec::from_meta(kind, item) {
                    Ok(s) => {
                        let ghost model = s@;
                        specs.push(s);
                        assert(specs_view(specs@) =~= before.push(model));
                        Ok(())
                    },
                    Err(v) => Err(v),
                }
            };
            match step {
                Ok(_) => {},
                Err(v) => {
                    let d = Diagnostic::new(i, v);
                    proof {
                        assert(head_read(kind, items@, i + 1) == Err::<HeadModel, Diagnostic>(d));
                        lemma_head_read_stays(kind, items@, i + 1, items@.len() as int);
                    }
                    return Err(d);
                },
            }
            i += 1;
        }
        let forward_attrs = match filter {
            Some(f) => f,
            None => ForwardAttrsFilter::All,
        };
        Ok(Declaration { forward_attrs, args: ArgsList(specs) })
    }
}

/// What is written on one member for one kind of operation.
#[derive(Debug, PartialEq, Eq)]
pub struct MemberOptions {
    /// The member's own forwarding filter; `All` where none is written.
    pub forward_attrs: ForwardAttrsFilter,
    /// The expression that stands in for a missing value, where one is written.
    pub default: Option<String>,
}

/// What has been read of the items on a member; in the end, what a
/// [`MemberOptions`] stands for in contracts, with `All` for no filter.
pub struct OptionsModel {
    pub forward_attrs: Option<FilterModel>,
    pub default: Option<Seq<char>>,
}

impl View for MemberOptions {
    type V = OptionsModel;

    open spec fn view(&self) -> OptionsModel {
        OptionsModel { forward_attrs: Some(self.forward_attrs@), default: text_opt(self.default) }
    }
}

/// The text of a value: the contents of a string, a path as it is written,
/// any other expression as it is written.
pub open spec fn value_text(value: MetaValue) -> Seq<char> {
    match value {
        MetaValue::Str(s) => s@,
        MetaValue::Path(p) => p@.text(),
        MetaValue::Other(t) => t@,
    }
}

/// What has been read after one more item on a member.
///
/// The key `forward_attrs` takes a list. The key `default` takes a value and
/// is known to Partial alone. Every other key is unknown, and a literal is no
/// keyed item.
pub open spec fn option_read(kind: OperationKind, options: OptionsModel, item: MetaItem) -> Result<
    OptionsModel,
    Violation,
> {
    match item.key() {
        None => Err(Violation::NonMeta),
        Some(key) => if key.ident() == Some("forward_attrs"@) {
            if options.forward_attrs is Some {
                Err(Violation::DuplicateKey)
            } else {
                match item {
                    MetaItem::List { items, .. } => match filter_read(items@) {
                        Ok(f) => Ok(OptionsModel { forward_attrs: Some(f), ..options }),
                        Err(v) => Err(v),
                    },
                    _ => Err(Violation::UnexpectedFormat),
                }
            }
        } else if kind is Partial && key.ident() == Some("default"@) {
            if options.default is Some {
                Err(Violation::DuplicateKey)
            } else {
                match item {
                    MetaItem::NameValue { value, .. } => Ok(
                        OptionsModel { default: Some(value_text(value)), ..options },
                    ),
                    _ => Err(Violation::UnexpectedFormat),
                }
            }
        } else {
            Err(Violation::UnknownKey)
        },
    }
}

/// What has been read after the first `n` items on a member, or the finding
/// on the first item that cannot be read, at its position.
pub open spec fn options_read(kind: OperationKind, items: Seq<MetaItem>, n: int) -> Result<
    OptionsModel,
    Diagnostic,
>
    decreases n,
{
    if n <= 0 {
        Ok(OptionsModel { forward_attrs: None, default: None })
    } else {
        match options_read(kind, items, n - 1) {
            Err(d) => Err(d),
            Ok(options) => match option_read(kind, options, items[n - 1]) {
                Ok(next) => Ok(next),
                Err(v) => Err(Diagnostic { location: (n - 1) as usize, violation: v }),
            },
        }
    }
}

/// What the items on a member read as, with `All` where no filter is written.
pub open spec fn member_options_read(kind: OperationKind, items: Seq<MetaItem>) -> Result<
    OptionsModel,
    Diagnostic,
> {
    match options_read(kind, items, items.len() as int) {
        Ok(options) => Ok(
            OptionsModel {
                forward_attrs: Some(
                    match options.forward_attrs {
                        Some(f) => f,
                        None => FilterModel::All,
                    },
                ),
                default: options.default,
            },
        ),
        Err(d) => Err(d),
    }
}

/// Once an item on a member could not be read, reading more changes nothing.
pub proof fn lemma_options_read_stays(kind: OperationKind, items: Seq<MetaItem>, n: int, m: int)
    requires
        0 <= n <= m,
        options_read(kind, items, n) is Err,
    ensures
        options_read(kind, items, m) == options_read(kind, items, n),
    decreases m - n,
{
    if n < m {
        lemma_options_read_stays(kind, items, n, m - 1);
    }
}

/// The text of a value.
fn text_of(value: &MetaValue) -> (r: String)
    ensures
        r@ == value_text(*value),
{
    match value {
        MetaValue::Str(s) => s.clone(),
        MetaValue::Path(p) => p.text(),
        MetaValue::Other(t) => t.clone(),
    }
}

impl MemberOptions {
    /// Reads what is written on one member for the operation `kind`.
    ///
    /// The first item that cannot be read is reported at its position.
    pub fn from_list(kind: OperationKind, items: &Vec<MetaItem>) -> (r: Result<
        MemberOptions,
        Diagnostic,
    >)
        ensures
            match r {
                Ok(o) => member_options_read(kind, items@) == Ok::<OptionsModel, Diagnostic>(o@),
                Err(d) => member_options_read(kind, items@) == Err::<OptionsModel, Diagnostic>(d),
            },
    {
        let mut filter: Option<ForwardAttrsFilter> = None;
        let mut default: Option<String> = None;
        let mut i: usize = 0;
        while i < items.len()
            invariant
                0 <= i <= items.len(),
                options_read(kind, items@, i as int) == Ok::<OptionsModel, Diagnostic>(
                    OptionsModel {
                        forward_attrs: match filter {
                            Some(f) => Some(f@),
                            None => None,
                        },
                        default: text_opt(default),
                    },
                ),
            decreases items.len() - i,
        {
            let item = &items[i];
            let step: Result<(), Violation> = match item {
                MetaItem::Lit(_) => Err(Violation::NonMeta),
                MetaItem::Path(p) => if p.is_ident("forward_attrs") {
                    if filter.is_some() {
                        Err(Violation::DuplicateKey)
                    } else {
                        Err(Violation::UnexpectedFormat)
                    }
                } else if matches!(kind, OperationKind::Partial) && p.is_ident("default") {
                    if default.is_some() {
                        Err(Violation::DuplicateKey)
                    } else {
                        Err(Violation::UnexpectedFormat)
                    }
                } else {
                    Err(Violation::UnknownKey)
                },
                MetaItem::List { path, items: nested } => if path.is_ident("forward_attrs") {
                    if filter.is_some() {
                        Err(Violation::DuplicateKey)
                    } else {
                        match ForwardAttrsFilter::from_list(nested) {
                            Ok(f) => {
                                filter = Some(f);
                                Ok(())
                            },
                            Err(d) => Err(d.violation),
                        }
                    }
                } else if matches!(kind, OperationKind::Partial) && path.is_ident("default") {
                    if default.is_some() {
                        Err(Violation::DuplicateKey)
                    } else {
                        Err(Violation::UnexpectedFormat)
                    }
                } else {
                    Err(Violation::UnknownKey)
                },
                MetaItem::NameValue { path, value } => if path.is_ident("forward_attrs") {
                    if filter.is_some() {
                        Err(Violation::DuplicateKey)
                    } else {
                        Err(Violation::UnexpectedFormat)
                    }
                } else if matches!(kind, OperationKind::Partial) && path.is_ident("default") {
                    if default.is_some() {
                        Err(Violation::DuplicateKey)
                    } else {
                        default = Some(text_of(value));
                        Ok(())
                    }
                } else {
                    Err(Violation::UnknownKey)
                },
            };
            match step {
                Ok(_) => {},
                Err(v) => {
                    let d = Diagnostic::new(i, v);
                    proof {
                        assert(options_read(kind, items@, i + 1) == Err::<
                            OptionsModel,
                            Diagnostic,
                        >(d));
                        lemma_options_read_stays(kind, items@, i + 1, items@.len() as int);
                    }
                    return Err(d);
                },
            }
            i += 1;
        }
        let forward_attrs = match filter {
            Some(f) => f,
            None => ForwardAttrsFilter::All,
        };
        Ok(MemberOptions { forward_attrs, default })
    }
}

} // verus!
