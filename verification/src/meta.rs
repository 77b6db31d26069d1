//! The arguments of an operation as they are written: a tree of items, and the
//! readers that turn lists of items into lists of names.

use crate::path::{IdentList, MetaPath, PathList, PathModel};
use vstd::prelude::*;

verus! {

/// What is wrong with an operation's arguments or with the schema it is applied to.
#[derive(Clone, Copy, Debug, PartialEq, Eq, Structural)]
pub enum Violation {
    /// No target name is given.
    MissingTarget,
    /// The target name is the empty text.
    EmptyTarget,
    /// The operation selects by name, and no selection is given.
    MissingSelection,
    /// The selection names nothing.
    EmptySelection,
    /// An earlier operation on the same source has the same target name.
    DuplicateTarget,
    /// The source schema is not of the kind that the operation applies to.
    UnsupportedShape,
    /// The arguments were written for another operation.
    WrongOperation,
    /// A list that must name at least one item is empty.
    TooFewItems,
    /// A path of several segments stands where a single identifier is expected.
    NonIdent,
    /// Something other than a bare path stands where an identifier is expected.
    NonPath,
    /// Something other than a bare path stands in a list of paths.
    NonWord,
    /// A literal stands where a keyed item is expected.
    NonMeta,
    /// A filter holds a single list that is not `not(..)`.
    ExpectedNot,
    /// A filter holds a single item that is neither a path nor a list.
    NonPathOrList,
    /// A key that the operation does not know.
    UnknownKey,
    /// A key that is given a second time.
    DuplicateKey,
    /// A key is written in a form that it does not take.
    UnexpectedFormat,
    /// A key is given a value of a kind that it does not take.
    UnexpectedValue,
}

/// One finding: what is wrong, and where.
#[derive(Clone, Copy, Debug, PartialEq, Eq, Structural)]
pub struct Diagnostic {
    /// The position, in the list that was handed to the function that reports
    /// the finding, of the item in which it was found.
    pub location: usize,
    /// What is wrong there.
    pub violation: Violation,
}

impl Violation {
    /// The text of the message for each violation.
    pub open spec fn text(self) -> Seq<char> {
        match self {
            Violation::MissingTarget => "Missing field `ident`"@,
            Violation::EmptyTarget => "Unknown literal value ``"@,
            Violation::MissingSelection => "Missing selection"@,
            Violation::EmptySelection => "Too few items: Expected at least 1"@,
            Violation::DuplicateTarget => "Duplicate target name"@,
            Violation::UnsupportedShape => "Unsupported shape"@,
            Violation::WrongOperation => "Arguments of another operation"@,
            Violation::TooFewItems => "Too few items: Expected at least 1"@,
            Violation::NonIdent => "Unexpected type `non ident`"@,
            Violation::NonPath => "Unexpected type `non path, expected ident`"@,
            Violation::NonWord => "Unexpected type `non-word`"@,
            Violation::NonMeta => "Unexpected type `non meta`"@,
            Violation::ExpectedNot => "Unknown literal value `expected `not(attr1, attr2, ...)``"@,
            Violation::NonPathOrList => "Unexpected type `non path or list`"@,
            Violation::UnknownKey => "Unknown field"@,
            Violation::DuplicateKey => "Duplicate field"@,
            Violation::UnexpectedFormat => "Unexpected meta-item format"@,
            Violation::UnexpectedValue => "Unexpected literal type"@,
        }
    }

    /// The message for this violation.
    pub fn message(&self) -> (r: String)
        ensures
            r@ == self.text(),
    {
        match self {
            Violation::MissingTarget => "Missing field `ident`".to_owned(),
            Violation::EmptyTarget => "Unknown literal value ``".to_owned(),
            Violation::MissingSelection => "Missing selection".to_owned(),
            Violation::EmptySelection => "Too few items: Expected at least 1".to_owned(),
            Violation::DuplicateTarget => "Duplicate target name".to_owned(),
            Violation::UnsupportedShape => "Unsupported shape".to_owned(),
            Violation::WrongOperation => "Arguments of another operation".to_owned(),
            Violation::TooFewItems => "Too few items: Expected at least 1".to_owned(),
            Violation::NonIdent => "Unexpected type `non ident`".to_owned(),
            Violation::NonPath => "Unexpected type `non path, expected ident`".to_owned(),
            Violation::NonWord => "Unexpected type `non-word`".to_owned(),
            Violation::NonMeta => "Unexpected type `non meta`".to_owned(),
            Violation::ExpectedNot => "Unknown literal value `expected `not(attr1, attr2, ...)``".to_owned(),
            Violation::NonPathOrList => "Unexpected type `non path or list`".to_owned(),
            Violation::UnknownKey => "Unknown field".to_owned(),
            Violation::DuplicateKey => "Duplicate field".to_owned(),
            Violation::UnexpectedFormat => "Unexpected meta-item format".to_owned(),
            Violation::UnexpectedValue => "Unexpected literal type".to_owned(),
        }
    }
}

impl Diagnostic {
    /// The finding `violation` at position `location`.
    pub fn new(location: usize, violation: Violation) -> (r: Diagnostic)
        ensures
            r == (Diagnostic { location, violation }),
    {
        Diagnostic { location, violation }
    }

    /// The message of the finding.
    pub fn message(&self) -> (r: String)
        ensures
            r@ == self.violation.text(),
    {
        self.violation.message()
    }
}

/// The value behind a key that is written `key = value`.
#[derive(Debug, PartialEq, Eq)]
pub enum MetaValue {
    /// A string literal, by its contents.
    Str(String),
    /// A path.
    Path(MetaPath),
    /// Any other expression, as written.
    Other(String),
}

/// One item of an operation's arguments.
#[derive(Debug, PartialEq, Eq)]
pub enum MetaItem {
    /// A bare path: `serde`.
    Path(MetaPath),
    /// A path with a list of items in brackets: `fields(title, author)`.
    List { path: MetaPath, items: Vec<MetaItem> },
    /// A path with a value: `ident = Meta`.
    NameValue { path: MetaPath, value: MetaValue },
    /// A literal, as written.
    Lit(String),
}

impl MetaItem {
    /// The path that a bare-path item consists of.
    pub open spec fn as_path(self) -> Option<PathModel> {
        match self {
            MetaItem::Path(p) => Some(p@),
            _ => None,
        }
    }

    /// The identifier that a bare-path item consists of, if it is one identifier.
    pub open spec fn as_ident(self) -> Option<Seq<char>> {
        match self {
            MetaItem::Path(p) => p@.ident(),
            _ => None,
        }
    }

    /// The path in front of a keyed item; a literal has none.
    pub open spec fn key(self) -> Option<PathModel> {
        match self {
            MetaItem::Path(p) => Some(p@),
            MetaItem::List { path, .. } => Some(path@),
            MetaItem::NameValue { path, .. } => Some(path@),
            MetaItem::Lit(_) => None,
        }
    }
}

/// Whether every item is a bare path.
pub open spec fn all_paths(items: Seq<MetaItem>) -> bool {
    forall|i: int| 0 <= i < items.len() ==> (#[trigger] items[i]).as_path() is Some
}

/// The paths that the items consist of, where every item is a bare path.
pub open spec fn paths_of(items: Seq<MetaItem>) -> Seq<PathModel> {
    items.map_values(|item: MetaItem| item.as_path()->0)
}

/// Whether `i` is the position of the first item that is not a bare path.
pub open spec fn first_non_path(items: Seq<MetaItem>, i: int) -> bool {
    &&& 0 <= i < items.len()
    &&& items[i].as_path() is None
    &&& forall|j: int| 0 <= j < i ==> (#[trigger] items[j]).as_path() is Some
}

/// Whether every item is a single identifier.
pub open spec fn all_idents(items: Seq<MetaItem>) -> bool {
    forall|i: int| 0 <= i < items.len() ==> (#[trigger] items[i]).as_ident() is Some
}

/// The identifiers that the items consist of, where every item is one.
pub open spec fn idents_of(items: Seq<MetaItem>) -> Seq<Seq<char>> {
    items.map_values(|item: MetaItem| item.as_ident()->0)
}

/// Whether `i` is the position of the first item that is not a single identifier.
pub open spec fn first_non_ident(items: Seq<MetaItem>, i: int) -> bool {
    &&& 0 <= i < items.len()
    &&& items[i].as_ident() is None
    &&& forall|j: int| 0 <= j < i ==> (#[trigger] items[j]).as_ident() is Some
}

/// There is only one first item that is not a single identifier.
pub proof fn lemma_first_non_ident_unique(items: Seq<MetaItem>, a: int, b: int)
    requires
        first_non_ident(items, a),
        first_non_ident(items, b),
    ensures
        a == b,
{
    if a < b {
        assert(items[a].as_ident() is Some);
    } else if b < a {
        assert(items[b].as_ident() is Some);
    }
}

/// What a list of identifiers reads as: the identifiers, or what is wrong
/// with the first item that is none, or that the list is empty.
pub open spec fn idents_read(items: Seq<MetaItem>) -> Result<Seq<Seq<char>>, Violation> {
    if !all_idents(items) {
        let i = choose|i: int| first_non_ident(items, i);
        Err(
            if items[i] is Path {
                Violation::NonIdent
            } else {
                Violation::NonPath
            },
        )
    } else if items.len() == 0 {
        Err(Violation::TooFewItems)
    } else {
        Ok(idents_of(items))
    }
}

/// What a list of paths reads as: the paths, or that an item is no bare path.
pub open spec fn paths_read(items: Seq<MetaItem>) -> Result<Seq<PathModel>, Violation> {
    if all_paths(items) {
        Ok(paths_of(items))
    } else {
        Err(Violation::NonWord)
    }
}

impl IdentList {
    /// Reads a list of identifiers from the items of `fields(..)` or `variants(..)`.
    ///
    /// Every item must be a single identifier and there must be at least one.
    /// The first item that is not an identifier is reported: as `NonIdent`
    /// where it is a longer path, as `NonPath` where it is no path at all. An
    /// empty list is reported as `TooFewItems`.
    pub fn from_list(items: &Vec<MetaItem>) -> (r: Result<IdentList, Diagnostic>)
        ensures
            match r {
                Ok(list) => items@.len() > 0 && all_idents(items@) && list@ == idents_of(items@),
                Err(d) => if items@.len() == 0 {
                    d == (Diagnostic { location: 0, violation: Violation::TooFewItems })
                } else {
                    &&& first_non_ident(items@, d.location as int)
                    &&& d.violation == if items@[d.location as int] is Path {
                        Violation::NonIdent
                    } else {
                        Violation::NonPath
                    }
                },
            },
            match r {
                Ok(list) => idents_read(items@) == Ok::<Seq<Seq<char>>, Violation>(list@),
                Err(d) => idents_read(items@) == Err::<Seq<Seq<char>>, Violation>(d.violation),
            },
    {
        let mut values: Vec<String> = Vec::new();
        let mut i: usize = 0;
        while i < items.len()
            invariant
                0 <= i <= items.len(),
                values@.len() == i,
                forall|j: int|
                    #![trigger items@[j]]
                    #![trigger values@[j]]
                    0 <= j < i ==> items@[j].as_ident() == Some(values@[j]@),
            decreases items.len() - i,
        {
            match &items[i] {
                MetaItem::Path(path) => match path.get_ident() {
                    Some(ident) => {
                        values.push(ident.clone());
                    },
                    None => {
                        proof {
                            assert(first_non_ident(items@, i as int));
                            let c = choose|c: int| first_non_ident(items@, c);
                            lemma_first_non_ident_unique(items@, c, i as int);
                        }
                        return Err(Diagnostic::new(i, Violation::NonIdent));
                    },
                },
                _ => {
                    proof {
                        assert(first_non_ident(items@, i as int));
                        let c = choose|c: int| first_non_ident(items@, c);
                        lemma_first_non_ident_unique(items@, c, i as int);
                    }
                    return Err(Diagnostic::new(i, Violation::NonPath));
                },
            }
            i += 1;
        }
        if values.len() == 0 {
            return Err(Diagnostic::new(0, Violation::TooFewItems));
        }
        let list = IdentList::new(values);
        assert(list@ =~= idents_of(items@));
        Ok(list)
    }
}

impl PathList {
    /// Reads a list of paths from the items of `derive(..)` or of a filter.
    ///
    /// Every item must be a bare path; the list may be empty. The first item
    /// that is not a bare path is reported as `NonWord`.
    pub fn from_list(items: &Vec<MetaItem>) -> (r: Result<PathList, Diagnostic>)
        ensures
            match r {
                Ok(list) => all_paths(items@) && list@ == paths_of(items@),
                Err(d) => first_non_path(items@, d.location as int) && d.violation
                    == Violation::NonWord,
            },
            match r {
                Ok(list) => paths_read(items@) == Ok::<Seq<PathModel>, Violation>(list@),
                Err(d) => paths_read(items@) == Err::<Seq<PathModel>, Violation>(d.violation),
            },
    {
        let mut paths: Vec<MetaPath> = Vec::new();
        let mut i: usize = 0;
        while i < items.len()
            invariant
                0 <= i <= items.len(),
                paths@.len() == i,
                forall|j: int|
                    #![trigger items@[j]]
                    #![trigger paths@[j]]
                    0 <= j < i ==> items@[j].as_path() == Some(paths@[j]@),
            decreases items.len() - i,
        {
            match &items[i] {
                MetaItem::Path(path) => {
                    paths.push(path.clone());
                },
                _ => {
                    return Err(Diagnostic::new(i, Violation::NonWord));
                },
            }
            i += 1;
        }
        let list = PathList::new(paths);
        assert(list@ =~= paths_of(items@));
        Ok(list)
    }
}

} // verus!
