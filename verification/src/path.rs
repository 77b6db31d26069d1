//! Names and paths: the identifiers by which members, variants and annotations are told apart.

use vstd::prelude::*;
use vstd::string::StringExecFns;

verus! {

/// The texts of a sequence of strings.
pub open spec fn names_view(v: Seq<String>) -> Seq<Seq<char>> {
    v.map_values(|s: String| s@)
}

/// The models of a sequence of paths.
pub open spec fn paths_view(v: Seq<MetaPath>) -> Seq<PathModel> {
    v.map_values(|p: MetaPath| p@)
}

/// Whether `s` holds exactly the text `lit`.
pub fn text_is(s: &String, lit: &str) -> (r: bool)
    ensures
        r == (s@ == lit@),
{
    let owned = lit.to_owned();
    *s == owned
}

/// A module-style path such as `serde` or `clippy::all`: the name of an annotation,
/// of a decoration, or of a key in an operation's arguments.
#[derive(Debug, PartialEq, Eq)]
pub struct MetaPath {
    /// Whether the path starts with `::`.
    pub leading_colon: bool,
    /// The identifiers between the `::` separators, in order.
    pub segments: Vec<String>,
}

/// What a [`MetaPath`] stands for in contracts.
pub struct PathModel {
    pub leading_colon: bool,
    pub segments: Seq<Seq<char>>,
}

impl PathModel {
    /// The path made of the single identifier `name`.
    pub open spec fn of_ident(name: Seq<char>) -> PathModel {
        PathModel { leading_colon: false, segments: seq![name] }
    }

    /// The identifier that the path consists of, if it is a single identifier
    /// without a leading `::`.
    pub open spec fn ident(self) -> Option<Seq<char>> {
        if !self.leading_colon && self.segments.len() == 1 {
            Some(self.segments[0])
        } else {
            None
        }
    }
}

/// The first `n` segments with `::` between them.
pub open spec fn joined(segments: Seq<Seq<char>>, n: int) -> Seq<char>
    decreases n,
{
    if n <= 0 {
        Seq::empty()
    } else if n == 1 {
        segments[0]
    } else {
        joined(segments, n - 1) + "::"@ + segments[n - 1]
    }
}

impl PathModel {
    /// The path as it is written: its segments with `::` between them, and
    /// `::` in front where it has a leading one.
    pub open spec fn text(self) -> Seq<char> {
        if self.leading_colon {
            "::"@ + joined(self.segments, self.segments.len() as int)
        } else {
            joined(self.segments, self.segments.len() as int)
        }
    }
}

impl View for MetaPath {
    type V = PathModel;

    open spec fn view(&self) -> PathModel {
        PathModel { leading_colon: self.leading_colon, segments: names_view(self.segments@) }
    }
}

impl Clone for MetaPath {
    fn clone(&self) -> (r: Self)
        ensures
            r@ == self@,
    {
        let segments = self.segments.clone();
        assert(names_view(segments@) =~= names_view(self.segments@));
        MetaPath { leading_colon: self.leading_colon, segments }
    }
}

impl MetaPath {
    /// The path that consists of the identifier `name` alone.
    pub fn from_ident(name: &str) -> (r: MetaPath)
        ensures
            r@ == PathModel::of_ident(name@),
    {
        let mut segments: Vec<String> = Vec::new();
        segments.push(name.to_owned());
        assert(names_view(segments@) =~= seq![name@]);
        MetaPath { leading_colon: false, segments }
    }

    /// The identifier that the path consists of, or `None` for a path with a
    /// leading `::` or with any number of segments other than one.
    pub fn get_ident(&self) -> (r: Option<&String>)
        ensures
            match r {
                Some(s) => self@.ident() == Some(s@),
                None => self@.ident() is None,
            },
    {
        if !self.leading_colon && self.segments.len() == 1 {
            Some(&self.segments[0])
        } else {
            None
        }
    }

    /// Whether the path is the single identifier `name`.
    pub fn is_ident(&self, name: &str) -> (r: bool)
        ensures
            r == (self@.ident() == Some(name@)),
    {
        match self.get_ident() {
            Some(s) => text_is(s, name),
            None => false,
        }
    }

    /// The path as it is written.
    pub fn text(&self) -> (r: String)
        ensures
            r@ == self@.text(),
    {
        let mut out = String::new();
        if self.leading_colon {
            out.append("::");
        }
        let ghost head = out@;
        let ghost names = self@.segments;
        let mut i: usize = 0;
        assert(out@ =~= head + joined(names, 0));
        while i < self.segments.len()
            invariant
                0 <= i <= self.segments.len(),
                names == self@.segments,
                out@ == head + joined(names, i as int),
            decreases self.segments.len() - i,
        {
            assert(names[i as int] == self.segments@[i as int]@);
            if i > 0 {
                out.append("::");
            }
            out.append(self.segments[i].as_str());
            assert(out@ =~= head + joined(names, i + 1));
            i += 1;
        }
        assert(head =~= if self.leading_colon {
            "::"@
        } else {
            Seq::empty()
        });
        out
    }

    /// Whether two paths are the same path: the same segments, and both or
    /// neither with a leading `::`.
    pub fn same(&self, other: &MetaPath) -> (r: bool)
        ensures
            r == (self@ == other@),
    {
        if self.leading_colon != other.leading_colon || self.segments.len()
            != other.segments.len() {
            assert(self@.segments.len() != other@.segments.len() || self.leading_colon
                != other.leading_colon);
            return false;
        }
        let mut i: usize = 0;
        while i < self.segments.len()
            invariant
                0 <= i <= self.segments.len(),
                self.segments.len() == other.segments.len(),
                forall|j: int| 0 <= j < i ==> self.segments@[j]@ == other.segments@[j]@,
            decreases self.segments.len() - i,
        {
            if self.segments[i] != other.segments[i] {
                assert(self@.segments[i as int] != other@.segments[i as int]);
                return false;
            }
            i += 1;
        }
        assert(self@.segments =~= other@.segments);
        true
    }
}

/// A list of identifiers: the selection of an operation.
///
/// Contracts read it as a sequence; membership is all that the operations ask
/// of it, so order and repetition make no difference to what they select.
#[derive(Debug, PartialEq, Eq)]
pub struct IdentList(pub Vec<String>);

impl View for IdentList {
    type V = Seq<Seq<char>>;

    open spec fn view(&self) -> Seq<Seq<char>> {
        names_view(self.0@)
    }
}

impl Clone for IdentList {
    fn clone(&self) -> (r: Self)
        ensures
            r@ == self@,
    {
        let values = self.0.clone();
        assert(names_view(values@) =~= names_view(self.0@));
        IdentList(values)
    }
}

impl IdentList {
    /// The list of the given identifiers, in the given order.
    pub fn new(values: Vec<String>) -> (r: IdentList)
        ensures
            r@ == names_view(values@),
    {
        IdentList(values)
    }

    /// The number of entries, repeated ones counted each time.
    pub fn len(&self) -> (r: usize)
        ensures
            r == self@.len(),
    {
        self.0.len()
    }

    /// Whether `name` is one of the identifiers.
    pub fn contains(&self, name: &String) -> (r: bool)
        ensures
            r == self@.contains(name@),
    {
        let mut i: usize = 0;
        while i < self.0.len()
            invariant
                0 <= i <= self.0.len(),
                forall|j: int| 0 <= j < i ==> self@[j] != name@,
            decreases self.0.len() - i,
        {
            if self.0[i] == *name {
                assert(self@[i as int] == name@);
                return true;
            }
            i += 1;
        }
        false
    }
}

/// A list of paths: the annotations that a filter names, or the decorations
/// attached to a derived declaration.
#[derive(Debug, PartialEq, Eq)]
pub struct PathList(pub Vec<MetaPath>);

impl View for PathList {
    type V = Seq<PathModel>;

    open spec fn view(&self) -> Seq<PathModel> {
        paths_view(self.0@)
    }
}

impl Clone for PathList {
    fn clone(&self) -> (r: Self)
        ensures
            r@ == self@,
    {
        let values = self.0.clone();
        assert(paths_view(values@) =~= paths_view(self.0@));
        PathList(values)
    }
}

impl PathList {
    /// The list of the given paths, in the given order.
    pub fn new(values: Vec<MetaPath>) -> (r: PathList)
        ensures
            r@ == paths_view(values@),
    {
        PathList(values)
    }

    /// The list of single-identifier paths with the given names.
    pub fn of_idents(names: &Vec<String>) -> (r: PathList)
        ensures
            r@ == names_view(names@).map_values(|n: Seq<char>| PathModel::of_ident(n)),
    {
        let mut out: Vec<MetaPath> = Vec::new();
        let mut i: usize = 0;
        while i < names.len()
            invariant
                0 <= i <= names.len(),
                out@.len() == i,
                forall|j: int| 0 <= j < i ==> out@[j]@ == PathModel::of_ident(names@[j]@),
            decreases names.len() - i,
        {
            out.push(MetaPath::from_ident(names[i].as_str()));
            i += 1;
        }
        assert(paths_view(out@) =~= names_view(names@).map_values(
            |n: Seq<char>| PathModel::of_ident(n),
        ));
        PathList(out)
    }

    /// The number of entries, repeated ones counted each time.
    pub fn len(&self) -> (r: usize)
        ensures
            r == self@.len(),
    {
        self.0.len()
    }

    /// Whether `path` is one of the paths.
    pub fn contains(&self, path: &MetaPath) -> (r: bool)
        ensures
            r == self@.contains(path@),
    {
        let mut i: usize = 0;
        while i < self.0.len()
            invariant
                0 <= i <= self.0.len(),
                forall|j: int| 0 <= j < i ==> self@[j] != path@,
            decreases self.0.len() - i,
        {
            if self.0[i].same(path) {
                assert(self@[i as int] == path@);
                return true;
            }
            i += 1;
        }
        false
    }
}

} // verus!
