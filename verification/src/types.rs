//! Declared types, as far as the operations look into them: whether a type is
//! the optional wrapper around another type.

use crate::path::{names_view, text_is};
use vstd::prelude::*;

verus! {

/// The declared type of a member.
///
/// Only a path with generic arguments whose first argument is a type is taken
/// apart, so that the optional wrapper can be recognised and removed. Every
/// other type is held as it is written.
#[derive(Debug, PartialEq, Eq)]
pub enum TypeExpr {
    /// A path whose last segment has generic arguments, the first of them a
    /// type: `Option<u8>`, `std::vec::Vec<T>`, `HashMap<K, V>`.
    Generic {
        /// Whether the path starts with `::`.
        leading_colon: bool,
        /// The identifiers of the path's segments.
        segments: Vec<String>,
        /// The first generic argument.
        first: Box<TypeExpr>,
        /// The generic arguments after the first, each as written.
        rest: Vec<String>,
    },
    /// Any other type, as written.
    Plain(String),
}

/// What a [`TypeExpr`] stands for in contracts.
pub enum TypeModel {
    Generic {
        leading_colon: bool,
        segments: Seq<Seq<char>>,
        first: Box<TypeModel>,
        rest: Seq<Seq<char>>,
    },
    Plain(Seq<char>),
}

impl View for TypeExpr {
    type V = TypeModel;

    open spec fn view(&self) -> TypeModel
        decreases self,
    {
        match self {
            TypeExpr::Generic { leading_colon, segments, first, rest } => TypeModel::Generic {
                leading_colon: *leading_colon,
                segments: names_view(segments@),
                first: Box::new((**first)@),
                rest: names_view(rest@),
            },
            TypeExpr::Plain(t) => TypeModel::Plain(t@),
        }
    }
}

impl TypeModel {
    /// The optional wrapper around this type: `Option<T>` for `T`.
    pub open spec fn optional(self) -> TypeModel {
        TypeModel::Generic {
            leading_colon: false,
            segments: seq!["Option"@],
            first: Box::new(self),
            rest: Seq::empty(),
        }
    }

    /// Whether the segments spell one of the names by which the optional
    /// wrapper is known: `Option`, `std::option::Option`, `core::option::Option`.
    pub open spec fn names_option(segments: Seq<Seq<char>>) -> bool {
        ||| segments =~= seq!["Option"@]
        ||| segments =~= seq!["std"@, "option"@, "Option"@]
        ||| segments =~= seq!["core"@, "option"@, "Option"@]
    }

    /// The type inside, where this type is the optional wrapper around a type:
    /// a path that spells one of the wrapper's names and whose first generic
    /// argument is a type.
    pub open spec fn optional_inner(self) -> Option<TypeModel> {
        match self {
            TypeModel::Generic { segments, first, .. } => if Self::names_option(segments) {
                Some(*first)
            } else {
                None
            },
            TypeModel::Plain(_) => None,
        }
    }

    /// Whether this type is the optional wrapper around a type.
    pub open spec fn is_optional(self) -> bool {
        self.optional_inner() is Some
    }

    /// This type with one optional wrapper removed, if it has one; otherwise
    /// this type unchanged.
    pub open spec fn required(self) -> TypeModel {
        match self.optional_inner() {
            Some(inner) => inner,
            None => self,
        }
    }
}

impl Clone for TypeExpr {
    fn clone(&self) -> (r: Self)
        ensures
            r@ == self@,
        decreases self,
    {
        match self {
            TypeExpr::Generic { leading_colon, segments, first, rest } => {
                let segments_copy = segments.clone();
                let rest_copy = rest.clone();
                let first_copy = (**first).clone();
                assert(names_view(segments_copy@) =~= names_view(segments@));
                assert(names_view(rest_copy@) =~= names_view(rest@));
                TypeExpr::Generic {
                    leading_colon: *leading_colon,
                    segments: segments_copy,
                    first: Box::new(first_copy),
                    rest: rest_copy,
                }
            },
            TypeExpr::Plain(t) => TypeExpr::Plain(t.clone()),
        }
    }
}

/// Whether the segments spell one of the names of the optional wrapper.
fn spells_option(segments: &Vec<String>) -> (r: bool)
    ensures
        r == TypeModel::names_option(names_view(segments@)),
{
    let n = segments.len();
    let ghost names = names_view(segments@);
    if n == 1 {
        let r = text_is(&segments[0], "Option");
        assert(r == (names =~= seq!["Option"@])) by {
            assert(names[0] == segments@[0]@);
        }
        r
    } else if n == 3 {
        let head = text_is(&segments[0], "std") || text_is(&segments[0], "core");
        let r = head && text_is(&segments[1], "option") && text_is(&segments[2], "Option");
        assert(r == (names =~= seq!["std"@, "option"@, "Option"@] || names =~= seq![
            "core"@,
            "option"@,
            "Option"@,
        ])) by {
            assert(names[0] == segments@[0]@);
            assert(names[1] == segments@[1]@);
            assert(names[2] == segments@[2]@);
        }
        r
    } else {
        false
    }
}

impl TypeExpr {
    /// The type written `text`, not taken apart.
    pub fn plain(text: &str) -> (r: TypeExpr)
        ensures
            r@ == TypeModel::Plain(text@),
    {
        TypeExpr::Plain(text.to_owned())
    }

    /// The optional wrapper around a copy of this type.
    pub fn wrap_optional(&self) -> (r: TypeExpr)
        ensures
            r@ == self@.optional(),
    {
        let mut segments: Vec<String> = Vec::new();
        segments.push("Option".to_owned());
        let rest: Vec<String> = Vec::new();
        assert(names_view(segments@) =~= seq!["Option"@]);
        assert(names_view(rest@) =~= Seq::<Seq<char>>::empty());
        TypeExpr::Generic {
            leading_colon: false,
            segments,
            first: Box::new(self.clone()),
            rest,
        }
    }

    /// The type inside, where this type is the optional wrapper around a type.
    pub fn optional_inner(&self) -> (r: Option<&TypeExpr>)
        ensures
            match r {
                Some(inner) => self@.optional_inner() == Some(inner@),
                None => self@.optional_inner() is None,
            },
    {
        match self {
            TypeExpr::Generic { leading_colon, segments, first, rest } => {
                if spells_option(segments) {
                    Some(&**first)
                } else {
                    None
                }
            },
            TypeExpr::Plain(_) => None,
        }
    }

    /// Whether this type is the optional wrapper around a type.
    pub fn is_optional(&self) -> (r: bool)
        ensures
            r == self@.is_optional(),
    {
        self.optional_inner().is_some()
    }

    /// This type with one optional wrapper removed, if it has one; otherwise
    /// this type itself.
    pub fn required(&self) -> (r: &TypeExpr)
        ensures
            r@ == self@.required(),
    {
        match self.optional_inner() {
            Some(inner) => inner,
            None => self,
        }
    }
}

/// Removing the wrapper that was just put on gives the type back.
pub proof fn lemma_required_of_optional(t: TypeModel)
    ensures
        t.optional().is_optional(),
        t.optional().required() == t,
{
    assert(t.optional()->Generic_segments =~= seq!["Option"@]);
}

/// A type that is not the optional wrapper around a type is left as it is.
pub proof fn lemma_required_keeps_plain(t: TypeModel)
    requires
        !t.is_optional(),
    ensures
        t.required() == t,
{
}

/// Exactly one layer is removed: of a doubly optional type the singly optional
/// one is left, whatever the type inside.
pub proof fn lemma_required_removes_one_layer(t: TypeModel)
    ensures
        t.optional().optional().required() == t.optional(),
{
    lemma_required_of_optional(t.optional());
}

} // verus!
