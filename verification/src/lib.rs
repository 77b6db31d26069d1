//! Deriving schemas from a schema: the operations Pick, Omit, Partial,
//! Required, Extract and Exclude on the shape of a record or of a tagged
//! union, the filters that say which annotations go over to what is derived,
//! and the plans that lead between values of the source and of what is
//! derived from it.

pub mod args;
pub mod derive;
pub mod exclude;
pub mod extract;
pub mod filter;
pub mod meta;
pub mod omit;
pub mod operation;
pub mod partial;
pub mod path;
pub mod pick;
pub mod plan;
pub mod required;
pub mod schema;
pub mod types;
pub mod validate;

pub use crate::exclude::exclude;
pub use crate::extract::extract;
pub use crate::filter::{filter_forward_attrs, ForwardAttrsFilter};
pub use crate::omit::omit;
pub use crate::partial::partial;
pub use crate::path::IdentList;
pub use crate::pick::pick;
pub use crate::required::required;
