//! Getter and setter generation for record declarations.
//!
//! A record declaration is handed over already parsed (see [`Record`]). Fields
//! carrying a `get` marker receive a getter, fields carrying a `set` marker
//! receive a setter; those two markers are removed from the declaration and
//! every other marker is left in place. The generated operations are grouped
//! in one block after the declaration, which is left out when it would be
//! empty.

pub mod accessor;
pub mod decl;
pub mod expand;
pub mod laws;
pub mod object;

pub use accessor::{Accessor, AccessorKind, ClassifiedField};
pub use decl::{Field, GenericParams, Marker, Record};
pub use expand::{first_unnamed, ters, ExpandError, Expansion, ImplBlock};
pub use object::Object;
