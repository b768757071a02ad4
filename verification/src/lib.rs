//! Rendering of debug-symbol type records as C-like declaration text, and
//! aggregation of structure layouts keyed by byte offset.
//!
//! The crate works on a plain model of the type stream: a [`TypeTable`] holds
//! one [`TypeRecord`] per type index, and every algorithm here is a pure
//! function of that table.  Reading the table out of a debug-symbol container
//! is left to the embedding program.

pub mod aggregate;
pub mod catalog;
pub mod kinds;
pub mod laws;
pub mod render;
pub mod table;
pub mod textfmt;

pub use aggregate::aggregate;
pub use aggregate::AggregateError;
pub use aggregate::FieldSlot;
pub use aggregate::StructLayout;
pub use catalog::build_catalog;
pub use catalog::get_structure;
pub use catalog::get_structure_length;
pub use catalog::Catalog;
pub use catalog::CatalogEntry;
pub use kinds::PrimitiveKind;
pub use kinds::TypeData;
pub use render::render;
pub use render::ResolveError;
pub use table::Member;
pub use table::TypeIndex;
pub use table::TypeRecord;
pub use table::TypeTable;
pub use textfmt::contains_ci;
