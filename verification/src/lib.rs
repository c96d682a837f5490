//! The data model a compiler front-end emits to describe the static
//! structure of one compiled unit — crate metadata, import statements,
//! declarations, identifier references, macro invocation sites and
//! type/trait relations — together with a verified textual codec for it.
//!
//! The schema lives in [`schema`]; [`Analysis`] is the aggregate root. Its
//! JSON shape is specified in [`codec`], written and parsed by the verified
//! functions in [`json`], [`parse`] and [`convert`], and
//! [`codec::lemma_round_trip`] proves that decoding an encoded document
//! gives back exactly the original value.

pub mod codec;
pub mod convert;
pub mod invert;
pub mod json;
pub mod parse;
pub mod schema;

pub use convert::DecodeError;
pub use schema::Analysis;
pub use schema::Attribute;
pub use schema::CratePreludeData;
pub use schema::Def;
pub use schema::DefKind;
pub use schema::ExternalCrateData;
pub use schema::Format;
pub use schema::Id;
pub use schema::Import;
pub use schema::ImportKind;
pub use schema::MacroRef;
pub use schema::Ref;
pub use schema::RefKind;
pub use schema::Relation;
pub use schema::RelationKind;
pub use schema::SigElement;
pub use schema::Signature;
pub use schema::SpanData;
