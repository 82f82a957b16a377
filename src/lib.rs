//! Derivation of the codec of a record type that the host runtime carries as
//! a tagged map: the schema of a declaration, the symbols it needs, the
//! decoder and encoder that the generated code performs, and the generated
//! source itself.

pub mod codec;
pub mod emit;
pub mod laws;
pub mod schema;
pub mod symbols;
pub mod term;
