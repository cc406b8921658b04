//! A builder-pattern code generator.
//!
//! Given the structural description of a record-like type (a named type with
//! an ordered list of named, typed fields), the crate derives a companion
//! builder: a builder type with one optional slot per field, a factory that
//! creates it with every slot absent, one fluent setter per field, and a
//! validating build operation that either assembles a fully populated value
//! or names the first missing field.
//!
//! The crate has three parts, consumed in dependency order:
//! - [`descriptor`]: the extractor, which turns a type description into an
//!   ordered field schema or reports an unsupported shape;
//! - [`synthesis`]: the synthesizer, which deterministically renders the four
//!   generated pieces as source text;
//! - [`instance`]: a dynamic model of the generated builder's runtime
//!   behaviour, with the proofs that the builder state machine behaves as the
//!   generated text promises.

pub mod descriptor;
pub mod instance;
pub mod synthesis;
