//! Lazy, shape-checked resolution of named quantized tensors out of a GGUF
//! container: a header scan builds an index from fully-qualified name to
//! tensor descriptor, and scoped resolvers compose hierarchical names,
//! validate declared shapes and decode payload bytes on demand.

pub mod builder;
pub mod decode;
pub mod descriptor;
pub mod error;
pub mod guard;
pub mod index;
pub mod names;
pub mod scheme;

pub use builder::DecodedTensor;
pub use builder::VarBuilder;
pub use descriptor::Descriptor;
pub use error::Error;
pub use index::IndexData;
pub use scheme::Scheme;
