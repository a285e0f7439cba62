//! Conversion of identifiers between the camelCase, PascalCase, snake_case
//! and kebab-case naming conventions, and the `submit` command that picks the
//! target convention from its textual name.

pub mod converter;
pub mod dispatch;
pub mod scheme;
pub mod separate;
mod text;
pub mod words;

pub use converter::convert;
pub use dispatch::submit;
pub use scheme::NamingScheme;
