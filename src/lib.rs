//! A small condition language for querying a generated level layout:
//! text is parsed into a `SearchCondition`, which is then evaluated
//! against a `Layout` by counting entities or map units.
pub mod condition;
pub mod laws;
pub mod layout;
pub mod matcher;
pub mod parser;
pub mod text;

pub use condition::{RoomType, SearchCondition, SearchConditionError};
pub use layout::Layout;
