//! What most users of the library need.

pub use crate::mapping::{Action, FieldMapping};
pub use crate::type_info::{StructInfo, TypeInfo, TypeInfoData};
