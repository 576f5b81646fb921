//! The memory core of a runtime with hot reloading: a mark-and-sweep garbage
//! collector whose objects can be migrated in place to the layouts of newly
//! loaded code.

pub use type_info::{FieldInfo, StructInfo, TypeFields, TypeInfo, TypeInfoData};

pub mod abi;
pub mod bytes;
pub mod cast;
pub mod code_model;
pub mod gc;
pub mod heap;
pub mod layout;
pub mod mark;
pub mod mapper;
pub mod mapping;
pub mod mark_sweep;
pub mod prelude;
pub mod type_info;
pub mod type_lut;
