//! Synthesis of TypeScript-style type declarations from descriptions of
//! records, tagged unions and wrapper types, with the dependencies and
//! imports needed to split the output over several files.

use vstd::prelude::*;

pub mod casing;
pub mod decl;
pub mod deps;
pub mod descriptor;
pub mod exports;
pub mod laws;
pub mod naming;
pub mod render;
pub mod types;

pub use descriptor::{Body, FieldDesc, GenericParam, Optionality, Shape, TsError, TypeDesc, VariantDesc};
pub use exports::{ExportConfig, ExportTarget, export_file, export_to_string};
pub use naming::{raw_name_to_ts_field, to_ts_ident};
pub use types::{Dependency, Primitive, TsType, TypeInfo};

verus! {

} // verus!
