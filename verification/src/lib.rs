pub mod dispatch;
pub mod emit;
pub mod expand;
pub mod grammar;
pub mod laws;
pub mod options;
pub mod token;

pub use dispatch::{Arm, DispatchTable, Key, ResolvedField, UnknownKeyError};
pub use emit::{generate, render};
pub use expand::{expand, ExpandError, Expansion, FieldDef, GeneratedImpl, StructDef};
pub use grammar::GrammarError;
pub use options::{
    Annotation, AnnotationError, FieldPolicy, StructOptions, UnknownOptionError,
};
pub use token::{AttrToken, Entry};
