//! A column-oriented CSV transformer driven by a declarative configuration.
//!
//! Each output column is described by a chain of expressions. The chain is
//! compiled once against the header of an input source, and the compiled
//! chain is then folded over every record of that source.
pub mod compile;
pub mod date;
pub mod error;
pub mod expression;
pub mod mapping;
pub mod names;
pub mod options;
pub mod pattern;
pub mod pipeline;
pub mod record;
pub mod text;
pub mod transformation;
pub mod value;

pub use crate::compile::{create_transformer, Transformer};
pub use crate::error::{ConfigParseError, OperationError, PrintableError};
pub use crate::expression::{Column, Config, Expression, ReplaceRegex};
pub use crate::names::{InputColumnIndexByName, NameMap, Variables};
pub use crate::pipeline::{run, RunState, TransformedRow};
pub use crate::transformation::{StringCase, Transformation};
pub use crate::value::CellValue;
