//! Formats tracing spans and events as newline-delimited Bunyan JSON records.

pub mod clock;
pub mod engine;
pub mod error;
pub mod fields;
pub mod json;
pub mod laws;
pub mod layer;
pub mod message;
pub mod metadata;
pub mod record;
pub mod schema;
pub mod skip;
pub mod text;
pub mod timer;

pub use crate::error::FormatError;
pub use crate::fields::FieldStore;
pub use crate::layer::BunyanFormattingLayer;
pub use crate::metadata::{Event, Level, Metadata, Span, Type};
pub use crate::record::{Field, FieldValue, Record};
pub use crate::skip::SkipFieldError;
pub use crate::timer::SpanTimer;
