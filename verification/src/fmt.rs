//! The writer of fixed capacity, the formatter that borrows it for a formatting pass, and
//! the writing of the supported types.

pub mod argument;
pub mod error;
pub mod formatter;
pub mod std_type_impls;
pub mod str_writer;

pub use argument::Argument;
pub use error::Error;
pub use formatter::{Formatter, FormattingLength};
pub use std_type_impls::combinators::Newtype;
pub use str_writer::StrWriter;

pub use crate::formatting::{FormattingFlags, FormattingMode};
