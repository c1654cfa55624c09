//! Field classification and directive resolution for a Protocol-Buffers-style
//! derive: a field's annotation list is normalised into directives, resolved
//! into exactly one kind of field descriptor, and the descriptor hands out the
//! code fragments from which a message implementation is assembled.

pub mod attr;
pub mod directive;
pub mod error;
pub mod field;
pub mod label;
pub mod laws;
pub mod map;
pub mod message;
pub mod oneof;
pub mod scalar;
pub mod text;
pub mod tokens;

pub use crate::attr::{set_bool, set_option};
pub use crate::directive::{Attribute, Lit, MetaItem, NestedMetaItem};
pub use crate::error::{Error, ErrorKind};
pub use crate::field::Field;
pub use crate::label::Label;
