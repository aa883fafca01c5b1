//! A streaming JSON serializer: values are written straight into a text
//! buffer, scope by scope, without an intermediate tree.
//!
//! A [`Serializer`] wraps the buffer and hands out the document's one value:
//! a primitive, an [`ArrayWriter`] or an [`ObjectWriter`]. A scope holds the
//! buffer while it is open, so scopes nest and close in the reverse order of
//! their opening. Every scope is closed by its `end`, which writes the
//! closing delimiter; a scope that is let go without `end` stays open in the
//! text. The slot of a single value, [`SingleValueSerializer`], holds `null`
//! when it is released unwritten.
//!
//! Every function states what it appends to the buffer, over the buffer's
//! text as a sequence of characters. The modules `escape`, `decimal` and
//! `grammar` define the text of strings, integers, arrays and objects, and
//! prove what holds of it.

pub mod array;
pub mod buffer;
pub mod decimal;
pub mod escape;
pub mod grammar;
pub mod object;
mod seal;
pub mod serializer;
pub mod write_to_json;

pub use array::ArrayWriter;
pub use buffer::JsonBuffer;
pub use object::{Key, ObjectWriter};
pub use serializer::{Serializer, SingleValueSerializer};
pub use write_to_json::{Null, Preformatted, UnescapedStr, WriteToJson};
