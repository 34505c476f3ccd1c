//! Fixed-width unsigned integers and arrays of them, seen as the bytes that
//! hold them in memory.
//!
//! [`convert`] reinterprets a value of one type as a value of another type of
//! the same size; [`read`] takes integers from the two ends of a byte buffer.
//! Both rest on [`plain`], which says for each type what bytes hold a value,
//! on [`digits`] for the integers and on [`lanes`] for the arrays of them.
//! Nothing here swaps bytes: a machine's byte order decides what a value's
//! bytes are, never what is done with them.
pub mod convert;
pub mod digits;
pub mod lanes;
pub mod order;
pub mod plain;
pub mod read;

pub use convert::Convert;
pub use order::ByteOrder;
pub use plain::Plain;
pub use read::{as_array, ReadFromSlice};
