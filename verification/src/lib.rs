//! A zero-copy decoder for DNS messages: header, flags, names and questions,
//! read from a byte buffer through a bounds-checked cursor.

pub mod util;
pub mod reader;
pub mod decoder;
pub mod header;
pub mod name;
pub mod question;
