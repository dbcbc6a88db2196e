//! Turns the element stream of one event-log record into a normalized
//! record, and a normalized record into a bodyfile line or a JSON document.

pub mod ancestors;
pub mod bodyfileline;
pub mod bodyfilevisitor;
pub mod document;
pub mod driver;
pub mod error;
pub mod json;
pub mod payload;
pub mod record;
pub mod stream;
pub mod text;
pub mod timestamp;
pub mod tree;
