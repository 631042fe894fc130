//! A tree of the elements of a vector graphics document, the cascade that
//! computes the style of each element, and the layout of its text.
//!
//! The attributes and style rules of an element are taken in by `node`, with
//! `cond` for conditional processing, `css` for declarations and what is
//! important among them, and `properties` for the values themselves. `text`
//! turns the children of a `text` element into chunks of spans, measures them
//! with what a shaping backend reports, and places them.

pub mod attributes;
pub mod bbox;
pub mod cond;
pub mod css;
pub mod error;
pub mod length;
pub mod node;
pub mod properties;
pub mod space;
pub mod strings;
pub mod text;
