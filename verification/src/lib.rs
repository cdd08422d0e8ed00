//! Rendering of typed records into markup fragments.
//!
//! A record type is declared with annotations that say how its values are
//! rendered: which element wraps a record, which element each field gets,
//! which attributes the elements carry. The declaration is parsed
//! ([`syntax`]), collected into a schema ([`derive`]) and checked
//! ([`validate`]). A sound schema renders every record of its type
//! ([`schema`], [`render`]).
pub mod alike;
pub mod attrs;
pub mod derive;
pub mod element;
pub mod encode;
pub mod expr;
pub mod format;
pub mod record;
pub mod render;
pub mod response;
pub mod schema;
pub mod syntax;
pub mod template;
pub mod validate;
pub mod value;

pub use crate::render::{derive_element, Element, HtmxElement, Schema};
