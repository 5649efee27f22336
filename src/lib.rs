//! Validation of dynamically typed documents against per-field rule chains.
//!
//! A `FormValidator` maps field paths (dots separate nested keys) to validators; a `Rules`
//! chain runs several validators in order, with a default that stands in for null.
pub mod checks;
pub mod error;
pub mod form;
pub mod laws;
pub mod number;
pub mod pattern;
pub mod rules;
pub mod text;
pub mod traits;
pub mod value;

pub use form::FormValidator;
pub use rules::Rules;
