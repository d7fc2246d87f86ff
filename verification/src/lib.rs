//! A line-oriented template engine for SVG images.
//!
//! A [`Model`] is an ordered list of literal byte runs and numbered argument slots,
//! read from a text in which a line of the form `#GET <N>` marks slot `N`. Writing a
//! model fills every slot from a caller-supplied list of [`Argument`]s and emits the
//! pieces in order.

pub mod argument;
pub mod catalog;
pub mod directive;
pub mod image;
pub mod laws;
pub mod lines;
pub mod model;
pub mod parse;
pub mod segment;
pub mod substitute;

pub use argument::Argument;
pub use image::Image;
pub use model::Model;
pub use model::Step;
pub use segment::ModelPart;
