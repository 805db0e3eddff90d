//! Drawings of a word-processing document: pictures and text boxes, their
//! placement on the page and the markup that describes them.

pub mod decimal;
pub mod xml;
pub mod position;
pub mod placement;
pub mod pic;
pub mod text_box;
pub mod drawing;
