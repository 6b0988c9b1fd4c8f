//! A reader of LDraw files: line-oriented descriptions of models that are
//! built of primitive shapes and of references to other models.
//!
//! [`lexer`] splits a line into tokens, [`line`] reads the six types of
//! lines, [`parser`] gathers the lines of a file into documents and
//! [`palette`] reads the definitions of materials. The contracts speak of
//! texts as sequences of characters; [`laws`] states what follows of them.
//! Numbers with a fraction are kept as they are spelled ([`scalar`]), and
//! rounding them is left to the user of the library.
//!
//! [`instances`] walks through a file and gathers what is to be drawn,
//! [`display_list`] keeps it sorted by model and by opacity, and
//! [`picture`] cuts the picture that was drawn out of what was read back.

pub mod color;
pub mod display_list;
pub mod document;
pub mod elements;
pub mod error;
pub mod instances;
pub mod laws;
pub mod lexer;
pub mod line;
pub mod number;
pub mod palette;
pub mod parser;
pub mod picture;
pub mod pixels;
pub mod scalar;
pub mod text;
