//! Verified core of a small web service that shows a GitHub repository's
//! metadata together with a breakdown of its source languages.
//!
//! The library holds the request pipeline's logic: classifying upstream
//! outcomes, parsing the language and color documents, computing each
//! language's share of the total byte count, looking up display colors, and
//! assembling the view handed to the renderer. The network calls, file
//! reading and HTML rendering around it live outside the library.

pub mod colors;
pub mod digits;
pub mod errors;
pub mod language;
pub mod repo;
