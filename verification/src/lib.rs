//! A read-only gateway's core: decoding what the upstream question-and-answer
//! site sends, and rendering its rich text for display.
//!
//! * [`json`] holds a JSON document as plain values; [`fields`] finds the
//!   fields of its objects and [`decode`] reads them; [`types`] decodes the
//!   records; [`parser`] decodes whole pages and the state that a
//!   server-rendered page embeds.
//! * [`emoji`] and [`rewrite`] are the two stages of [`render`]; [`pattern`]
//!   and [`html`] hold what the `regex` and `lol_html` crates do for them.
//! * [`links`] and [`display`] decide what a page shows of a record.

pub mod decode;
pub mod display;
pub mod emoji;
pub mod fields;
pub mod html;
pub mod json;
pub mod links;
pub mod parser;
pub mod pattern;
pub mod render;
pub mod rewrite;
pub mod text;
pub mod types;
