//! Rewrites every word of a text with the "schm" prefix, keeping
//! punctuation, spacing and letter case as they were.
pub mod casing;
pub mod laws;
pub mod rewrite;
pub mod segment;
pub mod text;

pub use casing::{get_case, CaseType};
pub use rewrite::schmfy;
