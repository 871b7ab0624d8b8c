//! Extraction of structural positions and abbreviation definitions from the
//! text of Japanese statutes.

pub mod article;
pub mod get_abbreviation;
pub mod get_ryakusyou;
pub mod pattern;
pub mod range;
pub mod text;
pub mod old_get_ryakusyou;
