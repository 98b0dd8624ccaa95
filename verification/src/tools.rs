//! Tools that wrap an outside service behind a name, a description and a
//! call from text to text.

pub mod dataforseo;
