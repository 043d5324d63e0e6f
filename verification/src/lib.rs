//! The layout engine of a source code formatter: print items that say what
//! to write, a writer that keeps the cursor, and a printer that decides
//! where lines break. Beside it, what the command line front end decides
//! from plain values.

pub mod cli;
pub mod configuration;
pub mod formatting;
