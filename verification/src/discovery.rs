//! Discovery of new candidate novels from an already-evaluated one.

pub mod also_liked;
