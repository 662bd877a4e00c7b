//! A wine journal: the records of wines tried, how they are checked and
//! normalised when entered, and the queries that the journal answers.
pub mod text;
pub mod wine;
pub mod journal;
pub mod query;
pub mod render;
