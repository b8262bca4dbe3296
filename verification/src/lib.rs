//! Canonicalization, maximization and minimization of BCP-47-style
//! language identifiers.
//!
//! The library implements the table-driven rewrite algorithms of Unicode
//! TR35: `canonicalize` rewrites deprecated subtags to their modern
//! equivalents until a fixpoint is reached (under a hard pass cap),
//! `maximize` fills omitted subtags with their most likely values, and
//! `minimize` removes subtags that maximizing would restore.
//!
//! The two data tables — alias rules and likely subtags — are supplied by
//! an outside provider as plain sorted partitions and validated on
//! construction; the engines hold shared references to them and never
//! mutate them.

pub mod alias;
pub mod canonical;
pub mod canonicalizer;
pub mod errors;
pub mod identifier;
pub mod laws;
pub mod likely;
pub mod search;
pub mod subtag;
