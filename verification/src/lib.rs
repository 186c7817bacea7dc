//! Scream cypher: a reversible substitution that renders every Latin letter
//! as the letter `A` (or `a`) carrying a distinguishing Unicode combining
//! diacritical mark, and back again.

pub mod cipher;
pub mod table;

pub use cipher::decrypt;
pub use cipher::encrypt;
pub use table::cypher_map;
