//! A list of payments: who owes what to whom, and whether it has been paid.
//!
//! The list keeps its entries in the order in which they were added. Every
//! operation on it states in its contract how the sequence of entries after
//! the call relates to the sequence before it.

pub mod editing;
pub mod entry;
pub mod ident;
pub mod laws;
pub mod list;
pub mod mode;
pub mod pay;
pub mod storage;
pub mod text;

pub use list::Pays;
pub use mode::{route, Mode};
pub use pay::{Pay, PayView};
pub use storage::PaySerialized;
