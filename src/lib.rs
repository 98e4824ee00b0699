pub mod amount;
pub mod authority;
pub mod error;
pub mod format;
pub mod processor;
pub mod state;
pub mod laws;
