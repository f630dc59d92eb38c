//! What both sides share: texts, errors, the transaction model, the wallet state.

pub mod cmd;
pub mod error;
pub mod file;
pub mod indexes;
pub mod key;
pub mod psbt;
pub mod script;
pub mod text;
pub mod wallet;
pub mod weight;
