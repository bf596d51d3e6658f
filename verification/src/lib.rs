//! A library of texts without end: positions in an infinite grid of rooms are
//! encoded, encrypted with a secret key and shown as walls of text.

pub mod code;
pub mod crypto;
mod sbox_walk;
pub mod utils;
pub mod num;
pub mod state;
