//! Discovery of Matrix servers: which address a server name stands for, and
//! where the client API of an account domain lives.
//!
//! The decisions are made here; the network requests that they ask for are
//! carried out by the caller, who hands each answer back. `server` resolves
//! server names, `client` resolves account domains, `address` reads and
//! writes IP addresses, and `text` holds the numbers and characters that
//! the others are built from.

pub mod address;
pub mod client;
pub mod error;
pub mod server;
pub mod text;
