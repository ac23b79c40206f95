//! Account resolution for instructions whose extra accounts are stored in a
//! compact, discriminator-keyed byte buffer.
//!
//! The crate models a persisted, capacity-bounded list of account
//! requirements (fixed addresses or seed-derived addresses), the byte
//! formats used to store such lists, and the resolver that expands a
//! partially-specified instruction into a fully-specified one.

pub mod account;
pub mod account_info;
pub mod bytemuck;
pub mod collections;
pub mod error;
pub mod generic_token;
pub mod instruction;
pub mod item;
pub mod laws;
pub mod layout;
pub mod list;
pub mod list_trait;
pub mod list_view;
pub mod list_view_mut;
pub mod list_view_read_only;
pub mod option;
pub mod optional_keys;
pub mod pods;
pub mod pubkey;
pub mod seeds;
pub mod slice;
pub mod state;
pub mod token;
pub mod token_2022;
