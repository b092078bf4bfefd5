//! Response-caching core of an Engine-API multiplexer: one execution engine
//! shared by a controlling consensus client and any number of followers.

pub mod base_fee;
pub mod config;
pub mod dispatch;
pub mod fcu;
pub mod fork;
pub mod hash;
pub mod jwt;
pub mod meta;
pub mod multiplexer;
pub mod new_payload;
pub mod payload;
pub mod payload_builder;
pub mod store;
pub mod text;
pub mod types;
pub mod uint256;
