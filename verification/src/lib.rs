//! A verified engine for resolving a Solana program's IDL (interface
//! description) into a runtime type model, and for using that model to
//! encode and decode values against the program's exact on-chain binary
//! layout, generate schemas, and derive program-owned addresses.

pub mod account;
pub mod account_export;
pub mod account_find;
pub mod account_parse;
pub mod base16;
pub mod blob;
pub mod blob_compute;
pub mod blob_export;
pub mod blob_parse;
pub mod bytemuck;
pub mod casing;
pub mod decimal;
pub mod deserialize;
pub mod error;
pub mod format;
pub mod hydrate;
pub mod little_endian;
pub mod lookup;
pub mod outside;
pub mod path;
pub mod path_type;
pub mod path_value;
pub mod pubkey;
pub mod roundtrip;
pub mod schema;
pub mod serialize;
pub mod text;
pub mod type_flat;
pub mod type_flat_export;
pub mod type_flat_parse;
pub mod type_full;
pub mod type_prefix;
pub mod type_primitive;
pub mod typedef;
pub mod value;
