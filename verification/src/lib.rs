//! Service execution contract of a ledger runtime: call dispatch, lifecycle
//! hooks and the type-metadata registry that every service exposes.

pub mod account;
pub mod account_calls;
pub mod binding;
pub mod fixed_codec;
pub mod hex;
pub mod json;
pub mod schema;
pub mod service;
pub mod storage;
pub mod table;
pub mod text;
pub mod types;
