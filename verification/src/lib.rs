//! The payload of a Stacks transaction: read from bytes, queried, and shown
//! page by page on a small screen.

pub mod error;
pub mod input;
pub mod parser_common;
pub mod text;
pub mod zxformat;
pub mod c32;
pub mod display;
pub mod token_transfer;
pub mod contract_call;
pub mod smart_contract;
pub mod payload;
pub mod laws;
pub mod behaviour;
pub mod parts;
