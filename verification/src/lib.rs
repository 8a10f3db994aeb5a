//! Retrieval of verified smart-contract sources from block-explorer APIs:
//! address resolution, endpoint routing, payload classification and the
//! layout of the files a retrieved contract is written to.

pub mod address;
pub mod apidb;
pub mod html;
pub mod json;
pub mod listing;
pub mod materialize;
pub mod models;
pub mod parser;
pub mod payload;
pub mod router;
pub mod text;
pub mod traverse;

pub use apidb::{ApiDB, CredentialEntry};
pub use json::{Json, JsonValue, Member};
pub use models::{ContractData, ContractType, Effect, FileWrite, ParseError, ParserMode};
pub use parser::{Parser, Request};
pub use traverse::Traversal;
