//! Verified core of the aspen UCI chess engine: command parsing, option
//! handling, protocol responses and search control.
pub mod text;
pub mod integer;
pub mod chess;
pub mod error;
pub mod command;
pub mod format;
pub mod options;
pub mod attributes;
pub mod response;
pub mod search;
pub mod driver;
pub mod board;
pub mod alphabeta;
pub mod info;
pub mod evaluation;

pub use command::{GoParams, PositionSpec, UciCommand};
pub use error::UciParseError;
pub use options::{UciOptionDeclaration, UciOptionKind, UciOptions};
pub use response::Response;
pub use search::{search, SearchInfo, SearchLimits};
