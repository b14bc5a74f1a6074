//! Resolution of user-supplied binary specifiers (such as `sui@testnet-1.39.3`)
//! into typed installation targets, together with the routing policy that
//! decides when the tool's own update check may run.

pub mod binary;
pub mod display;
pub mod errors;
pub mod parser;
pub mod router;

pub use binary::BinaryName;
pub use display::BinaryVersion;
pub use errors::ParseError;
pub use parser::{parse_component_with_version, parse_version_spec, CommandMetadata};
pub use router::{Command, Commands, ComponentCommands, UpdateCheckState};
