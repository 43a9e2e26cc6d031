//! Verified logic of the usage providers: parsing, classification, request
//! construction and the state machines behind each provider's fetch.

pub mod attempt;
pub mod capture;
pub mod decimal;
pub mod encoding;
pub mod error;
pub mod exchange;
pub mod html;
pub mod instant;
pub mod json;
pub mod paths;
pub mod providers;
pub mod redaction;
pub mod registry;
pub mod retry;
pub mod settings;
pub mod settings_catalog;
pub mod settings_descriptor;
pub mod sqlite_snapshot;
pub mod subprocess;
pub mod text;
pub mod transport;
pub mod urls;
pub mod usage;
