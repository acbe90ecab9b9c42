//! The decisions of a group turn that do not wait on anything: which tools may
//! run together, how results and titles are bounded, who speaks next under a
//! topology, and who an `@mention` selects.

pub mod text;
pub mod routing;
pub mod select;
pub mod tools;
pub mod acp;
pub mod round;
pub mod config;
pub mod workspace;
pub mod schemas;
pub mod turn_data;
pub mod notes;
pub mod run;
pub mod payloads;
pub mod vision;
pub mod tool_list;
pub mod stream;
pub mod delegation;
pub mod attachments;
