//! Verified decision logic of the group conversation runtime: the turn
//! scheduler, its budget and state machines, mention scanning, context
//! compaction, and the text rules the runtime applies to model output.

pub mod text;
pub mod chat_title;
pub mod approval;
pub mod compaction;
pub mod scheduler;
pub mod group;
pub mod context;
pub mod agent_tool;
pub mod conversation;
