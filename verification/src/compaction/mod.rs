//! Keeping a thread inside its context window: token estimates, the turn
//! structure that bounds what may be cut, rule-based snipping, tool-result
//! pruning, the carried checklist, and the summary pass.

pub mod message;
pub mod tokens;
pub mod turns;
pub mod snip;
pub mod prune;
pub mod checklist;
pub mod pass;
pub mod hook;
