pub mod state;
pub mod model;
pub mod budget;
pub mod decision;
pub mod topology;
pub mod moderator;
pub mod mentions;
pub mod output;
pub mod moderator_input;
pub mod registry;

pub use decision::next_decision;
