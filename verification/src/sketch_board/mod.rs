pub mod answers;
pub mod board;
pub mod events;
pub mod flows;
pub mod histories;
pub mod image;
pub mod keys;
pub mod laws;
pub mod output;
pub mod state;
