//! Sessions, their messages and their runs: how they are kept, and how a turn in
//! automatic mode is started, resumed and ended.

pub mod context_laws;
pub mod conversation;
pub mod conversation_laws;
pub mod db;
pub mod images;
pub mod message_laws;
pub mod messages;
pub mod order;
pub mod rows;
pub mod runs;
pub mod settings;
pub mod startup;
pub mod store_laws;
pub mod tables;
pub mod turn_laws;
pub mod turns;
