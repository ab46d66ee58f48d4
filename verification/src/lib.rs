pub mod extensions;
pub mod operations;
pub mod text;
pub mod text_map;
pub mod timing;
pub mod level_map;
pub mod baking;
pub mod endorsements;
pub mod synchronization;
pub mod rpc;
pub mod terminal_ui;
pub mod automaton;
pub mod model;
