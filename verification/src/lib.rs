pub mod calls;
pub mod commands;
pub mod ids;
pub mod interaction;
pub mod options;
pub mod presence;
pub mod text;
