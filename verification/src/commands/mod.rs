pub mod join;
pub mod pic;
pub mod ping;
pub mod server;
pub mod voice;
