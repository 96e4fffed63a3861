pub mod del;
pub mod echo;
pub mod get;
pub mod name;
pub mod ping;
pub mod reply;
pub mod set;

pub use del::cmd_del;
pub use echo::cmd_echo;
pub use get::cmd_get;
pub use ping::cmd_ping;
pub use set::cmd_set;
