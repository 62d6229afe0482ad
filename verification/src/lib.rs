//! Supervisor engine for a single-host process manager: the service state
//! machine, the deadline scheduler, the clock bridge, filesystem-watch
//! filtering, log rotation bookkeeping and the client-side file helpers.

pub mod buffer;
pub mod clock;
pub mod command;
pub mod debug;
pub mod fileset;
pub mod fmt;
pub mod globset;
pub mod human;
pub mod info;
pub mod logfile;
pub mod logpump;
pub mod monitor;
pub mod poller;
pub mod scheduler;
pub mod server;
pub mod signal;
pub mod status;
pub mod sysinfo;
pub mod tabled;
pub mod tail_reader;
pub mod watch;

pub use info::Info;
pub use status::Status;
pub use status::Trigger;
