//! Niles: the deterministic side of a tmux harness for agent CLIs.
use vstd::prelude::*;

pub mod bootstrap;
pub mod checkin;
pub mod close;
pub mod decide;
pub mod guard;
pub mod keyed;
pub mod digits;
pub mod paths;
pub mod session;
pub mod spec;
pub mod state;
pub mod statuslog;
pub mod text;
pub mod usage;
pub mod util;
pub mod time;
pub mod tmux;
pub mod wait;
pub mod wake;
pub mod watch;
pub mod worker;
