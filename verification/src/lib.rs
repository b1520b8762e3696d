//! Finding the processes that hold a port, and freeing the port by ending them.
//!
//! Everything that decides or computes is here: which sockets belong to a port,
//! which processes own those sockets, which of them may be ended, and what to
//! report. The caller reads the system's tables and carries out the actions.
pub mod kill;
pub mod model;
pub mod platform;
pub mod port;
pub mod text;
