//! What holds of whole operations: what a server's value comes to, and what the
//! editor and the servers are sent.
//!
//! The laws here speak of members by their names in the two protocols, not of
//! the functions by which the library reads and writes them.

pub mod asking;
pub mod events;
pub mod installing;
pub mod places;
pub mod reading;
pub mod servers;
pub mod shapes;
pub mod talking;
pub mod telling;
pub mod texts;
pub mod tokens;
pub mod writing;
