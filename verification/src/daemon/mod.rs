//! The daemon between the editor and its language servers: what a request
//! leads to, and how it is answered.

pub mod advance;
pub mod answer;
pub mod feature;
pub mod request;
pub mod session;
