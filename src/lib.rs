//! Live classroom session coordination: rooms of one teacher and many
//! students, the command protocol spoken over each connection, and the
//! registry that pairs teachers with short numeric codes.

pub mod bijection;
pub mod element;
pub mod error;
pub mod pairing;
pub mod room;
pub mod session;
pub mod text;
