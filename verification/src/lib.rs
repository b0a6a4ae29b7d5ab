//! An in-memory registry of rooms and switchable devices (power sockets and
//! thermometers), together with the key/value update protocol that inspects
//! and mutates them.  The HTTP transport around it lives outside the library
//! and only hands plain dictionaries in and out.

pub mod device;
pub mod dict;
pub mod errors;
pub mod home;
pub mod protocol;
pub mod quantity;
pub mod query;
pub mod room;
pub mod shared;
pub mod text;
