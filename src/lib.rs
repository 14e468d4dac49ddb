//! Static inference of the members that a Lua module exports.
//!
//! The module's syntax tree (see [`syntax`]) is scanned for the statements
//! that build up the value the module returns, and each member found is
//! classified as a plain value, a free function or a method.

pub mod extract;
pub mod laws;
pub mod order;
pub mod shape;
pub mod syntax;

pub use shape::MemberType;
