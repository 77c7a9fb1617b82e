//! A menu catalog: validated items with store-assigned identifiers, kept in
//! insertion order, together with the request/response rules of the service
//! built on top of it.

pub mod catalog;
pub mod http;
pub mod item;
pub mod laws;
