//! The store and the operations on it.

pub mod order;
pub mod page;
pub mod laws;
pub mod listing;
pub mod load;
pub mod rut;
pub mod select;
pub mod store;
pub mod tag;
pub mod taglist;
pub mod tagstar;
