//! The storage API for reading the Btree page format: page shapes,
//! traversal, the output map, and the consistency driver.

pub mod btree;
pub mod consistency;
pub mod entry;
pub mod page;
pub mod types;
