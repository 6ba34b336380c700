//! What the application offers: the operations on tasks and what its pages
//! show.

pub mod tasks;
pub mod views;
