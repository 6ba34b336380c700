//! The task store as the library sees it: the calls into it, the model of a
//! task, and what is listed of its tasks.

pub mod champion;
pub mod listing;
pub mod model;
pub mod task;
pub mod undo;
