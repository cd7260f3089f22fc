//! What the screens show, as text and sizes; drawing it is left to the
//! terminal front end.

pub mod dashboard;
pub mod detail;
pub mod modal;
