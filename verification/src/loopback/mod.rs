//! The listeners on the local machine.

pub mod widget;
