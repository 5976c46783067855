//! Party Hub: the rules behind party invitations, guest answers and their
//! visibility, stated and checked with Verus.

pub mod json;
pub mod model;
pub mod text;
pub mod blocks;
pub mod visibility;
pub mod laws;
pub mod datetime;
pub mod answers;
pub mod registration;
pub mod lang;
pub mod calendar;
pub mod notify;
pub mod pages;
