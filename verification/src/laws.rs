//! What the operations of the library promise, stated of what goes into them and what comes out.

pub mod pages;
pub mod percentages;
pub mod requests;
pub mod saving;
pub mod startup;
pub mod texts;
