//! What the operations are for, stated of their inputs and results.
pub mod arrivals;
pub mod commands;
pub mod connections;
pub mod feed;
pub mod replies;
pub mod requests;
pub mod routing;
pub mod starting;
pub mod texts;
pub mod tools;
pub mod values;
