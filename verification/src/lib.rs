//! Lessons that recur on a schedule or happen once, the rules that decide on
//! which calendar dates a lesson occurs, and the per-account permissions that
//! every read and every change of a lesson is checked against.

pub mod account;
pub mod date;
pub mod error;
pub mod lesson;
pub mod permission;
pub mod repeat;
pub mod routes;
pub mod single_occurrence;
pub mod store;
pub mod text;
