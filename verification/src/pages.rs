//! The pages' request logic that stands apart from rendering and storage.

pub mod admin;
pub mod approve;
pub mod auth;
pub mod compass;
pub mod country;
pub mod data;
pub mod discovery;
pub mod elections;
pub mod feed;
pub mod follow;
pub mod outlets;
pub mod parties;
pub mod party;
pub mod people;
pub mod person;
pub mod poll;
pub mod polls;
pub mod rows;
pub mod search;
pub mod submit;
