//! Request handling rules of the brewlog coffee journal: listing queries and
//! pagination, error responses, submission validation, timeline grouping and
//! rebuild planning, and the storage workflows of the services.

pub mod account;
pub mod add;
pub mod admin;
pub mod api;
pub mod bags;
pub mod brew_form;
pub mod data;
pub mod errors;
pub mod events;
pub mod extraction;
pub mod formatting;
pub mod listing;
pub mod query;
pub mod stats;
pub mod submissions;
pub mod text;
pub mod timeline;
pub mod web;
pub mod workflow;
