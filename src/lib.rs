//! Inventory bag: items with quantities, a paginated filtered listing, and a
//! random draw that uses up finite items and records each draw.

pub mod accounts;
pub mod api;
pub mod auth;
pub mod errors;
pub mod laws;
pub mod model;
pub mod query;
mod sources;
pub mod store;
pub mod text;
