//! The verified core of a map service that finds OpenStreetMap amenities inside a city:
//! reading and issuing authentication tokens, the pipe-and-filter chain, the queries sent to
//! the Overpass API, the SQL statements that store and read points, and the decisions each
//! request handler takes between its database calls.

pub mod args;
pub mod auth;
pub mod database;
pub mod errors;
pub mod filter;
pub mod handlers;
pub mod model;
pub mod osm_api;
pub mod pipe;
pub mod routers;
pub mod text;
