//! Client library for the Meteomatics weather API: typed location, time and
//! parameter values, rendering of those values into the API's query grammar,
//! and decoding of delimited-text responses into tables.
pub mod client;
pub mod components;
pub mod entities;
pub mod errors;
pub mod location;
pub mod net;
pub mod query;
pub mod response;
pub mod series;
pub mod stats;
pub mod table;
pub mod text;
pub mod time;
