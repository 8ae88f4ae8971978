//! Geocoding of address tables: resolving column selectors against a header,
//! building the per-row search query, reading the service's reply, pacing the
//! requests, and writing the returned coordinates into each row.
pub mod columns;
pub mod pacing;
pub mod pipeline;
pub mod reply;
pub mod row;
