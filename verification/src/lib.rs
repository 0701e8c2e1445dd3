//! Converts an in-memory snapshot of a static transit feed (stops, routes,
//! trips, shapes, stop-time sequences) into a collection of geospatial
//! features: one point feature per stop, and at most one path feature per
//! shape identity or per route fallback identity.

pub mod converter;
pub mod feature;
pub mod feed;
pub mod laws;
pub mod text;
