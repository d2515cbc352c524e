//! File-system routing: discovery of route files, matching of request paths
//! and the registry the dev server looks routes up in.

pub mod discovery;
pub mod matcher;
pub mod registry;

pub use discovery::{RouteEntry, RouteFile, discover_routes, file_to_route_path, sort_key};
pub use matcher::{RouteParams, route_to_axum_path};
pub use registry::RouteRegistry;
