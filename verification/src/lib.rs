//! Read-side aggregation of a group's membership state: group metadata,
//! scoped and paginated listings of curators and members, and summary
//! counts, assembled into one response object per request.

pub mod store;
pub mod types;
pub mod views;
