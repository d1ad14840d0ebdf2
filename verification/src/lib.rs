//! Verified core of a status-report generator: issue records fetched from an
//! issue tracker are rendered into markdown fragments and accumulated, in
//! fetch order, into a single dated report.
pub mod client;
pub mod links;
pub mod model;
pub mod pipeline;
pub mod render;
pub mod report;
pub mod text;
