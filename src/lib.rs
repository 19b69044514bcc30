//! A mirrored block-device aggregation layer: a nexus replicates writes to all
//! of its children, reads from one of them, tracks the health of each child and
//! rebuilds a failed child from a healthy one.
pub mod child;
pub mod device;
pub mod io;
pub mod nexus;
pub mod qpair;
pub mod rebuild;
pub mod registry;
