//! Verified core of a row-parallel ray-tracing renderer.
//!
//! The floating-point geometry kernel (vectors, rays, intersection and
//! scattering) lives outside this crate; what is verified here is the
//! integer and byte-level machinery around it: performance counters, the
//! per-row pixel byte buffer, the binary portable-pixmap encoding, and the
//! deterministic reassembly of independently rendered rows into one image.

pub mod image;
pub mod performance_stats;
pub mod ppm;
pub mod row_data;

pub use performance_stats::PerformanceStats;
pub use ppm::PPM;
pub use row_data::RowData;
