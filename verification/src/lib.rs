//! A client library for the Pixelflut line protocol: placement arithmetic,
//! command framing, pixel extraction and the partitioning of draw operations
//! across workers.

pub mod geometry;
pub mod numeral;
pub mod partition;
pub mod plan;
pub mod protocol;
pub mod raster;
pub mod token;
pub mod worker;
