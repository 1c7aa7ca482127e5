//! Synthetic "blob" datasets: points scattered around given centroids, for
//! testing and benchmarking clustering algorithms under controlled conditions.
//!
//! The crate is generic over the scalar that fills a matrix, over the
//! distribution the noise is drawn from and over the random engine that feeds
//! the distribution. What a scalar's addition computes and what a draw yields
//! are named by the spec functions of [`Scalar`] and [`Distribution`]; the
//! contracts of [`make_blob`], [`blobs_with_distribution`] and [`blobs`] say
//! over those names which draw lands in which entry, on which centroid's
//! coordinate, and where the engine is left.
pub mod distribution;
pub mod error;
pub mod generate;
pub mod matrix;
pub mod scalar;

pub use distribution::{Distribution, StandardNormal};
pub use error::BlobError;
pub use generate::{blobs, blobs_with_distribution, dataset_shape, make_blob};
pub use matrix::Matrix;
pub use scalar::Scalar;
