//! Block motion estimation for a video encoder.
//!
//! For a block of the frame being coded, the search finds the displacement
//! (the motion vector) at which a reference frame resembles the block most, the
//! resemblance being weighed against the bits that the vector costs.
//!
//! What a block is compared with:
//!
//! - [`num`]: truncating and wrapping integer arithmetic.
//! - [`mv`]: motion vectors and the bits they cost.
//! - [`geometry`]: positions and sizes of blocks, and the bounds on their vectors.
//! - [`plane`]: planes of pixels and the distance of two blocks.
//! - [`frame`]: the vectors of a frame, the frame being coded and its references.
//! - [`cost`]: the cost of a vector.
//!
//! How the vector of least cost is searched for:
//!
//! - [`predictors`]: the vectors to start from.
//! - [`search`]: the best of given vectors, and shrinking diamonds around it.
//! - [`refine`]: ever finer steps around a vector.
//! - [`full`]: all positions of a rectangle.
//! - [`coarse`]: the search at a quarter of the resolution.
//! - [`me`]: the stages of motion estimation, by diamonds in [`diamond`] and over
//!   all positions in [`exhaustive`].
//!
//! What holds of all this:
//!
//! - [`measure_laws`]: of bounds, rates, distances and costs, in plain numbers.
//! - [`laws`]: of costs and single searches.
//! - [`search_laws`]: which vectors and positions a single search owes a look.
//! - [`stage_laws`]: what each stage of motion estimation compares, and how far it looks.
//! - [`result_laws`]: what the functions return or leave behind.
//! - [`estimation_laws`]: of the vectors that motion estimation finds.
//! - [`defined_laws`]: where motion estimation is defined.

pub mod coarse;
pub mod cost;
pub mod defined_laws;
pub mod diamond;
pub mod estimation_laws;
pub mod exhaustive;
pub mod frame;
pub mod full;
pub mod geometry;
pub mod laws;
pub mod me;
pub mod measure_laws;
pub mod mv;
pub mod num;
pub mod plane;
pub mod predictors;
pub mod refine;
pub mod result_laws;
pub mod search;
pub mod search_laws;
pub mod stage_laws;

pub use crate::coarse::estimate_motion_ss4;
pub use crate::diamond::DiamondSearch;
pub use crate::exhaustive::FullSearch;
pub use crate::frame::FrameMotionVectors;
pub use crate::me::MotionEstimation;
pub use crate::predictors::get_subset_predictors;
