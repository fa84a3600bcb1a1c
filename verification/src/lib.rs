//! An algebra of possibly empty intervals and axis-aligned rectangles over a
//! continuous and a discrete number domain: containment, overlap, clipping,
//! hulls, shifting and dilation, and the conversion between the two domains.
//!
//! An [`Interval`] or a [`Rect`] is never empty; [`Bounds`] adds the empty
//! set. What the operations return is stated in their contracts, and the laws
//! that relate them are proof functions next to them.

pub mod bounds;
pub mod continuous;
pub mod convert;
pub mod hull;
pub mod interval;
pub mod order;
pub mod point;
pub mod rect;
pub mod scalar;
pub mod shapes;
pub mod text;

pub use crate::bounds::{AbstractBounds, Bounds, GuaranteedBounded};
pub use crate::continuous::Real;
pub use crate::convert::RealToIndexError;
pub use crate::interval::Interval;
pub use crate::point::{Point2, Vector2};
pub use crate::rect::Rect;
pub use crate::scalar::{Index, Scalar};
pub use crate::shapes::{IndexInterval, IndexRect, RealInterval, RealRect};
pub use crate::text::ScalarText;
