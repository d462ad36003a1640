//! A Bézier curve editing core on fixed-point coordinates.
//!
//! The crate is built in layers: [`fixed::Fixed`], a saturating scalar with
//! sixteen fractional bits; [`vec::Vector`], a two-component vector of such
//! scalars; [`bezier_curve::BezierCurve`], an ordered list of control points
//! with De Casteljau evaluation and pointer hit-testing; and
//! [`editor::Editor`], the editing session that turns pointer gestures into
//! changes of the curve. [`sqrt`] holds the integer square root that
//! distances are taken with.
pub mod bezier_curve;
pub mod editor;
pub mod fixed;
pub mod sqrt;
pub mod vec;
