//! Frame interpolation: which method blends two frames of an animation.

use vstd::prelude::*;

verus! {

/// How frames are interpolated.
#[derive(Debug, Clone, Copy, PartialEq, Eq, Structural)]
pub enum InterpolationMethod {
    /// Linear blending.
    Blend,
    /// Blending with ease-in and ease-out.
    Smooth,
    /// Cosine interpolation.
    Cosine,
    /// Cubic Hermite spline.
    Cubic,
    /// Quintic smoothstep.
    Perlin,
    /// Exponential ease-in-out.
    Exponential,
    /// Sparse optical flow.
    OpticalFlowSparse,
    /// Motion-compensated blending.
    MotionCompensated,
    /// Catmull-Rom spline; eased like `Blend`.
    CatmullRom,
}

impl InterpolationMethod {
    /// Whether the method moves pixels along estimated motion rather than
    /// blending them in place.
    pub open spec fn spec_uses_motion(self) -> bool {
        self == InterpolationMethod::OpticalFlowSparse || self
            == InterpolationMethod::MotionCompensated
    }

    /// Whether the method moves pixels along estimated motion rather than
    /// blending them in place.
    pub fn uses_motion(self) -> (r: bool)
        ensures
            r == self.spec_uses_motion(),
    {
        match self {
            InterpolationMethod::OpticalFlowSparse | InterpolationMethod::MotionCompensated => true,
            _ => false,
        }
    }

    /// Whether the easing curve of the method is the identity.
    pub open spec fn spec_eases_linearly(self) -> bool {
        match self {
            InterpolationMethod::Blend
            | InterpolationMethod::OpticalFlowSparse
            | InterpolationMethod::MotionCompensated
            | InterpolationMethod::CatmullRom => true,
            _ => false,
        }
    }

    /// Whether the easing curve of the method is the identity.
    pub fn eases_linearly(self) -> (r: bool)
        ensures
            r == self.spec_eases_linearly(),
    {
        match self {
            InterpolationMethod::Blend
            | InterpolationMethod::OpticalFlowSparse
            | InterpolationMethod::MotionCompensated
            | InterpolationMethod::CatmullRom => true,
            _ => false,
        }
    }
}

/// Interpolates between frames with a fixed method.
pub struct FrameInterpolator {
    method: InterpolationMethod,
}

impl FrameInterpolator {
    /// The method that the interpolator was made with.
    pub closed spec fn spec_method(&self) -> InterpolationMethod {
        self.method
    }

    /// An interpolator that uses `method`.
    pub fn new(method: InterpolationMethod) -> (r: FrameInterpolator)
        ensures
            r.spec_method() == method,
    {
        FrameInterpolator { method }
    }

    /// The method that the interpolator was made with.
    pub fn method(&self) -> (r: InterpolationMethod)
        ensures
            r == self.spec_method(),
    {
        self.method
    }
}

} // verus!
