//! Tensor shapes, as far as this model needs them: a batch of images before
//! flattening, a batch of feature rows after it.

use vstd::prelude::*;

verus! {

/// A height and a width: of a kernel, of a stride.
#[derive(Clone, Copy, Debug, PartialEq, Eq, Structural)]
pub struct Extent {
    pub height: usize,
    pub width: usize,
}

/// Shape `[batch, channels, height, width]` of a batch of images.
#[derive(Clone, Copy, Debug, PartialEq, Eq, Structural)]
pub struct ImageShape {
    pub batch: usize,
    pub channels: usize,
    pub height: usize,
    pub width: usize,
}

/// Shape `[batch, features]` of a batch of feature rows.
#[derive(Clone, Copy, Debug, PartialEq, Eq, Structural)]
pub struct FlatShape {
    pub batch: usize,
    pub features: usize,
}

/// The shape of a tensor on its way through the layers.
#[derive(Clone, Copy, Debug, PartialEq, Eq, Structural)]
pub enum Shape {
    Image(ImageShape),
    Flat(FlatShape),
}

/// Why a layer refuses a shape.
#[derive(Clone, Copy, Debug, PartialEq, Eq, Structural)]
pub enum ShapeError {
    /// The layer works on a batch of images and was given feature rows.
    ExpectedImage,
    /// The layer works on feature rows and was given a batch of images.
    ExpectedFlat,
    /// The images have another number of channels than the convolution reads.
    ChannelMismatch { expected: usize, found: usize },
    /// The rows have another number of features than the linear layer reads.
    FeatureMismatch { expected: usize, found: usize },
    /// The window has no taps, does not move, or is larger than the image.
    WindowDoesNotFit,
    /// The flattened feature count does not fit a machine word.
    TooManyFeatures,
    /// There are not as many targets as there are images in the batch.
    TargetCountMismatch { expected: usize, found: usize },
    /// The flat pixel buffer is not a whole number of images.
    PartialImage { pixels: usize },
}

impl ImageShape {
    /// The four axis sizes, batch first.
    pub fn dims(&self) -> (r: [usize; 4])
        ensures
            r@ == seq![self.batch, self.channels, self.height, self.width],
    {
        let r = [self.batch, self.channels, self.height, self.width];
        proof {
            assert(r@ =~= seq![self.batch, self.channels, self.height, self.width]);
        }
        r
    }

    /// The shape with the given axis sizes, batch first.
    pub fn from_dims(dims: [usize; 4]) -> (r: ImageShape)
        ensures
            r == (ImageShape {
                batch: dims@[0],
                channels: dims@[1],
                height: dims@[2],
                width: dims@[3],
            }),
    {
        ImageShape { batch: dims[0], channels: dims[1], height: dims[2], width: dims[3] }
    }
}

impl FlatShape {
    /// The two axis sizes, batch first.
    pub fn dims(&self) -> (r: [usize; 2])
        ensures
            r@ == seq![self.batch, self.features],
    {
        let r = [self.batch, self.features];
        proof {
            assert(r@ =~= seq![self.batch, self.features]);
        }
        r
    }
}

impl Shape {
    /// The size of the leading (batch) axis.
    pub open spec fn spec_batch(self) -> usize {
        match self {
            Shape::Image(s) => s.batch,
            Shape::Flat(s) => s.batch,
        }
    }

    /// The size of the leading (batch) axis.
    pub fn batch(&self) -> (r: usize)
        ensures
            r == self.spec_batch(),
    {
        match self {
            Shape::Image(s) => s.batch,
            Shape::Flat(s) => s.batch,
        }
    }
}

} // verus!
