//! Layer descriptors and what each of them does to a shape.

use vstd::prelude::*;
use crate::geometry::{valid_output_size, window_fits, window_output_size};
use crate::shape::{Extent, FlatShape, ImageShape, Shape, ShapeError};

verus! {

/// A 2D convolution without padding or dilation.
#[derive(Clone, Copy, Debug, PartialEq, Eq, Structural)]
pub struct Conv2d {
    pub in_channels: usize,
    pub out_channels: usize,
    pub kernel_size: Extent,
    pub stride: Extent,
}

/// A 2D max pooling without padding or dilation.
#[derive(Clone, Copy, Debug, PartialEq, Eq, Structural)]
pub struct MaxPool2d {
    pub kernel_size: Extent,
    pub stride: Extent,
}

/// Rectified-linear activation.
#[derive(Clone, Copy, Debug, PartialEq, Eq, Structural)]
pub struct ReLU {}

/// Dropout. The probability is held as the bit pattern of an IEEE 754
/// binary64 number.
#[derive(Clone, Copy, Debug, PartialEq, Eq, Structural)]
pub struct Dropout {
    pub prob: u64,
}

/// A fully connected layer.
#[derive(Clone, Copy, Debug, PartialEq, Eq, Structural)]
pub struct Linear {
    pub d_input: usize,
    pub d_output: usize,
}

/// One step of a sequential network.
#[derive(Clone, Copy, Debug, PartialEq, Eq, Structural)]
pub enum Layer {
    Conv2d(Conv2d),
    ReLU(ReLU),
    MaxPool2d(MaxPool2d),
    Dropout(Dropout),
    /// Merges every axis but the batch axis into one feature axis.
    Flatten,
    Linear(Linear),
}

impl Conv2d {
    /// Learnable values: a kernel for each pair of an input and an output
    /// channel, and a bias for each output channel.
    pub open spec fn spec_num_params(self) -> int {
        self.out_channels * self.in_channels * self.kernel_size.height * self.kernel_size.width
            + self.out_channels
    }

    /// The number of learnable values, where it fits a machine word.
    pub fn num_params(&self) -> (r: Option<usize>)
        ensures
            r.is_some() <==> self.spec_num_params() <= usize::MAX,
            r.is_some() ==> r.unwrap() == self.spec_num_params(),
            self.spec_num_params() >= 0,
    {
        let kernels = times(Some(self.out_channels), Ghost(self.out_channels as int), self.in_channels);
        let rows = times(
            kernels,
            Ghost(self.out_channels * self.in_channels),
            self.kernel_size.height,
        );
        let weights = times(
            rows,
            Ghost(self.out_channels * self.in_channels * self.kernel_size.height),
            self.kernel_size.width,
        );
        match weights {
            Some(weights) => weights.checked_add(self.out_channels),
            None => None,
        }
    }
}

impl Linear {
    /// Learnable values: a weight for each pair of an input and an output,
    /// and a bias for each output.
    pub open spec fn spec_num_params(self) -> int {
        self.d_input * self.d_output + self.d_output
    }

    /// The number of learnable values, where it fits a machine word.
    pub fn num_params(&self) -> (r: Option<usize>)
        ensures
            r.is_some() <==> self.spec_num_params() <= usize::MAX,
            r.is_some() ==> r.unwrap() == self.spec_num_params(),
            self.spec_num_params() >= 0,
    {
        match times(Some(self.d_input), Ghost(self.d_input as int), self.d_output) {
            Some(weights) => weights.checked_add(self.d_output),
            None => None,
        }
    }
}

/// `known` holds the natural number `value` as far as a machine word can.
spec fn holds(known: Option<usize>, value: int) -> bool {
    &&& value >= 0
    &&& known.is_some() <==> value <= usize::MAX
    &&& known.is_some() ==> known.unwrap() == value
}

/// Multiplies a number that may have outgrown a machine word by `factor`.
fn times(known: Option<usize>, Ghost(value): Ghost<int>, factor: usize) -> (r: Option<usize>)
    requires
        holds(known, value),
    ensures
        holds(r, value * factor),
{
    proof {
        assert(value * factor >= 0) by (nonlinear_arith)
            requires
                value >= 0,
                factor >= 0,
        ;
    }
    match known {
        Some(count) => count.checked_mul(factor),
        None => {
            if factor == 0 {
                proof {
                    assert(value * 0 == 0) by (nonlinear_arith);
                }
                Some(0)
            } else {
                proof {
                    assert(value * factor >= value) by (nonlinear_arith)
                        requires
                            value >= 0,
                            factor >= 1,
                    ;
                }
                None
            }
        },
    }
}

/// Both axes of an image admit the window.
pub open spec fn window_fits_image(kernel_size: Extent, stride: Extent, s: ImageShape) -> bool {
    &&& window_fits(kernel_size.height as int, stride.height as int, 0, 1, s.height as int)
    &&& window_fits(kernel_size.width as int, stride.width as int, 0, 1, s.width as int)
}

/// The image shape left by a window that keeps the batch axis and yields
/// `channels` channels.
pub open spec fn windowed(
    kernel_size: Extent,
    stride: Extent,
    channels: usize,
    s: ImageShape,
) -> Result<Shape, ShapeError> {
    if window_fits_image(kernel_size, stride, s) {
        Ok(
            Shape::Image(
                ImageShape {
                    batch: s.batch,
                    channels,
                    height: window_output_size(
                        kernel_size.height as int,
                        stride.height as int,
                        0,
                        1,
                        s.height as int,
                    ) as usize,
                    width: window_output_size(
                        kernel_size.width as int,
                        stride.width as int,
                        0,
                        1,
                        s.width as int,
                    ) as usize,
                },
            ),
        )
    } else {
        Err(ShapeError::WindowDoesNotFit)
    }
}

fn apply_window(kernel_size: Extent, stride: Extent, channels: usize, s: ImageShape) -> (r: Result<
    Shape,
    ShapeError,
>)
    ensures
        r == windowed(kernel_size, stride, channels, s),
{
    let height = valid_output_size(kernel_size.height, stride.height, s.height);
    let width = valid_output_size(kernel_size.width, stride.width, s.width);
    match (height, width) {
        (Some(height), Some(width)) => Ok(
            Shape::Image(ImageShape { batch: s.batch, channels, height, width }),
        ),
        _ => Err(ShapeError::WindowDoesNotFit),
    }
}

impl Layer {
    /// The shape that the layer gives for an input shape, or why it refuses it.
    pub open spec fn spec_output_shape(self, input: Shape) -> Result<Shape, ShapeError> {
        match self {
            Layer::Conv2d(conv) => match input {
                Shape::Image(s) => if s.channels != conv.in_channels {
                    Err(ShapeError::ChannelMismatch { expected: conv.in_channels, found: s.channels })
                } else {
                    windowed(conv.kernel_size, conv.stride, conv.out_channels, s)
                },
                Shape::Flat(_) => Err(ShapeError::ExpectedImage),
            },
            Layer::MaxPool2d(pool) => match input {
                Shape::Image(s) => windowed(pool.kernel_size, pool.stride, s.channels, s),
                Shape::Flat(_) => Err(ShapeError::ExpectedImage),
            },
            Layer::ReLU(_) => Ok(input),
            Layer::Dropout(_) => Ok(input),
            Layer::Flatten => match input {
                Shape::Image(s) => if s.channels * s.height * s.width <= usize::MAX {
                    Ok(
                        Shape::Flat(
                            FlatShape {
                                batch: s.batch,
                                features: (s.channels * s.height * s.width) as usize,
                            },
                        ),
                    )
                } else {
                    Err(ShapeError::TooManyFeatures)
                },
                Shape::Flat(_) => Err(ShapeError::ExpectedImage),
            },
            Layer::Linear(linear) => match input {
                Shape::Image(_) => Err(ShapeError::ExpectedFlat),
                Shape::Flat(s) => if s.features != linear.d_input {
                    Err(ShapeError::FeatureMismatch { expected: linear.d_input, found: s.features })
                } else {
                    Ok(Shape::Flat(FlatShape { batch: s.batch, features: linear.d_output }))
                },
            },
        }
    }

    /// The shape that the layer gives for an input shape, or why it refuses it.
    pub fn output_shape(&self, input: Shape) -> (r: Result<Shape, ShapeError>)
        ensures
            r == self.spec_output_shape(input),
    {
        match self {
            Layer::Conv2d(conv) => match input {
                Shape::Image(s) => if s.channels != conv.in_channels {
                    Err(ShapeError::ChannelMismatch { expected: conv.in_channels, found: s.channels })
                } else {
                    apply_window(conv.kernel_size, conv.stride, conv.out_channels, s)
                },
                Shape::Flat(_) => Err(ShapeError::ExpectedImage),
            },
            Layer::MaxPool2d(pool) => match input {
                Shape::Image(s) => apply_window(pool.kernel_size, pool.stride, s.channels, s),
                Shape::Flat(_) => Err(ShapeError::ExpectedImage),
            },
            Layer::ReLU(_) => Ok(input),
            Layer::Dropout(_) => Ok(input),
            Layer::Flatten => match input {
                Shape::Image(s) => match flat_features(s) {
                    Some(features) => Ok(Shape::Flat(FlatShape { batch: s.batch, features })),
                    None => Err(ShapeError::TooManyFeatures),
                },
                Shape::Flat(_) => Err(ShapeError::ExpectedImage),
            },
            Layer::Linear(linear) => match input {
                Shape::Image(_) => Err(ShapeError::ExpectedFlat),
                Shape::Flat(s) => if s.features != linear.d_input {
                    Err(ShapeError::FeatureMismatch { expected: linear.d_input, found: s.features })
                } else {
                    Ok(Shape::Flat(FlatShape { batch: s.batch, features: linear.d_output }))
                },
            },
        }
    }
}

/// `channels * height * width`, where that fits a machine word.
pub fn flat_features(s: ImageShape) -> (r: Option<usize>)
    ensures
        r.is_some() <==> s.channels * s.height * s.width <= usize::MAX,
        r.is_some() ==> r.unwrap() == s.channels * s.height * s.width,
{
    let plane = times(Some(s.channels), Ghost(s.channels as int), s.height);
    times(plane, Ghost(s.channels * s.height), s.width)
}

/// The shape that comes out of `layers`, applied in order to `input`, or the
/// refusal of the first layer that refuses.
pub open spec fn sequential_output(layers: Seq<Layer>, input: Shape) -> Result<Shape, ShapeError>
    decreases layers.len(),
{
    if layers.len() == 0 {
        Ok(input)
    } else {
        match sequential_output(layers.drop_last(), input) {
            Ok(shape) => layers.last().spec_output_shape(shape),
            Err(e) => Err(e),
        }
    }
}

/// Running `layers` and then `layer` is running `layers` with `layer` appended.
pub proof fn lemma_sequential_push(layers: Seq<Layer>, layer: Layer, input: Shape)
    ensures
        sequential_output(layers.push(layer), input) == match sequential_output(layers, input) {
            Ok(shape) => layer.spec_output_shape(shape),
            Err(e) => Err(e),
        },
{
    assert(layers.push(layer).drop_last() =~= layers);
}

/// The same shape with another batch size.
pub open spec fn with_batch(shape: Shape, batch: usize) -> Shape {
    match shape {
        Shape::Image(s) => Shape::Image(
            ImageShape { batch, channels: s.channels, height: s.height, width: s.width },
        ),
        Shape::Flat(s) => Shape::Flat(FlatShape { batch, features: s.features }),
    }
}

/// What a layer answers does not depend on the batch size: it keeps the batch
/// axis as it is, and accepts or refuses by the other axes alone.
pub proof fn lemma_layer_ignores_batch(layer: Layer, input: Shape, batch: usize)
    ensures
        layer.spec_output_shape(with_batch(input, batch)) == match layer.spec_output_shape(input) {
            Ok(shape) => Ok::<Shape, ShapeError>(with_batch(shape, batch)),
            Err(e) => Err(e),
        },
        layer.spec_output_shape(input).is_ok() ==> layer.spec_output_shape(
            input,
        ).unwrap().spec_batch() == input.spec_batch(),
{
}

/// What a sequence of layers answers does not depend on the batch size.
pub proof fn lemma_sequential_ignores_batch(layers: Seq<Layer>, input: Shape, batch: usize)
    ensures
        sequential_output(layers, with_batch(input, batch)) == match sequential_output(
            layers,
            input,
        ) {
            Ok(shape) => Ok::<Shape, ShapeError>(with_batch(shape, batch)),
            Err(e) => Err(e),
        },
        sequential_output(layers, input).is_ok() ==> sequential_output(
            layers,
            input,
        ).unwrap().spec_batch() == input.spec_batch(),
    decreases layers.len(),
{
    if layers.len() > 0 {
        lemma_sequential_ignores_batch(layers.drop_last(), input, batch);
        match sequential_output(layers.drop_last(), input) {
            Ok(shape) => {
                lemma_layer_ignores_batch(layers.last(), shape, batch);
            },
            Err(_) => {},
        }
    }
}

/// Sends a shape through `layers` in order.
pub fn run_sequential(layers: &Vec<Layer>, input: Shape) -> (r: Result<Shape, ShapeError>)
    ensures
        r == sequential_output(layers@, input),
{
    let mut shape = input;
    let mut i: usize = 0;
    while i < layers.len()
        invariant
            i <= layers.len(),
            sequential_output(layers@.take(i as int), input) == Ok::<Shape, ShapeError>(shape),
        decreases layers.len() - i,
    {
        proof {
            lemma_sequential_push(layers@.take(i as int), layers@[i as int], input);
            assert(layers@.take(i as int).push(layers@[i as int]) =~= layers@.take(i + 1));
        }
        match layers[i].output_shape(shape) {
            Ok(next) => {
                shape = next;
            },
            Err(e) => {
                proof {
                    lemma_sequential_stays_refused(layers@, i + 1, input);
                }
                return Err(e);
            },
        }
        i += 1;
    }
    proof {
        assert(layers@.take(i as int) =~= layers@);
    }
    Ok(shape)
}

/// Once a prefix of the layers has refused, the whole sequence refuses alike.
pub proof fn lemma_sequential_stays_refused(layers: Seq<Layer>, n: int, input: Shape)
    requires
        0 <= n <= layers.len(),
        sequential_output(layers.take(n), input).is_err(),
    ensures
        sequential_output(layers, input) == sequential_output(layers.take(n), input),
    decreases layers.len() - n,
{
    if n == layers.len() {
        assert(layers.take(n) =~= layers);
    } else {
        lemma_sequential_push(layers.take(n), layers[n], input);
        assert(layers.take(n).push(layers[n]) =~= layers.take(n + 1));
        lemma_sequential_stays_refused(layers, n + 1, input);
    }
}

} // verus!
