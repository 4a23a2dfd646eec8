//! The classifier: two convolution stages, a hidden fully connected layer and
//! an output layer, as layer descriptors, and what its forward transform does
//! to a shape.

use vstd::prelude::*;
use crate::error::{ConfigurationError, DropoutSlot, Error};
use crate::labels::{check_labels, is_first_out_of_range, labels_in_range};
use crate::layer::{
    lemma_sequential_ignores_batch, lemma_sequential_push, run_sequential, sequential_output,
    with_batch, Conv2d, Dropout, Layer, Linear, MaxPool2d, ReLU,
};
use crate::probability::{in_unit_interval, is_probability};
use crate::shape::{Extent, FlatShape, ImageShape, Shape, ShapeError};

verus! {

/// Channels of an input image.
pub const IMAGE_CHANNELS: usize = 1;

/// Height of an input image.
pub const IMAGE_HEIGHT: usize = 28;

/// Width of an input image.
pub const IMAGE_WIDTH: usize = 28;

/// Values per image that leave the second convolution stage: 16 channels of
/// 22 by 22.
pub const STAGE_FEATURES: usize = 16 * 22 * 22;

/// Hyperparameters of the model.
#[derive(Clone, Copy, Debug, PartialEq, Eq, Structural)]
pub struct ModelConfig {
    pub num_classes: usize,
    pub hidden_size: usize,
    /// Dropout probability after the first stage, as a binary64 bit pattern.
    pub dropout1: u64,
    /// Dropout probability after the second stage, as a binary64 bit pattern.
    pub dropout2: u64,
    /// Dropout probability after the hidden layer, as a binary64 bit pattern.
    pub dropout3: u64,
}

/// The layers of the model, by name.
#[derive(Clone, Copy, Debug, PartialEq, Eq, Structural)]
pub struct Model {
    pub conv1: Conv2d,
    pub active1: ReLU,
    pub pool1: MaxPool2d,
    pub dropout1: Dropout,
    pub active2: ReLU,
    pub conv2: Conv2d,
    pub pool2: MaxPool2d,
    pub dropout2: Dropout,
    pub linear1: Linear,
    pub active3: ReLU,
    pub dropout3: Dropout,
    pub linear2: Linear,
}

/// The name of a layer of the model. The three dropout points are three
/// layers, each with a probability of its own.
#[derive(Clone, Copy, Debug, PartialEq, Eq, Structural)]
pub enum LayerName {
    Conv1,
    Active1,
    Pool1,
    Dropout1,
    Conv2,
    Active2,
    Pool2,
    Dropout2,
    Flatten,
    Linear1,
    Active3,
    Dropout3,
    Linear2,
}

/// One step of the forward transform: which layer of the model acts, and
/// what it is.
#[derive(Clone, Copy, Debug, PartialEq, Eq, Structural)]
pub struct Step {
    pub name: LayerName,
    pub layer: Layer,
}

/// Whether the forward transform runs to train or to evaluate. Dropout acts
/// only in training.
#[derive(Clone, Copy, Debug, PartialEq, Eq, Structural)]
pub enum Mode {
    Train,
    Eval,
}

/// Shapes of what a classification step hands back.
#[derive(Clone, Copy, Debug, PartialEq, Eq, Structural)]
pub struct ClassificationOutput {
    /// Length of the loss tensor: the loss is reduced to one number.
    pub loss: usize,
    /// Shape of the logits.
    pub output: FlatShape,
    /// Length of the target tensor.
    pub targets: usize,
}

/// The shape of a batch of `batch` input images.
pub open spec fn digit_batch(batch: usize) -> ImageShape {
    ImageShape { batch, channels: IMAGE_CHANNELS, height: IMAGE_HEIGHT, width: IMAGE_WIDTH }
}

/// A square extent.
pub open spec fn square(side: usize) -> Extent {
    Extent { height: side, width: side }
}

impl ModelConfig {
    /// The hyperparameters are ones that a run can start with.
    pub open spec fn is_valid(self) -> bool {
        &&& self.num_classes >= 1
        &&& self.hidden_size >= 1
        &&& in_unit_interval(self.dropout1)
        &&& in_unit_interval(self.dropout2)
        &&& in_unit_interval(self.dropout3)
    }

    /// The first defect of the hyperparameters, in the order of their fields.
    pub open spec fn spec_validate(self) -> Result<(), ConfigurationError> {
        if self.num_classes == 0 {
            Err(ConfigurationError::NoClasses)
        } else if self.hidden_size == 0 {
            Err(ConfigurationError::NoHiddenUnits)
        } else if !in_unit_interval(self.dropout1) {
            Err(ConfigurationError::DropoutOutOfRange { slot: DropoutSlot::First })
        } else if !in_unit_interval(self.dropout2) {
            Err(ConfigurationError::DropoutOutOfRange { slot: DropoutSlot::Second })
        } else if !in_unit_interval(self.dropout3) {
            Err(ConfigurationError::DropoutOutOfRange { slot: DropoutSlot::Third })
        } else {
            Ok(())
        }
    }

    /// Checks the hyperparameters, and reports the first defect.
    pub fn validate(&self) -> (r: Result<(), ConfigurationError>)
        ensures
            r == self.spec_validate(),
            r.is_ok() <==> self.is_valid(),
    {
        if self.num_classes == 0 {
            Err(ConfigurationError::NoClasses)
        } else if self.hidden_size == 0 {
            Err(ConfigurationError::NoHiddenUnits)
        } else if !is_probability(self.dropout1) {
            Err(ConfigurationError::DropoutOutOfRange { slot: DropoutSlot::First })
        } else if !is_probability(self.dropout2) {
            Err(ConfigurationError::DropoutOutOfRange { slot: DropoutSlot::Second })
        } else if !is_probability(self.dropout3) {
            Err(ConfigurationError::DropoutOutOfRange { slot: DropoutSlot::Third })
        } else {
            Ok(())
        }
    }

    /// The model that these hyperparameters describe.
    pub open spec fn spec_init(self) -> Model {
        Model {
            conv1: Conv2d {
                in_channels: 1,
                out_channels: 8,
                kernel_size: square(3),
                stride: square(1),
            },
            active1: ReLU {  },
            pool1: MaxPool2d { kernel_size: square(2), stride: square(1) },
            dropout1: Dropout { prob: self.dropout1 },
            active2: ReLU {  },
            conv2: Conv2d {
                in_channels: 8,
                out_channels: 16,
                kernel_size: square(3),
                stride: square(1),
            },
            pool2: MaxPool2d { kernel_size: square(2), stride: square(1) },
            dropout2: Dropout { prob: self.dropout2 },
            linear1: Linear { d_input: STAGE_FEATURES, d_output: self.hidden_size },
            active3: ReLU {  },
            dropout3: Dropout { prob: self.dropout3 },
            linear2: Linear { d_input: self.hidden_size, d_output: self.num_classes },
        }
    }

    /// Returns the model that these hyperparameters describe. Its layers fit
    /// each other on input images whatever the hyperparameters are.
    pub fn init(&self) -> (model: Model)
        ensures
            model == self.spec_init(),
            forall|batch: usize|
                model.spec_forward(#[trigger] digit_batch(batch)) == Ok::<FlatShape, ShapeError>(
                    FlatShape { batch, features: self.num_classes },
                ),
    {
        proof {
            assert forall|batch: usize|
                self.spec_init().spec_forward(#[trigger] digit_batch(batch)) == Ok::<
                    FlatShape,
                    ShapeError,
                >(FlatShape { batch, features: self.num_classes }) by {
                lemma_forward_digit_batch(*self, batch);
            }
        }
        let three = Extent { height: 3, width: 3 };
        let two = Extent { height: 2, width: 2 };
        let one = Extent { height: 1, width: 1 };
        Model {
            conv1: Conv2d { in_channels: 1, out_channels: 8, kernel_size: three, stride: one },
            active1: ReLU {  },
            pool1: MaxPool2d { kernel_size: two, stride: one },
            dropout1: Dropout { prob: self.dropout1 },
            active2: ReLU {  },
            conv2: Conv2d { in_channels: 8, out_channels: 16, kernel_size: three, stride: one },
            pool2: MaxPool2d { kernel_size: two, stride: one },
            dropout2: Dropout { prob: self.dropout2 },
            linear1: Linear { d_input: STAGE_FEATURES, d_output: self.hidden_size },
            active3: ReLU {  },
            dropout3: Dropout { prob: self.dropout3 },
            linear2: Linear { d_input: self.hidden_size, d_output: self.num_classes },
        }
    }
}

impl Model {
    /// The layers in the order in which the forward transform applies them.
    /// Each dropout point has its own descriptor; in evaluation none of them
    /// is part of the transform.
    pub open spec fn spec_layers(self, mode: Mode) -> Seq<Layer> {
        match mode {
            Mode::Train => seq![
                Layer::Conv2d(self.conv1),
                Layer::ReLU(self.active1),
                Layer::MaxPool2d(self.pool1),
                Layer::Dropout(self.dropout1),
                Layer::Conv2d(self.conv2),
                Layer::ReLU(self.active2),
                Layer::MaxPool2d(self.pool2),
                Layer::Dropout(self.dropout2),
                Layer::Flatten,
                Layer::Linear(self.linear1),
                Layer::ReLU(self.active3),
                Layer::Dropout(self.dropout3),
                Layer::Linear(self.linear2),
            ],
            Mode::Eval => seq![
                Layer::Conv2d(self.conv1),
                Layer::ReLU(self.active1),
                Layer::MaxPool2d(self.pool1),
                Layer::Conv2d(self.conv2),
                Layer::ReLU(self.active2),
                Layer::MaxPool2d(self.pool2),
                Layer::Flatten,
                Layer::Linear(self.linear1),
                Layer::ReLU(self.active3),
                Layer::Linear(self.linear2),
            ],
        }
    }

    /// The names of the layers of `spec_layers`, in the same order.
    pub open spec fn spec_names(mode: Mode) -> Seq<LayerName> {
        match mode {
            Mode::Train => seq![
                LayerName::Conv1,
                LayerName::Active1,
                LayerName::Pool1,
                LayerName::Dropout1,
                LayerName::Conv2,
                LayerName::Active2,
                LayerName::Pool2,
                LayerName::Dropout2,
                LayerName::Flatten,
                LayerName::Linear1,
                LayerName::Active3,
                LayerName::Dropout3,
                LayerName::Linear2,
            ],
            Mode::Eval => seq![
                LayerName::Conv1,
                LayerName::Active1,
                LayerName::Pool1,
                LayerName::Conv2,
                LayerName::Active2,
                LayerName::Pool2,
                LayerName::Flatten,
                LayerName::Linear1,
                LayerName::Active3,
                LayerName::Linear2,
            ],
        }
    }

    /// The steps of the forward transform: each layer of `spec_layers` under
    /// its name.
    pub open spec fn spec_pipeline(self, mode: Mode) -> Seq<Step> {
        Seq::new(
            self.spec_layers(mode).len(),
            |i: int| Step { name: Self::spec_names(mode)[i], layer: self.spec_layers(mode)[i] },
        )
    }

    /// The steps of the forward transform, in order. In evaluation no step
    /// is a dropout.
    pub fn pipeline(&self, mode: Mode) -> (steps: Vec<Step>)
        ensures
            steps@ == self.spec_pipeline(mode),
            mode == Mode::Eval ==> forall|i: int|
                0 <= i < steps.len() ==> !(#[trigger] steps[i].layer is Dropout),
    {
        let mut steps: Vec<Step> = Vec::new();
        let train = match mode {
            Mode::Train => true,
            Mode::Eval => false,
        };
        steps.push(Step { name: LayerName::Conv1, layer: Layer::Conv2d(self.conv1) });
        steps.push(Step { name: LayerName::Active1, layer: Layer::ReLU(self.active1) });
        steps.push(Step { name: LayerName::Pool1, layer: Layer::MaxPool2d(self.pool1) });
        if train {
            steps.push(Step { name: LayerName::Dropout1, layer: Layer::Dropout(self.dropout1) });
        }
        steps.push(Step { name: LayerName::Conv2, layer: Layer::Conv2d(self.conv2) });
        steps.push(Step { name: LayerName::Active2, layer: Layer::ReLU(self.active2) });
        steps.push(Step { name: LayerName::Pool2, layer: Layer::MaxPool2d(self.pool2) });
        if train {
            steps.push(Step { name: LayerName::Dropout2, layer: Layer::Dropout(self.dropout2) });
        }
        steps.push(Step { name: LayerName::Flatten, layer: Layer::Flatten });
        steps.push(Step { name: LayerName::Linear1, layer: Layer::Linear(self.linear1) });
        steps.push(Step { name: LayerName::Active3, layer: Layer::ReLU(self.active3) });
        if train {
            steps.push(Step { name: LayerName::Dropout3, layer: Layer::Dropout(self.dropout3) });
        }
        steps.push(Step { name: LayerName::Linear2, layer: Layer::Linear(self.linear2) });
        proof {
            assert(steps@ =~= self.spec_pipeline(mode));
        }
        steps
    }

    /// The layers of the forward transform, in order.
    pub fn layers(&self, mode: Mode) -> (layers: Vec<Layer>)
        ensures
            layers@ == self.spec_layers(mode),
    {
        let steps = self.pipeline(mode);
        let mut layers: Vec<Layer> = Vec::new();
        let mut i: usize = 0;
        while i < steps.len()
            invariant
                i <= steps.len(),
                steps@ == self.spec_pipeline(mode),
                layers@ == self.spec_layers(mode).take(i as int),
            decreases steps.len() - i,
        {
            layers.push(steps[i].layer);
            proof {
                assert(layers@ =~= self.spec_layers(mode).take(i + 1));
            }
            i += 1;
        }
        proof {
            assert(layers@ =~= self.spec_layers(mode));
        }
        layers
    }

    /// The shape of the logits for a batch of images of shape `images`, or
    /// the refusal of the first layer that refuses.
    pub open spec fn spec_forward(self, images: ImageShape) -> Result<FlatShape, ShapeError> {
        match sequential_output(self.spec_layers(Mode::Eval), Shape::Image(images)) {
            Ok(Shape::Flat(logits)) => Ok(logits),
            Ok(Shape::Image(_)) => Err(ShapeError::ExpectedFlat),
            Err(e) => Err(e),
        }
    }

    /// The forward transform on shapes: from a batch of images to a batch of
    /// rows of logits, one logit per class.
    pub fn forward(&self, images: ImageShape) -> (r: Result<FlatShape, ShapeError>)
        ensures
            r == self.spec_forward(images),
            r.is_ok() ==> r.unwrap() == (FlatShape {
                batch: images.batch,
                features: self.linear2.d_output,
            }),
    {
        let layers = self.layers(Mode::Eval);
        proof {
            lemma_forward_output(*self, images);
        }
        match run_sequential(&layers, Shape::Image(images)) {
            Ok(Shape::Flat(logits)) => Ok(logits),
            Ok(Shape::Image(_)) => Err(ShapeError::ExpectedFlat),
            Err(e) => Err(e),
        }
    }

    /// Learnable values of the whole model: those of the two convolutions
    /// and of the two fully connected layers.
    pub open spec fn spec_num_params(self) -> int {
        self.conv1.spec_num_params() + self.conv2.spec_num_params()
            + self.linear1.spec_num_params() + self.linear2.spec_num_params()
    }

    /// The number of learnable values, where it fits a machine word.
    pub fn num_params(&self) -> (r: Option<usize>)
        ensures
            r.is_some() <==> self.spec_num_params() <= usize::MAX,
            r.is_some() ==> r.unwrap() == self.spec_num_params(),
    {
        let conv1 = self.conv1.num_params();
        let conv2 = self.conv2.num_params();
        let linear1 = self.linear1.num_params();
        let linear2 = self.linear2.num_params();
        match (conv1, conv2, linear1, linear2) {
            (Some(conv1), Some(conv2), Some(linear1), Some(linear2)) => {
                match conv1.checked_add(conv2) {
                    Some(convs) => match convs.checked_add(linear1) {
                        Some(hidden) => hidden.checked_add(linear2),
                        None => None,
                    },
                    None => None,
                }
            },
            _ => None,
        }
    }

    /// What a classification step on a batch of shape `images` with the
    /// labels `targets` hands back, where the error is not one of labels.
    pub open spec fn spec_classification_shapes(self, images: ImageShape, targets: Seq<i64>) -> Result<
        ClassificationOutput,
        Error,
    > {
        match self.spec_forward(images) {
            Err(e) => Err(Error::Shape(e)),
            Ok(logits) => if targets.len() != images.batch {
                Err(
                    Error::Shape(
                        ShapeError::TargetCountMismatch {
                            expected: images.batch,
                            found: targets.len() as usize,
                        },
                    ),
                )
            } else {
                Ok(ClassificationOutput { loss: 1, output: logits, targets: images.batch })
            },
        }
    }

    /// The forward transform followed by the loss, on shapes and labels. The
    /// batch is refused where the images do not fit the layers, where there is
    /// not one target per image, and where a target names no class, in this
    /// order. Else the loss is one number, the output one row of logits per
    /// image.
    pub fn forward_classification(&self, images: ImageShape, targets: &Vec<i64>) -> (r: Result<
        ClassificationOutput,
        Error,
    >)
        ensures
            match r {
                Ok(_) => {
                    &&& r == self.spec_classification_shapes(images, targets@)
                    &&& labels_in_range(targets@, self.linear2.d_output)
                },
                Err(Error::DataRange(e)) => {
                    &&& self.spec_classification_shapes(images, targets@).is_ok()
                    &&& is_first_out_of_range(e, targets@, self.linear2.d_output)
                },
                Err(_) => r == self.spec_classification_shapes(images, targets@),
            },
    {
        let logits = match self.forward(images) {
            Ok(logits) => logits,
            Err(e) => {
                return Err(Error::Shape(e));
            },
        };
        if targets.len() != images.batch {
            return Err(
                Error::Shape(
                    ShapeError::TargetCountMismatch {
                        expected: images.batch,
                        found: targets.len(),
                    },
                ),
            );
        }
        match check_labels(targets, logits.features) {
            Ok(()) => Ok(ClassificationOutput { loss: 1, output: logits, targets: images.batch }),
            Err(e) => Err(Error::DataRange(e)),
        }
    }

    /// Checks that the layers fit each other on images of the given
    /// resolution, whatever the batch size.
    pub fn check_structure(&self, channels: usize, height: usize, width: usize) -> (r: Result<
        (),
        ConfigurationError,
    >)
        ensures
            forall|batch: usize|
                match #[trigger] self.spec_forward(ImageShape { batch, channels, height, width }) {
                    Ok(_) => r == Ok::<(), ConfigurationError>(()),
                    Err(defect) => r == Err::<(), ConfigurationError>(
                        ConfigurationError::Structure { defect },
                    ),
                },
    {
        let probe = ImageShape { batch: 1, channels, height, width };
        proof {
            assert forall|batch: usize|
                match #[trigger] self.spec_forward(ImageShape { batch, channels, height, width }) {
                    Ok(_) => self.spec_forward(probe).is_ok(),
                    Err(defect) => self.spec_forward(probe) == Err::<FlatShape, ShapeError>(defect),
                } by {
                lemma_forward_ignores_batch(*self, probe, batch);
            }
        }
        match self.forward(probe) {
            Ok(_) => Ok(()),
            Err(defect) => Err(ConfigurationError::Structure { defect }),
        }
    }
}

/// Whether the forward transform accepts a batch, and why not, does not
/// depend on the batch size.
pub proof fn lemma_forward_ignores_batch(model: Model, images: ImageShape, batch: usize)
    ensures
        match model.spec_forward(images) {
            Ok(_) => model.spec_forward(
                ImageShape {
                    batch,
                    channels: images.channels,
                    height: images.height,
                    width: images.width,
                },
            ).is_ok(),
            Err(e) => model.spec_forward(
                ImageShape {
                    batch,
                    channels: images.channels,
                    height: images.height,
                    width: images.width,
                },
            ) == Err::<FlatShape, ShapeError>(e),
        },
{
    lemma_sequential_ignores_batch(model.spec_layers(Mode::Eval), Shape::Image(images), batch);
    assert(with_batch(Shape::Image(images), batch) == Shape::Image(
        ImageShape { batch, channels: images.channels, height: images.height, width: images.width },
    ));
}

/// Dropout changes no shape: the layers of training accept and refuse as the
/// layers of evaluation do, with the same result.
pub proof fn lemma_mode_keeps_shape(model: Model, input: Shape)
    ensures
        sequential_output(model.spec_layers(Mode::Train), input) == sequential_output(
            model.spec_layers(Mode::Eval),
            input,
        ),
{
    let e0 = Seq::<Layer>::empty();
    let e1 = e0.push(Layer::Conv2d(model.conv1));
    let e2 = e1.push(Layer::ReLU(model.active1));
    let e3 = e2.push(Layer::MaxPool2d(model.pool1));
    let e4 = e3.push(Layer::Conv2d(model.conv2));
    let e5 = e4.push(Layer::ReLU(model.active2));
    let e6 = e5.push(Layer::MaxPool2d(model.pool2));
    let e7 = e6.push(Layer::Flatten);
    let e8 = e7.push(Layer::Linear(model.linear1));
    let e9 = e8.push(Layer::ReLU(model.active3));
    let e10 = e9.push(Layer::Linear(model.linear2));
    assert(e10 =~= model.spec_layers(Mode::Eval));
    let t1 = e0.push(Layer::Conv2d(model.conv1));
    let t2 = t1.push(Layer::ReLU(model.active1));
    let t3 = t2.push(Layer::MaxPool2d(model.pool1));
    let t4 = t3.push(Layer::Dropout(model.dropout1));
    let t5 = t4.push(Layer::Conv2d(model.conv2));
    let t6 = t5.push(Layer::ReLU(model.active2));
    let t7 = t6.push(Layer::MaxPool2d(model.pool2));
    let t8 = t7.push(Layer::Dropout(model.dropout2));
    let t9 = t8.push(Layer::Flatten);
    let t10 = t9.push(Layer::Linear(model.linear1));
    let t11 = t10.push(Layer::ReLU(model.active3));
    let t12 = t11.push(Layer::Dropout(model.dropout3));
    let t13 = t12.push(Layer::Linear(model.linear2));
    assert(t13 =~= model.spec_layers(Mode::Train));
    lemma_sequential_push(e3, Layer::Conv2d(model.conv2), input);
    lemma_sequential_push(e4, Layer::ReLU(model.active2), input);
    lemma_sequential_push(e5, Layer::MaxPool2d(model.pool2), input);
    lemma_sequential_push(e6, Layer::Flatten, input);
    lemma_sequential_push(e7, Layer::Linear(model.linear1), input);
    lemma_sequential_push(e8, Layer::ReLU(model.active3), input);
    lemma_sequential_push(e9, Layer::Linear(model.linear2), input);
    lemma_sequential_push(t3, Layer::Dropout(model.dropout1), input);
    lemma_sequential_push(t4, Layer::Conv2d(model.conv2), input);
    lemma_sequential_push(t5, Layer::ReLU(model.active2), input);
    lemma_sequential_push(t6, Layer::MaxPool2d(model.pool2), input);
    lemma_sequential_push(t7, Layer::Dropout(model.dropout2), input);
    lemma_sequential_push(t8, Layer::Flatten, input);
    lemma_sequential_push(t9, Layer::Linear(model.linear1), input);
    lemma_sequential_push(t10, Layer::ReLU(model.active3), input);
    lemma_sequential_push(t11, Layer::Dropout(model.dropout3), input);
    lemma_sequential_push(t12, Layer::Linear(model.linear2), input);
}

/// The layers never leave a batch of images unflattened. Where the forward
/// transform accepts a batch, the logits have the batch size of the input and
/// one feature per output of the last layer.
pub proof fn lemma_forward_output(model: Model, images: ImageShape)
    ensures
        !(sequential_output(model.spec_layers(Mode::Eval), Shape::Image(images)) matches Ok(
            Shape::Image(_),
        )),
        model.spec_forward(images).is_ok() ==> model.spec_forward(images).unwrap() == (FlatShape {
            batch: images.batch,
            features: model.linear2.d_output,
        }),
{
    let input = Shape::Image(images);
    let l0 = Seq::<Layer>::empty();
    let l1 = l0.push(Layer::Conv2d(model.conv1));
    let l2 = l1.push(Layer::ReLU(model.active1));
    let l3 = l2.push(Layer::MaxPool2d(model.pool1));
    let l4 = l3.push(Layer::Conv2d(model.conv2));
    let l5 = l4.push(Layer::ReLU(model.active2));
    let l6 = l5.push(Layer::MaxPool2d(model.pool2));
    let l7 = l6.push(Layer::Flatten);
    let l8 = l7.push(Layer::Linear(model.linear1));
    let l9 = l8.push(Layer::ReLU(model.active3));
    let l10 = l9.push(Layer::Linear(model.linear2));
    assert(l10 =~= model.spec_layers(Mode::Eval));
    assert(sequential_output(l0, input) == Ok::<Shape, ShapeError>(input));
    lemma_sequential_push(l0, Layer::Conv2d(model.conv1), input);
    lemma_sequential_push(l1, Layer::ReLU(model.active1), input);
    lemma_sequential_push(l2, Layer::MaxPool2d(model.pool1), input);
    lemma_sequential_push(l3, Layer::Conv2d(model.conv2), input);
    lemma_sequential_push(l4, Layer::ReLU(model.active2), input);
    lemma_sequential_push(l5, Layer::MaxPool2d(model.pool2), input);
    lemma_sequential_push(l6, Layer::Flatten, input);
    lemma_sequential_push(l7, Layer::Linear(model.linear1), input);
    lemma_sequential_push(l8, Layer::ReLU(model.active3), input);
    lemma_sequential_push(l9, Layer::Linear(model.linear2), input);
}

/// For any batch size, the model of any hyperparameters takes a batch of
/// 28 by 28 single-channel images to one row of `num_classes` logits per
/// image.
pub proof fn lemma_forward_digit_batch(config: ModelConfig, batch: usize)
    ensures
        config.spec_init().spec_forward(digit_batch(batch)) == Ok::<FlatShape, ShapeError>(
            FlatShape { batch, features: config.num_classes },
        ),
{
    let model = config.spec_init();
    let input = Shape::Image(digit_batch(batch));
    let l0 = Seq::<Layer>::empty();
    let l1 = l0.push(Layer::Conv2d(model.conv1));
    let l2 = l1.push(Layer::ReLU(model.active1));
    let l3 = l2.push(Layer::MaxPool2d(model.pool1));
    let l4 = l3.push(Layer::Conv2d(model.conv2));
    let l5 = l4.push(Layer::ReLU(model.active2));
    let l6 = l5.push(Layer::MaxPool2d(model.pool2));
    let l7 = l6.push(Layer::Flatten);
    let l8 = l7.push(Layer::Linear(model.linear1));
    let l9 = l8.push(Layer::ReLU(model.active3));
    let l10 = l9.push(Layer::Linear(model.linear2));
    assert(l10 =~= model.spec_layers(Mode::Eval));
    assert(sequential_output(l0, input) == Ok::<Shape, ShapeError>(input));
    lemma_sequential_push(l0, Layer::Conv2d(model.conv1), input);
    let s1 = Shape::Image(ImageShape { batch, channels: 8, height: 26, width: 26 });
    assert(sequential_output(l1, input) == Ok::<Shape, ShapeError>(s1));
    lemma_sequential_push(l1, Layer::ReLU(model.active1), input);
    lemma_sequential_push(l2, Layer::MaxPool2d(model.pool1), input);
    let s3 = Shape::Image(ImageShape { batch, channels: 8, height: 25, width: 25 });
    assert(sequential_output(l3, input) == Ok::<Shape, ShapeError>(s3));
    lemma_sequential_push(l3, Layer::Conv2d(model.conv2), input);
    let s4 = Shape::Image(ImageShape { batch, channels: 16, height: 23, width: 23 });
    assert(sequential_output(l4, input) == Ok::<Shape, ShapeError>(s4));
    lemma_sequential_push(l4, Layer::ReLU(model.active2), input);
    lemma_sequential_push(l5, Layer::MaxPool2d(model.pool2), input);
    let s6 = Shape::Image(ImageShape { batch, channels: 16, height: 22, width: 22 });
    assert(sequential_output(l6, input) == Ok::<Shape, ShapeError>(s6));
    lemma_sequential_push(l6, Layer::Flatten, input);
    let s7 = Shape::Flat(FlatShape { batch, features: STAGE_FEATURES });
    assert(sequential_output(l7, input) == Ok::<Shape, ShapeError>(s7));
    lemma_sequential_push(l7, Layer::Linear(model.linear1), input);
    lemma_sequential_push(l8, Layer::ReLU(model.active3), input);
    lemma_sequential_push(l9, Layer::Linear(model.linear2), input);
}

} // verus!
