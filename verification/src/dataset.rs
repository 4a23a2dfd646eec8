//! The dataset as the training loop sees it: a flat buffer of pixels, 784 to
//! an image in row-major order, and one integer label per image.

use vstd::prelude::*;
use crate::error::{ConfigurationError, Error};
use crate::labels::{check_labels, is_first_out_of_range, labels_in_range};
use crate::model::{digit_batch, Model, ModelConfig, IMAGE_CHANNELS, IMAGE_HEIGHT, IMAGE_WIDTH};
use crate::shape::{ImageShape, ShapeError};
use crate::training::{Batch, Trainer, TrainerState, TrainingConfig};

verus! {

/// Pixels of one image: one channel of 28 by 28.
pub const PIXELS_PER_IMAGE: usize = 784;

/// The shape of the dataset that `pixels` pixel values and `labels` labels
/// make up, or why they make up none.
pub open spec fn spec_dataset_shape(pixels: usize, labels: usize) -> Result<ImageShape, ShapeError> {
    if pixels % PIXELS_PER_IMAGE != 0 {
        Err(ShapeError::PartialImage { pixels })
    } else if labels != pixels / PIXELS_PER_IMAGE {
        Err(
            ShapeError::TargetCountMismatch {
                expected: (pixels / PIXELS_PER_IMAGE) as usize,
                found: labels,
            },
        )
    } else {
        Ok(digit_batch((pixels / PIXELS_PER_IMAGE) as usize))
    }
}

/// The shape `[N, 1, 28, 28]` of a dataset of `pixels` pixel values with
/// `labels` labels. Refused where the pixels are not a whole number of
/// images, or where there is not one label per image.
pub fn dataset_shape(pixels: usize, labels: usize) -> (r: Result<ImageShape, ShapeError>)
    ensures
        r == spec_dataset_shape(pixels, labels),
{
    if pixels % PIXELS_PER_IMAGE != 0 {
        return Err(ShapeError::PartialImage { pixels });
    }
    let samples = pixels / PIXELS_PER_IMAGE;
    if labels != samples {
        return Err(ShapeError::TargetCountMismatch { expected: samples, found: labels });
    }
    Ok(
        ImageShape {
            batch: samples,
            channels: IMAGE_CHANNELS,
            height: IMAGE_HEIGHT,
            width: IMAGE_WIDTH,
        },
    )
}

impl Batch {
    /// Samples in the batch.
    pub open spec fn spec_len(self) -> int {
        self.end - self.start
    }

    /// The shape of the images of the batch, or `None` for a range that ends
    /// before it starts.
    pub fn image_shape(&self) -> (r: Option<ImageShape>)
        ensures
            r == if self.start <= self.end {
                Some(digit_batch((self.end - self.start) as usize))
            } else {
                None
            },
    {
        if self.start <= self.end {
            Some(
                ImageShape {
                    batch: self.end - self.start,
                    channels: IMAGE_CHANNELS,
                    height: IMAGE_HEIGHT,
                    width: IMAGE_WIDTH,
                },
            )
        } else {
            None
        }
    }

    /// The labels of the batch, or `None` where the batch does not lie within
    /// `labels`.
    pub fn labels(&self, labels: &Vec<i64>) -> (r: Option<Vec<i64>>)
        ensures
            match r {
                Some(slice) => self.start <= self.end <= labels.len() && slice@
                    == labels@.subrange(self.start as int, self.end as int),
                None => !(self.start <= self.end <= labels.len()),
            },
    {
        if self.start > self.end || self.end > labels.len() {
            return None;
        }
        let mut slice: Vec<i64> = Vec::new();
        let mut i: usize = self.start;
        while i < self.end
            invariant
                self.start <= i <= self.end <= labels.len(),
                slice@ == labels@.subrange(self.start as int, i as int),
            decreases self.end - i,
        {
            slice.push(labels[i]);
            proof {
                assert(slice@ =~= labels@.subrange(self.start as int, i + 1));
            }
            i += 1;
        }
        Some(slice)
    }
}

/// All that a run starts from, checked.
pub struct Plan {
    pub model: Model,
    pub trainer: Trainer,
    /// Shape of the whole dataset.
    pub dataset: ImageShape,
}

/// Checks everything that can be checked before the first batch, and sets up
/// the run: the hyperparameters of the model, those of the loop, the shape of
/// the dataset, and the range of every label, in this order.
pub fn prepare(
    model_config: ModelConfig,
    training_config: TrainingConfig,
    pixels: usize,
    labels: &Vec<i64>,
) -> (r: Result<Plan, Error>)
    ensures
        match r {
            Ok(plan) => {
                &&& model_config.is_valid()
                &&& training_config.batch_size >= 1
                &&& spec_dataset_shape(pixels, labels.len()) == Ok::<ImageShape, ShapeError>(
                    plan.dataset,
                )
                &&& labels_in_range(labels@, model_config.num_classes)
                &&& plan.model == model_config.spec_init()
                &&& plan.trainer@ == TrainerState::initial(training_config, plan.dataset.batch)
            },
            Err(Error::Configuration(e)) => {
                ||| model_config.spec_validate() == Err::<(), _>(e)
                ||| model_config.is_valid() && training_config.batch_size == 0 && e
                    == ConfigurationError::ZeroBatchSize
            },
            Err(Error::Shape(e)) => {
                &&& model_config.is_valid()
                &&& training_config.batch_size >= 1
                &&& spec_dataset_shape(pixels, labels.len()) == Err::<ImageShape, _>(e)
            },
            Err(Error::DataRange(e)) => {
                &&& model_config.is_valid()
                &&& training_config.batch_size >= 1
                &&& spec_dataset_shape(pixels, labels.len()).is_ok()
                &&& is_first_out_of_range(e, labels@, model_config.num_classes)
            },
        },
{
    match model_config.validate() {
        Ok(()) => {},
        Err(e) => {
            return Err(Error::Configuration(e));
        },
    }
    match training_config.validate() {
        Ok(()) => {},
        Err(e) => {
            return Err(Error::Configuration(e));
        },
    }
    let dataset = match dataset_shape(pixels, labels.len()) {
        Ok(dataset) => dataset,
        Err(e) => {
            return Err(Error::Shape(e));
        },
    };
    match check_labels(labels, model_config.num_classes) {
        Ok(()) => {},
        Err(e) => {
            return Err(Error::DataRange(e));
        },
    }
    let trainer = match Trainer::new(training_config, dataset.batch) {
        Ok(trainer) => trainer,
        Err(e) => {
            return Err(Error::Configuration(e));
        },
    };
    Ok(Plan { model: model_config.init(), trainer, dataset })
}

} // verus!
