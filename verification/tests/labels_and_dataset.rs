use digit_cnn::dataset::{dataset_shape, prepare, PIXELS_PER_IMAGE};
use digit_cnn::error::{ConfigurationError, DataRangeError, DropoutSlot, Error};
use digit_cnn::labels::check_labels;
use digit_cnn::model::ModelConfig;
use digit_cnn::shape::{ImageShape, ShapeError};
use digit_cnn::training::{Batch, Phase, TrainingConfig};

fn model_config() -> ModelConfig {
    ModelConfig {
        num_classes: 10,
        hidden_size: 128,
        dropout1: 0.5f64.to_bits(),
        dropout2: 0.5f64.to_bits(),
        dropout3: 0.5f64.to_bits(),
    }
}

#[test]
fn labels_in_range_are_accepted() {
    assert_eq!(check_labels(&vec![0, 1, 2, 3, 4, 5, 6, 7, 8, 9], 10), Ok(()));
    assert_eq!(check_labels(&vec![], 10), Ok(()));
    assert_eq!(check_labels(&vec![], 0), Ok(()));
    assert_eq!(check_labels(&vec![0, 0, 0], 1), Ok(()));
}

#[test]
fn the_first_label_out_of_range_is_reported() {
    assert_eq!(check_labels(&vec![0, 10, 11], 10), Err(DataRangeError { index: 1, label: 10 }));
    assert_eq!(check_labels(&vec![-1, 10], 10), Err(DataRangeError { index: 0, label: -1 }));
    assert_eq!(check_labels(&vec![3, 2, 1, 2], 2), Err(DataRangeError { index: 0, label: 3 }));
    assert_eq!(check_labels(&vec![0], 0), Err(DataRangeError { index: 0, label: 0 }));
    assert_eq!(
        check_labels(&vec![9, i64::MAX], 10),
        Err(DataRangeError { index: 1, label: i64::MAX })
    );
    assert_eq!(
        check_labels(&vec![9, i64::MIN], usize::MAX),
        Err(DataRangeError { index: 1, label: i64::MIN })
    );
}

#[test]
fn a_dataset_is_a_whole_number_of_images() {
    assert_eq!(PIXELS_PER_IMAGE, 28 * 28);
    assert_eq!(
        dataset_shape(256 * 784, 256),
        Ok(ImageShape { batch: 256, channels: 1, height: 28, width: 28 })
    );
    assert_eq!(
        dataset_shape(0, 0),
        Ok(ImageShape { batch: 0, channels: 1, height: 28, width: 28 })
    );
    assert_eq!(dataset_shape(785, 1), Err(ShapeError::PartialImage { pixels: 785 }));
    assert_eq!(dataset_shape(783, 0), Err(ShapeError::PartialImage { pixels: 783 }));
}

#[test]
fn a_dataset_has_one_label_per_image() {
    assert_eq!(
        dataset_shape(3 * 784, 2),
        Err(ShapeError::TargetCountMismatch { expected: 3, found: 2 })
    );
    assert_eq!(
        dataset_shape(0, 1),
        Err(ShapeError::TargetCountMismatch { expected: 0, found: 1 })
    );
}

#[test]
fn a_batch_cuts_its_labels_out_of_the_dataset() {
    let labels: Vec<i64> = (0..10).collect();
    let batch = Batch { epoch: 0, index: 1, start: 3, end: 6 };
    assert_eq!(batch.labels(&labels), Some(vec![3, 4, 5]));
    assert_eq!(
        batch.image_shape(),
        Some(ImageShape { batch: 3, channels: 1, height: 28, width: 28 })
    );
    let whole = Batch { epoch: 0, index: 0, start: 0, end: 10 };
    assert_eq!(whole.labels(&labels), Some(labels.clone()));
    let empty = Batch { epoch: 0, index: 0, start: 4, end: 4 };
    assert_eq!(empty.labels(&labels), Some(vec![]));
}

#[test]
fn a_batch_outside_the_dataset_has_no_labels() {
    let labels: Vec<i64> = (0..10).collect();
    assert_eq!(Batch { epoch: 0, index: 0, start: 8, end: 11 }.labels(&labels), None);
    assert_eq!(Batch { epoch: 0, index: 0, start: 6, end: 3 }.labels(&labels), None);
    assert_eq!(Batch { epoch: 0, index: 0, start: 6, end: 3 }.image_shape(), None);
}

#[test]
fn prepare_sets_up_a_run() {
    let labels = vec![0i64; 256];
    let plan = prepare(
        model_config(),
        TrainingConfig { epochs: 1, batch_size: 128 },
        256 * 784,
        &labels,
    )
    .ok()
    .unwrap();
    assert_eq!(plan.model, model_config().init());
    assert_eq!(plan.dataset, ImageShape { batch: 256, channels: 1, height: 28, width: 28 });
    let state = plan.trainer.state();
    assert_eq!(state.phase, Phase::Idle);
    assert_eq!(state.samples, 256);
    assert_eq!(state.epochs, 1);
    assert_eq!(state.batch_size, 128);
    assert_eq!(state.completed, 0);
    assert_eq!(plan.trainer.batches_per_epoch(), 2);
}

#[test]
fn prepare_reports_each_kind_of_error() {
    let labels = vec![0i64; 4];
    let training = TrainingConfig { epochs: 1, batch_size: 2 };
    let bad_model = ModelConfig { dropout2: 2.0f64.to_bits(), ..model_config() };
    assert_eq!(
        prepare(bad_model, training, 4 * 784, &labels).err(),
        Some(Error::Configuration(ConfigurationError::DropoutOutOfRange {
            slot: DropoutSlot::Second
        }))
    );
    assert_eq!(
        prepare(model_config(), TrainingConfig { epochs: 1, batch_size: 0 }, 4 * 784, &labels)
            .err(),
        Some(Error::Configuration(ConfigurationError::ZeroBatchSize))
    );
    assert_eq!(
        prepare(model_config(), training, 4 * 784 + 1, &labels).err(),
        Some(Error::Shape(ShapeError::PartialImage { pixels: 4 * 784 + 1 }))
    );
    assert_eq!(
        prepare(model_config(), training, 5 * 784, &labels).err(),
        Some(Error::Shape(ShapeError::TargetCountMismatch { expected: 5, found: 4 }))
    );
    assert_eq!(
        prepare(model_config(), training, 4 * 784, &vec![0, 1, 10, 11]).err(),
        Some(Error::DataRange(DataRangeError { index: 2, label: 10 }))
    );
}

#[test]
fn prepare_checks_the_hyperparameters_first() {
    let bad_model = ModelConfig { num_classes: 0, ..model_config() };
    assert_eq!(
        prepare(bad_model, TrainingConfig { epochs: 1, batch_size: 0 }, 1, &vec![7]).err(),
        Some(Error::Configuration(ConfigurationError::NoClasses))
    );
    assert_eq!(
        prepare(model_config(), TrainingConfig { epochs: 1, batch_size: 0 }, 1, &vec![77]).err(),
        Some(Error::Configuration(ConfigurationError::ZeroBatchSize))
    );
    assert_eq!(
        prepare(model_config(), TrainingConfig { epochs: 1, batch_size: 1 }, 1, &vec![77]).err(),
        Some(Error::Shape(ShapeError::PartialImage { pixels: 1 }))
    );
}
