use burn::autodiff::ADBackendDecorator;
use burn::module::{Module, ModuleVisitor, ParamId};
use burn::nn::conv::{Conv2d as RuntimeConv2d, Conv2dConfig};
use burn::nn::loss::CrossEntropyLoss;
use burn::nn::pool::MaxPool2dConfig;
use burn::nn::{DropoutConfig, Linear as RuntimeLinear, LinearConfig};
use burn::optim::decay::WeightDecayConfig;
use burn::optim::{AdamConfig, GradientsParams, Optimizer};
use burn::tensor::activation::relu;
use burn::tensor::backend::{ADBackend, Backend};
use burn::tensor::ops::conv::calculate_conv_output_size;
use burn::tensor::{Data, Int, Shape as RuntimeShape, Tensor};
use burn_ndarray::NdArrayBackend;
use digit_cnn::geometry::valid_output_size;
use digit_cnn::layer::{Conv2d, Dropout, Layer, Linear, MaxPool2d, ReLU};
use digit_cnn::model::{LayerName, Mode, Model, ModelConfig, Step};
use digit_cnn::shape::{Extent, FlatShape, ImageShape, Shape};
use digit_cnn::training::{Action, Trainer, TrainingConfig};

type Cpu = NdArrayBackend<f32>;
type CpuTraining = ADBackendDecorator<Cpu>;

/// The layers of a model that hold parameters, as the tensor runtime has
/// them: the two convolutions, and the two fully connected layers.
struct Parameters<B: Backend> {
    convs: Vec<RuntimeConv2d<B>>,
    linears: Vec<RuntimeLinear<B>>,
}

enum Value<B: Backend> {
    Image(Tensor<B, 4>),
    Flat(Tensor<B, 2>),
}

fn shape_of<B: Backend>(value: &Value<B>) -> Shape {
    match value {
        Value::Image(x) => Shape::Image(ImageShape::from_dims(x.dims())),
        Value::Flat(x) => {
            let [batch, features] = x.dims();
            Shape::Flat(FlatShape { batch, features })
        }
    }
}

fn conv<B: Backend>(c: &Conv2d) -> RuntimeConv2d<B> {
    Conv2dConfig::new(
        [c.in_channels, c.out_channels],
        [c.kernel_size.height, c.kernel_size.width],
    )
    .with_stride([c.stride.height, c.stride.width])
    .init()
}

fn linear<B: Backend>(l: &Linear) -> RuntimeLinear<B> {
    LinearConfig::new(l.d_input, l.d_output).init()
}

fn parameters<B: Backend>(model: &Model) -> Parameters<B> {
    Parameters {
        convs: vec![conv(&model.conv1), conv(&model.conv2)],
        linears: vec![linear(&model.linear1), linear(&model.linear2)],
    }
}

/// Applies the steps in order, and holds the shape of each result against
/// the shape that the library gives for it.
fn run<B: Backend>(parameters: &Parameters<B>, steps: &[Step], input: Tensor<B, 4>) -> Tensor<B, 2> {
    let mut value = Value::Image(input);
    for step in steps {
        let expected = step.layer.output_shape(shape_of(&value)).unwrap();
        value = match (step.name, step.layer, value) {
            (LayerName::Conv1, Layer::Conv2d(_), Value::Image(x)) => {
                Value::Image(parameters.convs[0].forward(x))
            }
            (LayerName::Conv2, Layer::Conv2d(_), Value::Image(x)) => {
                Value::Image(parameters.convs[1].forward(x))
            }
            (_, Layer::MaxPool2d(p), Value::Image(x)) => Value::Image(
                MaxPool2dConfig::new([p.kernel_size.height, p.kernel_size.width])
                    .with_strides([p.stride.height, p.stride.width])
                    .init()
                    .forward(x),
            ),
            (_, Layer::ReLU(_), Value::Image(x)) => Value::Image(relu(x)),
            (_, Layer::ReLU(_), Value::Flat(x)) => Value::Flat(relu(x)),
            (_, Layer::Dropout(d), Value::Image(x)) => {
                Value::Image(DropoutConfig::new(f64::from_bits(d.prob)).init().forward(x))
            }
            (_, Layer::Dropout(d), Value::Flat(x)) => {
                Value::Flat(DropoutConfig::new(f64::from_bits(d.prob)).init().forward(x))
            }
            (LayerName::Flatten, Layer::Flatten, Value::Image(x)) => Value::Flat(x.flatten(1, 3)),
            (LayerName::Linear1, Layer::Linear(_), Value::Flat(x)) => {
                Value::Flat(parameters.linears[0].forward(x))
            }
            (LayerName::Linear2, Layer::Linear(_), Value::Flat(x)) => {
                Value::Flat(parameters.linears[1].forward(x))
            }
            _ => panic!("the library accepted a shape that the layer cannot take"),
        };
        assert_eq!(shape_of(&value), expected);
    }
    match value {
        Value::Flat(x) => x,
        Value::Image(_) => panic!("the pipeline did not flatten"),
    }
}

fn config() -> ModelConfig {
    ModelConfig {
        num_classes: 10,
        hidden_size: 128,
        dropout1: 0.5f64.to_bits(),
        dropout2: 0.5f64.to_bits(),
        dropout3: 0.5f64.to_bits(),
    }
}

#[test]
fn output_size_is_the_runtimes_own() {
    for kernel in 1..6usize {
        for stride in 1..4usize {
            for size in 0..40usize {
                let ours = valid_output_size(kernel, stride, size);
                if kernel <= size {
                    assert_eq!(ours, Some(calculate_conv_output_size(kernel, stride, 0, 1, size)));
                    assert_eq!(ours, Some((size - kernel) / stride + 1));
                } else {
                    assert_eq!(ours, None);
                }
            }
        }
    }
}

#[test]
fn the_runtime_gives_the_shapes_that_the_library_gives() {
    let model = config().init();
    let parameters = parameters::<Cpu>(&model);
    for batch in [1usize, 3] {
        let input = Tensor::<Cpu, 4>::zeros([batch, 1, 28, 28]);
        let logits = run(&parameters, &model.pipeline(Mode::Eval), input);
        assert_eq!(logits.dims(), [batch, 10]);
        assert_eq!(
            model.forward(ImageShape { batch, channels: 1, height: 28, width: 28 }),
            Ok(FlatShape { batch, features: 10 })
        );
        let finite = logits.to_data().value.iter().all(|x| x.is_finite());
        assert!(finite);
    }
}

#[test]
fn the_runtime_agrees_on_a_model_with_strides() {
    let square = |side: usize| Extent { height: side, width: side };
    let model = Model {
        conv1: Conv2d {
            in_channels: 3,
            out_channels: 4,
            kernel_size: Extent { height: 5, width: 3 },
            stride: Extent { height: 2, width: 1 },
        },
        active1: ReLU {},
        pool1: MaxPool2d { kernel_size: square(2), stride: square(2) },
        dropout1: Dropout { prob: 0 },
        active2: ReLU {},
        conv2: Conv2d { in_channels: 4, out_channels: 6, kernel_size: square(3), stride: square(1) },
        pool2: MaxPool2d { kernel_size: Extent { height: 2, width: 3 }, stride: square(1) },
        dropout2: Dropout { prob: 0 },
        // height 33 -> 15 -> 7 -> 5 -> 4, width 20 -> 18 -> 9 -> 7 -> 5
        linear1: Linear { d_input: 6 * 4 * 5, d_output: 7 },
        active3: ReLU {},
        dropout3: Dropout { prob: 0 },
        linear2: Linear { d_input: 7, d_output: 5 },
    };
    let input_shape = ImageShape { batch: 2, channels: 3, height: 33, width: 20 };
    assert_eq!(model.forward(input_shape), Ok(FlatShape { batch: 2, features: 5 }));
    let parameters = parameters::<Cpu>(&model);
    let input = Tensor::<Cpu, 4>::zeros(input_shape.dims());
    let logits = run(&parameters, &model.pipeline(Mode::Train), input);
    assert_eq!(logits.dims(), [2, 5]);
}

#[test]
fn the_runtime_holds_as_many_parameters_as_the_library_counts() {
    let model = config().init();
    let parameters = parameters::<Cpu>(&model);
    assert_eq!(model.conv1.num_params(), Some(parameters.convs[0].num_params()));
    assert_eq!(model.conv2.num_params(), Some(parameters.convs[1].num_params()));
    assert_eq!(model.linear1.num_params(), Some(parameters.linears[0].num_params()));
    assert_eq!(model.linear2.num_params(), Some(parameters.linears[1].num_params()));
    assert_eq!(
        model.num_params(),
        Some(parameters.convs.num_params() + parameters.linears.num_params())
    );
}

#[test]
fn two_evaluations_of_one_input_give_the_same_logits() {
    let model = config().init();
    let parameters = parameters::<Cpu>(&model);
    let pixels: Vec<f32> = (0..2 * 784).map(|i| ((i * 37) % 256) as f32 / 255.0).collect();
    let input = Tensor::<Cpu, 4>::from_data(Data::new(pixels, RuntimeShape::new([2, 1, 28, 28])));
    let layers = model.pipeline(Mode::Eval);
    let first = run(&parameters, &layers, input.clone()).to_data().value;
    let second = run(&parameters, &layers, input).to_data().value;
    let first: Vec<u32> = first.iter().map(|x| x.to_bits()).collect();
    let second: Vec<u32> = second.iter().map(|x| x.to_bits()).collect();
    assert_eq!(first, second);
}

/// Moves the gradients of the parameters it is shown out of the backward
/// pass's gradients, each under its parameter's own id.
struct Collect<'a, B: ADBackend> {
    gradients: &'a mut B::Gradients,
    collected: GradientsParams,
}

impl<'a, B: ADBackend> ModuleVisitor<B> for Collect<'a, B> {
    fn visit<const D: usize>(&mut self, id: &ParamId, tensor: &Tensor<B, D>) {
        if let Some(gradient) = tensor.grad_remove(self.gradients) {
            self.collected.register::<B::InnerBackend, D>(id.clone(), gradient);
        }
    }
}

fn collect<B: ADBackend, M: Module<B>>(gradients: &mut B::Gradients, module: &M) -> GradientsParams {
    let mut visitor = Collect::<B> { gradients, collected: GradientsParams::new() };
    module.visit(&mut visitor);
    visitor.collected
}

#[test]
fn training_on_blank_images_starts_near_the_uniform_loss() {
    let samples = 256usize;
    let model = config().init();
    let labels = vec![0i64; samples];
    let plan = digit_cnn::dataset::prepare(
        config(),
        TrainingConfig { epochs: 1, batch_size: 128 },
        samples * 784,
        &labels,
    )
    .ok()
    .unwrap();
    assert_eq!(plan.model, model);
    let mut trainer: Trainer = plan.trainer;
    let images = Tensor::<CpuTraining, 4>::zeros(plan.dataset.dims());
    let targets = Tensor::<CpuTraining, 1, Int>::from_data(
        Data::new(labels.clone(), RuntimeShape::new([samples])).convert(),
    );
    let mut parameters = parameters::<CpuTraining>(&model);
    let adam = AdamConfig::new().with_weight_decay(Some(WeightDecayConfig::new(1.0e-6)));
    let mut conv_optimizer = adam.init::<CpuTraining, Vec<RuntimeConv2d<CpuTraining>>>();
    let mut linear_optimizer = adam.init::<CpuTraining, Vec<RuntimeLinear<CpuTraining>>>();
    let loss_fn = CrossEntropyLoss::<CpuTraining>::new(None);
    let layers = model.pipeline(Mode::Train);
    let mut losses: Vec<f32> = Vec::new();
    loop {
        match trainer.step() {
            Action::Continue => {}
            Action::Stop => break,
            Action::RunBatch(batch) => {
                let shape = batch.image_shape().unwrap();
                let batch_labels = batch.labels(&labels).unwrap();
                let expected = model.forward_classification(shape, &batch_labels).unwrap();
                let x = images.clone().slice([batch.start..batch.end]);
                let y = targets.clone().slice([batch.start..batch.end]);
                assert_eq!(x.dims(), shape.dims());
                assert_eq!(y.dims(), [expected.targets]);
                let logits = run(&parameters, &layers, x);
                assert_eq!(logits.dims(), expected.output.dims());
                let loss = loss_fn.forward(logits, y);
                assert_eq!(loss.dims(), [expected.loss]);
                losses.push(loss.clone().into_scalar());
                let before = parameters.linears[1].weight.val().to_data().value;
                let mut gradients = loss.backward();
                let conv_gradients = collect(&mut gradients, &parameters.convs);
                let linear_gradients = collect(&mut gradients, &parameters.linears);
                assert_eq!(conv_gradients.len() + linear_gradients.len(), 8);
                parameters.convs = conv_optimizer.step(1.0e-5, parameters.convs, conv_gradients);
                parameters.linears =
                    linear_optimizer.step(1.0e-5, parameters.linears, linear_gradients);
                let after = parameters.linears[1].weight.val().to_data().value;
                assert_ne!(before, after);
            }
        }
    }
    assert_eq!(losses.len(), 2);
    assert_eq!(trainer.state().completed, 2);
    let uniform = (10.0f32).ln();
    assert!((losses[0] - uniform).abs() < 0.5, "{}", losses[0]);
    for loss in losses {
        assert!(loss.is_finite() && loss > 0.0, "{}", loss);
    }
}

#[test]
fn a_dataset_smaller_than_a_batch_trains_nothing() {
    let samples = 256usize;
    let labels = vec![0i64; samples];
    let plan = digit_cnn::dataset::prepare(
        config(),
        TrainingConfig { epochs: 1, batch_size: 300 },
        samples * 784,
        &labels,
    )
    .ok()
    .unwrap();
    let mut trainer = plan.trainer;
    let mut optimizer_steps = 0usize;
    loop {
        match trainer.step() {
            Action::Continue => {}
            Action::Stop => break,
            Action::RunBatch(_) => optimizer_steps += 1,
        }
    }
    assert_eq!(optimizer_steps, 0);
    assert!(trainer.is_done());
    assert_eq!(trainer.state().completed, 0);
}
