use bellande::data::augmentation::{flip, Augmentation, Compose, RandomHorizontalFlip};
use bellande::data::bit_reader::BitReader;
use bellande::data::dataloader::{collate_batch, head, positions, DataLoader};
use bellande::data::image_folder::{detect_image_format, rgb_to_tensor, ImageFormat, RGBPixel};
use bellande::device::Device;
use bellande::dtype::DataType;
use bellande::error::{forward_not_called, BellandeError};
use bellande::scalar::{RandomSource, Scalar};
use bellande::tensor::Tensor;
use bellande::training::checkpoint::{CheckpointMode, ModelCheckpoint, SaveFormat};
use bellande::training::history::TrainingHistory;
use bellande::training::trainer::RunningMetrics;
use bellande::training::validator::CallbackEvent;
use bellande::utilities::config::{
    Configuration, DataConfig, ModelConfig, OptimizerConfig, SystemConfig,
};

#[derive(Clone, Copy, Debug, PartialEq)]
struct F(f32);

impl Scalar for F {
    fn zero_spec() -> Self {
        F(0.0)
    }
    fn one_spec() -> Self {
        F(1.0)
    }
    fn lowest_spec() -> Self {
        F(f32::NEG_INFINITY)
    }
    fn highest_spec() -> Self {
        F(f32::INFINITY)
    }
    fn count_spec(n: usize) -> Self {
        F(n as f32)
    }
    fn plus_spec(self, rhs: Self) -> Self {
        F(self.0 + rhs.0)
    }
    fn minus_spec(self, rhs: Self) -> Self {
        F(self.0 - rhs.0)
    }
    fn times_spec(self, rhs: Self) -> Self {
        F(self.0 * rhs.0)
    }
    fn over_spec(self, rhs: Self) -> Self {
        F(self.0 / rhs.0)
    }
    fn root_spec(self) -> Self {
        F(self.0.sqrt())
    }
    fn exceeds_spec(self, rhs: Self) -> bool {
        self.0 > rhs.0
    }
    fn equals_spec(self, rhs: Self) -> bool {
        self.0 == rhs.0
    }
    fn zero() -> Self {
        F(0.0)
    }
    fn one() -> Self {
        F(1.0)
    }
    fn lowest() -> Self {
        F(f32::NEG_INFINITY)
    }
    fn highest() -> Self {
        F(f32::INFINITY)
    }
    fn count(n: usize) -> Self {
        F(n as f32)
    }
    fn plus(self, rhs: Self) -> Self {
        F(self.0 + rhs.0)
    }
    fn minus(self, rhs: Self) -> Self {
        F(self.0 - rhs.0)
    }
    fn times(self, rhs: Self) -> Self {
        F(self.0 * rhs.0)
    }
    fn over(self, rhs: Self) -> Self {
        F(self.0 / rhs.0)
    }
    fn root(self) -> Self {
        F(self.0.sqrt())
    }
    fn exceeds(self, rhs: Self) -> bool {
        self.0 > rhs.0
    }
    fn equals(self, rhs: Self) -> bool {
        self.0 == rhs.0
    }
}

fn tensor(values: &[f32], shape: &[usize]) -> Tensor<F> {
    Tensor::try_new(
        values.iter().map(|v| F(*v)).collect(),
        shape.to_vec(),
        false,
        Device::CPU,
        DataType::Float32,
    )
    .unwrap()
}

fn values(t: &Tensor<F>) -> Vec<f32> {
    t.data.iter().map(|v| v.0).collect()
}

fn close(a: &[f32], b: &[f32], tolerance: f32) -> bool {
    a.len() == b.len() && a.iter().zip(b.iter()).all(|(x, y)| (x - y).abs() <= tolerance)
}

/// A source that replays fixed draws.
struct Fixed {
    normals: Vec<f32>,
    keeps: Vec<bool>,
    next_normal: usize,
    next_keep: usize,
}

impl Fixed {
    fn new(normals: &[f32], keeps: &[bool]) -> Self {
        Fixed { normals: normals.to_vec(), keeps: keeps.to_vec(), next_normal: 0, next_keep: 0 }
    }
}

impl RandomSource<F> for Fixed {
    fn standard_normal(&mut self) -> F {
        let v = if self.normals.is_empty() {
            0.0
        } else {
            self.normals[self.next_normal % self.normals.len()]
        };
        self.next_normal += 1;
        F(v)
    }

    fn keep(&mut self, _p: F) -> bool {
        let v = if self.keeps.is_empty() {
            true
        } else {
            self.keeps[self.next_keep % self.keeps.len()]
        };
        self.next_keep += 1;
        v
    }
}

#[test]
fn devices_are_told_apart() {
    assert!(Device::CPU.is_cpu() && !Device::CPU.is_cuda());
    assert!(Device::CUDA(1).is_cuda() && !Device::CUDA(1).is_cpu());
    assert_eq!(Device::cuda_device_count(), 0);
    assert_eq!(Device::default(), Device::CPU);
    assert_eq!(<Device as Default>::default(), Device::CPU);
}

#[test]
fn device_specifications_are_parsed() {
    assert_eq!(Device::from("cpu"), Ok(Device::CPU));
    assert_eq!(Device::from("CPU"), Ok(Device::CPU));
    assert_eq!(Device::from("Cpu"), Ok(Device::CPU));
    assert_eq!(Device::from("cuda"), Ok(Device::CUDA(0)));
    assert_eq!(Device::from("CUDA"), Ok(Device::CUDA(0)));
    assert_eq!(Device::from("cuda:0"), Err(BellandeError::DeviceNotAvailable));
    assert_eq!(Device::from("Cuda:12"), Err(BellandeError::DeviceNotAvailable));
    assert_eq!(Device::from("cuda:+3"), Err(BellandeError::DeviceNotAvailable));
    assert_eq!(Device::from("cudax:1"), Err(BellandeError::DeviceNotAvailable));
    assert_eq!(Device::from_str("cuda:"), Err(BellandeError::InvalidDevice));
    assert_eq!(Device::from_str("cuda:x"), Err(BellandeError::InvalidDevice));
    assert_eq!(Device::from_str("cuda:-1"), Err(BellandeError::InvalidDevice));
    assert_eq!(Device::from_str("cuda:+"), Err(BellandeError::InvalidDevice));
    assert_eq!(Device::from_str("cuda:1:2"), Err(BellandeError::InvalidDevice));
    assert_eq!(Device::from_str("cudax"), Err(BellandeError::InvalidDevice));
    assert_eq!(
        Device::from_str("cuda:99999999999999999999999999"),
        Err(BellandeError::InvalidDevice)
    );
    assert_eq!(Device::from_str("gpu"), Err(BellandeError::InvalidDevice));
    assert_eq!(Device::from_str(""), Err(BellandeError::InvalidDevice));
    assert_eq!(Device::from_str("cpu "), Err(BellandeError::InvalidDevice));
    assert_eq!(Device::parse_lowercase("CPU"), Err(BellandeError::InvalidDevice));
    assert_eq!(Device::parse_lowercase("cpu"), Ok(Device::CPU));
}

#[test]
fn data_types_have_sizes() {
    assert_eq!(DataType::Float32.size_in_bytes(), 4);
    assert_eq!(DataType::Float64.size_in_bytes(), 8);
    assert_eq!(DataType::Int32.size_in_bytes(), 4);
    assert_eq!(DataType::Int64.size_in_bytes(), 8);
    assert_eq!(DataType::default(), DataType::Float32);
}

#[test]
fn errors_have_messages() {
    assert_eq!(BellandeError::NoGradients.message(), "Gradients not enabled for this tensor");
    assert_eq!(
        BellandeError::InvalidShape("rank".to_string()).message(),
        "Invalid tensor shape: rank"
    );
    assert_eq!(BellandeError::DimensionMismatch.message(), "Tensor dimensions do not match");
    assert_eq!(BellandeError::InvalidBackward.message(), "Invalid backward call");
    assert_eq!(BellandeError::DeviceNotAvailable.message(), "Requested device not available");
    assert_eq!(BellandeError::InvalidDevice.message(), "Invalid device specification");
    assert_eq!(BellandeError::SerializationError.message(), "Serialization error");
    assert_eq!(BellandeError::InvalidDataType.message(), "Invalid data type");
    assert_eq!(BellandeError::InvalidInputs.message(), "Invalid number of inputs");
    assert_eq!(BellandeError::CUDAError("x".to_string()).message(), "CUDA error: x");
    assert_eq!(BellandeError::IOError("x".to_string()).message(), "IO error: x");
    assert_eq!(BellandeError::RuntimeError("x".to_string()).message(), "Runtime error: x");
    assert_eq!(BellandeError::ImageError("x".to_string()).message(), "Image error: x");
    assert_eq!(BellandeError::InvalidOperation("x".to_string()).message(), "Invalid operation: x");
    assert_eq!(
        BellandeError::InvalidConfiguration("x".to_string()).message(),
        "Invalid configuration: x"
    );
    assert_eq!(BellandeError::NotImplemented("x".to_string()).message(), "Not implemented: x");
    assert_eq!(BellandeError::EarlyStopping("x".to_string()).message(), "Early stopping: x");
    assert_eq!(BellandeError::ShapeMismatch("x".to_string()).message(), "Shape mismatch: x");
    assert_eq!(BellandeError::InvalidParameter("x".to_string()).message(), "Invalid parameter: x");
    assert_eq!(forward_not_called().message(), "Runtime error: Forward pass not called");
}

#[test]
fn bits_are_read_most_significant_first() {
    let mut reader = BitReader::new(vec![0b1010_0001, 0xFF]);
    assert_eq!(reader.read_bit(), Ok(true));
    assert_eq!(reader.read_bit(), Ok(false));
    assert_eq!(reader.read_bits(3), Ok(0b100));
    assert_eq!(reader.read_bits(5), Ok(0b00111));
    assert_eq!(reader.read_bits(0), Ok(0));
    assert_eq!(reader.read_bits(6), Ok(0b111111));
    match reader.read_bit() {
        Err(BellandeError::IOError(m)) => assert_eq!(m, "failed to fill whole buffer"),
        _ => panic!("expected the end of the stream"),
    }
}

#[test]
fn reading_past_the_end_consumes_what_is_left() {
    let mut reader = BitReader::new(vec![0xF0]);
    assert!(matches!(reader.read_bits(9), Err(BellandeError::IOError(_))));
    assert!(matches!(reader.read_bit(), Err(BellandeError::IOError(_))));
    let mut empty = BitReader::new(vec![]);
    assert!(matches!(empty.read_bit(), Err(BellandeError::IOError(_))));
    assert_eq!(empty.read_bits(0), Ok(0));
}

#[test]
fn long_reads_keep_the_last_thirty_two_bits() {
    let mut reader = BitReader::new(vec![0xAB, 0x01, 0x02, 0x03, 0x04]);
    assert_eq!(reader.read_bits(40), Ok(0x01020304));
}

fn configuration() -> Configuration<F> {
    Configuration {
        batch_size: 32,
        epochs: 10,
        learning_rate: F(0.01),
        optimizer: OptimizerConfig {
            name: "sgd".to_string(),
            momentum: Some(F(0.9)),
            beta1: None,
            beta2: None,
            weight_decay: None,
        },
        model: ModelConfig {
            architecture: "mlp".to_string(),
            input_shape: vec![784],
            num_classes: 10,
            hidden_layers: vec![128],
            dropout_rate: None,
        },
        data: DataConfig {
            train_path: "data/train".to_string(),
            val_path: None,
            test_path: None,
            augmentation: false,
            normalize: true,
        },
        system: SystemConfig {
            num_workers: 1,
            device: "cpu".to_string(),
            precision: "float32".to_string(),
            seed: Some(7),
        },
        parameters: vec![],
    }
}

#[test]
fn configurations_are_validated_in_order() {
    let good = configuration();
    assert_eq!(good.validate(true), Ok(()));
    assert_eq!(good.validate(false), Err("Training data path does not exist".to_string()));
    let mut c = configuration();
    c.model.input_shape.clear();
    assert_eq!(c.validate(false), Err("Input shape cannot be empty".to_string()));
    c.learning_rate = F(0.0);
    assert_eq!(c.validate(true), Err("Learning rate must be positive".to_string()));
    c.learning_rate = F(-1.0);
    assert_eq!(c.validate(true), Err("Learning rate must be positive".to_string()));
    c.batch_size = 0;
    assert_eq!(c.validate(true), Err("Batch size must be greater than 0".to_string()));
}

#[test]
fn checkpoints_follow_the_monitored_value() {
    let mut c: ModelCheckpoint<F> = ModelCheckpoint::new(
        "model_{epoch}".to_string(),
        "val_loss".to_string(),
        true,
        false,
        CheckpointMode::Min,
    );
    assert_eq!(c.best_value, F(f32::INFINITY));
    assert_eq!(c.save_format, SaveFormat::Binary);
    assert!(c.verbose);
    assert!(c.is_better(F(1.0)));
    assert!(c.observe(F(1.0)));
    assert_eq!(c.best_value, F(1.0));
    assert!(!c.observe(F(1.0)));
    assert!(!c.observe(F(2.0)));
    assert_eq!(c.best_value, F(1.0));
    assert!(c.observe(F(0.5)));
    assert_eq!(c.best_value, F(0.5));
    let mut high: ModelCheckpoint<F> =
        ModelCheckpoint::new(String::new(), String::new(), true, true, CheckpointMode::Max)
            .with_save_format(SaveFormat::Json)
            .with_verbose(false);
    assert_eq!(high.best_value, F(f32::NEG_INFINITY));
    assert_eq!(high.save_format, SaveFormat::Json);
    assert!(!high.verbose);
    assert!(high.observe(F(0.1)) && !high.observe(F(0.05)) && high.observe(F(0.2)));
    let mut always: ModelCheckpoint<F> =
        ModelCheckpoint::new(String::new(), String::new(), false, true, CheckpointMode::Min);
    assert!(always.observe(F(1.0)) && always.observe(F(5.0)));
    assert_eq!(always.best_value, F(5.0));
}

#[test]
fn stale_checkpoints_are_all_but_the_best() {
    let low: ModelCheckpoint<F> =
        ModelCheckpoint::new(String::new(), String::new(), true, true, CheckpointMode::Min);
    let losses = vec![F(0.5), F(0.2), F(0.9), F(0.2), F(0.1)];
    assert_eq!(low.stale(&losses, 2), vec![0, 2, 3]);
    assert_eq!(low.stale(&losses, 0), vec![0, 1, 2, 3, 4]);
    assert_eq!(low.stale(&losses, 5), Vec::<usize>::new());
    let high: ModelCheckpoint<F> =
        ModelCheckpoint::new(String::new(), String::new(), true, true, CheckpointMode::Max);
    assert_eq!(high.stale(&losses, 2), vec![1, 3, 4]);
}

#[test]
fn running_metrics_average() {
    let mut m: RunningMetrics<F> = RunningMetrics::new();
    m.update("loss", F(1.0));
    m.update("accuracy", F(0.5));
    m.update("loss", F(3.0));
    assert_eq!(
        m.get_average(),
        vec![("loss".to_string(), F(2.0)), ("accuracy".to_string(), F(0.5))]
    );
    assert_eq!(m.get_current(), m.get_average());
    assert_eq!(m.metrics[0].count, 2);
}

#[test]
fn history_records_series() {
    let mut h: TrainingHistory<F> = TrainingHistory::new();
    h.update(0, &vec![("loss".to_string(), F(1.0)), ("accuracy".to_string(), F(0.5))]);
    h.update(1, &vec![("loss".to_string(), F(0.5))]);
    assert_eq!(h.epochs, vec![0, 1]);
    assert_eq!(h.get_metric_history("loss"), Some(&vec![F(1.0), F(0.5)]));
    assert_eq!(h.get_metric_history("accuracy"), Some(&vec![F(0.5)]));
    assert_eq!(h.get_metric_history("other"), None);
}

#[test]
fn callback_events_are_distinct() {
    let all = [
        CallbackEvent::TrainBegin,
        CallbackEvent::TrainEnd,
        CallbackEvent::EpochBegin,
        CallbackEvent::EpochEnd,
        CallbackEvent::BatchBegin,
        CallbackEvent::BatchEnd,
    ];
    for (i, a) in all.iter().enumerate() {
        for (j, b) in all.iter().enumerate() {
            assert_eq!(a == b, i == j);
        }
    }
}

#[test]
fn batches_in_order() {
    let loader = DataLoader::new(7, 3, false, 1, false);
    let mut it = loader.iter();
    assert_eq!(it.next_indices(), Some(vec![0, 1, 2]));
    assert_eq!(it.next_indices(), Some(vec![3, 4, 5]));
    assert_eq!(it.next_indices(), Some(vec![6]));
    assert_eq!(it.next_indices(), None);
    assert_eq!(it.index, 9);
    let mut none = DataLoader::new(0, 3, false, 1, false).iter();
    assert_eq!(none.next_indices(), None);
    let mut stuck = DataLoader::new(5, 0, false, 1, false).iter();
    assert_eq!(stuck.next_indices(), None);
    assert_eq!(positions(2, 5), vec![2, 3, 4]);
    assert_eq!(positions(5, 2), Vec::<usize>::new());
    assert_eq!(head(&vec![4, 5, 6], 2), vec![4, 5]);
    assert_eq!(head(&vec![4, 5, 6], 9), vec![4, 5, 6]);
}

#[test]
fn shuffled_batches_hold_distinct_positions() {
    let loader = DataLoader::new(50, 50, true, 1, false);
    let mut moved = false;
    for _ in 0..8 {
        let mut it = loader.iter();
        let batch = it.next_indices().unwrap();
        let mut sorted = batch.clone();
        sorted.sort();
        assert_eq!(sorted, (0..50).collect::<Vec<usize>>());
        moved = moved || batch != sorted;
        assert_eq!(it.next_indices(), None);
    }
    assert!(moved);
    let mut short = DataLoader::new(10, 4, true, 1, false).iter();
    let batch = short.next_indices().unwrap();
    assert_eq!(batch.len(), 4);
    assert!(batch.iter().all(|i| *i < 10));
    let mut long = DataLoader::new(3, 8, true, 1, false).iter();
    assert_eq!(long.next_indices().unwrap().len(), 3);
}

#[test]
fn images_are_mirrored_left_to_right() {
    let data: Vec<F> = (0..12).map(|v| F(v as f32)).collect();
    let out: Vec<f32> = flip(&data, 2, 2, 3).iter().map(|v| v.0).collect();
    assert_eq!(out, vec![2.0, 1.0, 0.0, 5.0, 4.0, 3.0, 8.0, 7.0, 6.0, 11.0, 10.0, 9.0]);
    let f = RandomHorizontalFlip::new(F(0.5));
    let mut keep = Fixed::new(&[], &[true]);
    assert_eq!(f.apply(&data, 2, 2, 3, &mut keep), data);
    let mut turn = Fixed::new(&[], &[false]);
    assert_eq!(f.apply(&data, 2, 2, 3, &mut turn), flip(&data, 2, 2, 3));
    let twice = Compose::new(vec![
        Augmentation::RandomHorizontalFlip(RandomHorizontalFlip::new(F(1.0))),
        Augmentation::RandomHorizontalFlip(RandomHorizontalFlip::new(F(1.0))),
    ]);
    assert_eq!(twice.apply(&data, 2, 2, 3, &mut turn), data);
    assert_eq!(Compose::new(vec![]).apply(&data, 2, 2, 3, &mut turn), data);
}

#[test]
fn image_formats_are_detected() {
    assert_eq!(detect_image_format(&vec![0xFF, 0xD8, 0xFF, 0xE0]), ImageFormat::JPEG);
    assert_eq!(detect_image_format(&vec![0x89, 0x50, 0x4E, 0x47, 0x0D]), ImageFormat::PNG);
    assert_eq!(detect_image_format(&vec![0xFF, 0xD8, 0xFF]), ImageFormat::Unknown);
    assert_eq!(detect_image_format(&vec![0x89, 0x50, 0x4E, 0x48]), ImageFormat::Unknown);
    assert_eq!(detect_image_format(&vec![]), ImageFormat::Unknown);
}

#[test]
fn pixels_become_planes() {
    let pixels = vec![RGBPixel { r: 255, g: 0, b: 51 }, RGBPixel { r: 0, g: 102, b: 204 }];
    let t: Tensor<F> = rgb_to_tensor(&pixels, 2, 1).unwrap();
    assert_eq!(t.shape, vec![1, 3, 1, 2]);
    assert_eq!(values(&t), vec![1.0, 0.0, 0.0, 0.4, 0.2, 0.8]);
    match rgb_to_tensor::<F>(&pixels, 2, 2) {
        Err(BellandeError::ImageError(m)) => assert_eq!(m, "Invalid pixel buffer size"),
        _ => panic!("expected an image error"),
    }
}

#[test]
fn devices_are_named() {
    assert_eq!(Device::CPU.to_text(), "cpu");
    assert_eq!(Device::CUDA(0).to_text(), "cuda:0");
    assert_eq!(Device::CUDA(7).to_text(), "cuda:7");
    assert_eq!(Device::CUDA(10).to_text(), "cuda:10");
    assert_eq!(Device::CUDA(1234567890).to_text(), "cuda:1234567890");
    assert_eq!(Device::CUDA(usize::MAX).to_text(), format!("cuda:{}", usize::MAX));
    assert_eq!(Device::from_str(&Device::CPU.to_text()), Ok(Device::CPU));
    assert_eq!(
        Device::from_str(&Device::CUDA(3).to_text()),
        Err(BellandeError::DeviceNotAvailable)
    );
}

#[test]
fn incomplete_batches_are_dropped_where_asked() {
    let mut kept = DataLoader::new(10, 4, false, 1, false).iter();
    assert_eq!(kept.next_indices(), Some(vec![0, 1, 2, 3]));
    assert_eq!(kept.next_indices(), Some(vec![4, 5, 6, 7]));
    assert_eq!(kept.next_indices(), Some(vec![8, 9]));
    assert_eq!(kept.next_indices(), None);
    let mut dropped = DataLoader::new(10, 4, false, 1, true).iter();
    assert_eq!(dropped.next_indices(), Some(vec![0, 1, 2, 3]));
    assert_eq!(dropped.next_indices(), Some(vec![4, 5, 6, 7]));
    assert_eq!(dropped.next_indices(), None);
    assert_eq!(dropped.index, 8);
    let mut exact = DataLoader::new(8, 4, false, 1, true).iter();
    assert_eq!(exact.next_indices(), Some(vec![0, 1, 2, 3]));
    assert_eq!(exact.next_indices(), Some(vec![4, 5, 6, 7]));
    assert_eq!(exact.next_indices(), None);
    let mut small = DataLoader::new(3, 8, true, 1, true).iter();
    assert_eq!(small.next_indices(), None);
    let mut drawn = DataLoader::new(9, 4, true, 1, true).iter();
    assert_eq!(drawn.next_indices().unwrap().len(), 4);
}

#[test]
fn samples_are_stacked_into_batches() {
    let sample = |v: f32, class: f32| (tensor(&[v, v + 1.0, v + 2.0, v + 3.0], &[1, 2, 2]), tensor(&[class], &[1]));
    let batch = vec![sample(0.0, 2.0), sample(10.0, 0.0), sample(20.0, 1.0)];
    let (inputs, targets) = collate_batch(&batch).unwrap();
    assert_eq!(inputs.shape, vec![3, 2, 2]);
    assert_eq!(
        values(&inputs),
        vec![0.0, 1.0, 2.0, 3.0, 10.0, 11.0, 12.0, 13.0, 20.0, 21.0, 22.0, 23.0]
    );
    assert_eq!(targets.shape, vec![3]);
    assert_eq!(values(&targets), vec![2.0, 0.0, 1.0]);
    assert!(!inputs.requires_grad && inputs.grad.is_none());
    assert!(inputs.is_wf() && targets.is_wf());

    let plain = vec![(tensor(&[1.0, 2.0], &[2]), tensor(&[0.5, 0.5], &[2, 1]))];
    let (inputs, targets) = collate_batch(&plain).unwrap();
    assert_eq!(inputs.shape, vec![1, 2]);
    assert_eq!(targets.shape, vec![1, 2, 1]);
    assert_eq!(values(&targets), vec![0.5, 0.5]);
}

#[test]
fn batches_that_cannot_be_stacked_are_refused() {
    let empty: Vec<(Tensor<F>, Tensor<F>)> = vec![];
    assert_eq!(collate_batch(&empty).unwrap_err(), BellandeError::InvalidInputs);
    let inputs_differ = vec![
        (tensor(&[1.0, 2.0], &[2]), tensor(&[0.0], &[1])),
        (tensor(&[1.0, 2.0], &[1, 2]), tensor(&[0.0], &[1])),
    ];
    assert_eq!(collate_batch(&inputs_differ).unwrap_err(), BellandeError::DimensionMismatch);
    let targets_differ = vec![
        (tensor(&[1.0, 2.0], &[2]), tensor(&[0.0], &[1])),
        (tensor(&[1.0, 2.0], &[2]), tensor(&[0.0, 1.0], &[2])),
    ];
    assert_eq!(collate_batch(&targets_differ).unwrap_err(), BellandeError::DimensionMismatch);
}
