use binary_visualizer::ml::{Dataset, FileType, Sample, DEFAULT_MIN_ACCURACY, EPOCHS, N_OUTPUT};
use binary_visualizer::net::{train, Network, TensorSet, N_HIDDEN_1, N_INPUT};
use binary_visualizer::table::{BinaryTable, LogRatio};
use candle_core::{DType, Device, Tensor, Var};
use candle_nn::{Linear, Optimizer, VarBuilder, VarMap};

fn feature_value(r: &LogRatio) -> f32 {
    if r.is_zero() {
        0.0
    } else {
        (r.count as f32).ln() / (r.max as f32).ln()
    }
}

fn input_of(bytes: &[u8]) -> Tensor {
    let mut table = BinaryTable::new();
    table.parse(bytes);
    let values: Vec<f32> = table.export().iter().map(feature_value).collect();
    Tensor::from_vec(values, (1, N_INPUT), &Device::Cpu).unwrap()
}

// The full-size hidden layer takes too long to initialise in an unoptimised test build,
// so the tests that train or save a network use a narrower one of the same shape.
fn network(vs: VarBuilder, n_in: usize, hidden: usize) -> Network {
    let ln1 = candle_nn::linear(n_in, hidden, vs.pp("ln1")).unwrap();
    let ln2 = candle_nn::linear(hidden, N_OUTPUT, vs.pp("ln2")).unwrap();
    Network { ln1, ln2 }
}

fn constant_network(out_bias: &[f32]) -> Network {
    let dev = Device::Cpu;
    let w1 = Tensor::zeros((N_HIDDEN_1, N_INPUT), DType::F32, &dev).unwrap();
    let b1 = Tensor::zeros(N_HIDDEN_1, DType::F32, &dev).unwrap();
    let w2 = Tensor::zeros((N_OUTPUT, N_HIDDEN_1), DType::F32, &dev).unwrap();
    let b2 = Tensor::from_vec(out_bias.to_vec(), N_OUTPUT, &dev).unwrap();
    Network { ln1: Linear::new(w1, Some(b1)), ln2: Linear::new(w2, Some(b2)) }
}

fn pack(samples: &[Sample]) -> (Tensor, Tensor) {
    let mut inputs = Vec::new();
    let mut outputs = Vec::new();
    for s in samples {
        inputs.extend(s.features.iter().map(feature_value));
        outputs.push(s.file_type.output());
    }
    let n = samples.len();
    (
        Tensor::from_vec(inputs, (n, N_INPUT), &Device::Cpu).unwrap(),
        Tensor::from_vec(outputs, n, &Device::Cpu).unwrap(),
    )
}

#[test]
fn equal_logits_predict_lowest_class() {
    let net = constant_network(&[0.0; 5]);
    assert_eq!(net.predict(&input_of(b"anything at all")).unwrap(), 0);
    let net = constant_network(&[0.0, 0.0, 1.5, 1.5, 0.0]);
    assert_eq!(net.predict(&input_of(b"anything at all")).unwrap(), 2);
}

#[test]
fn largest_logit_wins() {
    let net = constant_network(&[0.0, -1.0, 0.5, 0.25, 3.0]);
    let class = net.predict(&input_of(b"\x00\x01")).unwrap();
    assert_eq!(class, 4);
    assert_eq!(FileType::from_prediction(class), Some(FileType::Wav));
}

#[test]
fn checkpoint_round_trip_keeps_predictions() {
    let dev = Device::Cpu;
    let path = "/tmp/binary_visualizer_round_trip.safetensors";
    let varmap = VarMap::new();
    let first = network(VarBuilder::from_varmap(&varmap, DType::F32, &dev), 16, 8);
    let values: Vec<f32> = (0..16).map(|i| i as f32 / 16.0).collect();
    let probe = Tensor::from_vec(values, (1, 16), &dev).unwrap();
    let before = first.forward(&probe).ok().unwrap().to_vec2::<f32>().unwrap();
    let class = first.predict(&probe).unwrap();
    varmap.save(path).unwrap();

    let mut restored_map = VarMap::new();
    let second = network(VarBuilder::from_varmap(&restored_map, DType::F32, &dev), 16, 8);
    restored_map.load(path).unwrap();
    let after = second.forward(&probe).ok().unwrap().to_vec2::<f32>().unwrap();
    assert_eq!(before, after);
    assert_eq!(second.predict(&probe).unwrap(), class);
}

fn text_file(i: usize) -> Vec<u8> {
    format!("This is plain text file number {i}. It holds ordinary words and sentences, nothing else. ")
        .repeat(3)
        .into_bytes()
}

fn binary_file(i: usize) -> Vec<u8> {
    let mut out = Vec::new();
    for k in 0..256u32 {
        out.extend_from_slice(&[
            0x00, 0x00, 0x00, 0xff, 0x48, 0x89, 0xe5, 0x8b, 0x45, 0xfc, 0x0f, 0x1f, 0x40, 0x00,
            0xc3, 0x90,
        ]);
        out.push(i as u8);
        out.push((k * 7) as u8);
    }
    out
}

/// A fixed pseudo-random value in `[-1, 1)` for weight `(row, col)`.
fn spread(row: usize, col: usize) -> f32 {
    let h = ((row as u64 * 65536 + col as u64).wrapping_mul(2654435761)) % (1u64 << 32);
    (h as f64 / (1u64 << 32) as f64 * 2.0 - 1.0) as f32
}

/// A network of hidden width `hidden` with fixed small weights and zero biases, whose
/// parameters are the returned variables, so that training does not depend on chance.
fn seeded_network(hidden: usize) -> (Network, Vec<Var>) {
    let dev = Device::Cpu;
    let w1: Vec<f32> =
        (0..hidden * N_INPUT).map(|k| spread(k / N_INPUT, k % N_INPUT) * 0.05).collect();
    let w2: Vec<f32> =
        (0..N_OUTPUT * hidden).map(|k| spread(100 + k / hidden, k % hidden) * 0.25).collect();
    let w1 = Var::from_tensor(&Tensor::from_vec(w1, (hidden, N_INPUT), &dev).unwrap()).unwrap();
    let b1 = Var::from_tensor(&Tensor::zeros(hidden, DType::F32, &dev).unwrap()).unwrap();
    let w2 = Var::from_tensor(&Tensor::from_vec(w2, (N_OUTPUT, hidden), &dev).unwrap()).unwrap();
    let b2 = Var::from_tensor(&Tensor::zeros(N_OUTPUT, DType::F32, &dev).unwrap()).unwrap();
    let net = Network {
        ln1: Linear::new(w1.as_tensor().clone(), Some(b1.as_tensor().clone())),
        ln2: Linear::new(w2.as_tensor().clone(), Some(b2.as_tensor().clone())),
    };
    (net, vec![w1, b1, w2, b2])
}

#[test]
fn text_and_binary_corpus_trains_and_predicts_text() {
    let mut files = Vec::new();
    for i in 0..4 {
        files.push((FileType::Text, text_file(i)));
        files.push((FileType::Binary, binary_file(i)));
    }
    let dataset = Dataset::collect(&files).ok().unwrap();
    assert_eq!(dataset.train.len(), 6);
    assert_eq!(dataset.test.len(), 2);
    let (train_inputs, train_outputs) = pack(&dataset.train);
    let (test_inputs, test_outputs) = pack(&dataset.test);
    let data = TensorSet { train_inputs, train_outputs, test_inputs, test_outputs };
    // The full-size hidden layer takes too long in an unoptimised test build.
    let (net, vars) = seeded_network(16);
    let mut sgd = candle_nn::SGD::new(vars, 0.5).unwrap();
    let run = match train(&net, &mut sgd, &data, DEFAULT_MIN_ACCURACY) {
        Ok(run) => run,
        Err(e) => panic!("training failed: {e:?}"),
    };
    assert!(run.epochs_done >= 1 && run.epochs_done <= EPOCHS);
    assert!(run.correct * 100 >= 95 * run.total);
    let class = net.predict(&input_of(&text_file(9))).unwrap();
    assert_eq!(FileType::from_prediction(class), Some(FileType::Text));
}
