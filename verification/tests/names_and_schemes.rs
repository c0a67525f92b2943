//! Tests of name composition under descent and of the scheme tables
//! against candle's own dtype geometry.

use candle_core::quantized::{gguf_file, GgmlDType, QTensor};
use candle_core::{Device, Tensor};
use quantized_var_builder::{Scheme, VarBuilder};

fn empty_container() -> VarBuilder {
    let vals: Vec<f32> = (0..4).map(|i| i as f32).collect();
    let t = Tensor::from_vec(vals, (2, 2), &Device::Cpu).unwrap();
    let q = QTensor::quantize(&t, GgmlDType::F32).unwrap();
    let mut cursor = std::io::Cursor::new(Vec::new());
    gguf_file::write(&mut cursor, &[], &[("w", &q)]).unwrap();
    VarBuilder::from_gguf(cursor.into_inner(), &Device::Cpu).unwrap()
}

#[test]
fn compose_name_is_associative_under_descent() {
    let root = empty_container();
    let two_steps = root.pp("a").pp("b").path("c");
    let one_step = root.pp("a").path("b.c");
    let no_step = root.path("a.b.c");
    assert_eq!(two_steps, "a.b.c");
    assert_eq!(one_step, two_steps);
    assert_eq!(no_step, two_steps);
    // The same holds under a non-empty base scope.
    let base = root.pp("layer").pp("0");
    assert_eq!(base.pp("a").pp("b").path("c"), "layer.0.a.b.c");
    assert_eq!(base.pp("a").path("b.c"), "layer.0.a.b.c");
    assert_eq!(base.path("a.b.c"), "layer.0.a.b.c");
}

#[test]
fn empty_path_composes_the_leaf_alone() {
    let root = empty_container();
    assert_eq!(root.path("weight"), "weight");
    assert_eq!(root.pp("block").path("weight"), "block.weight");
}

#[test]
fn scheme_tables_match_the_decoder() {
    let pairs = [
        (GgmlDType::F32, Scheme::F32),
        (GgmlDType::F16, Scheme::F16),
        (GgmlDType::BF16, Scheme::BF16),
        (GgmlDType::Q4_0, Scheme::Q4_0),
        (GgmlDType::Q4_1, Scheme::Q4_1),
        (GgmlDType::Q5_0, Scheme::Q5_0),
        (GgmlDType::Q5_1, Scheme::Q5_1),
        (GgmlDType::Q8_0, Scheme::Q8_0),
        (GgmlDType::Q8_1, Scheme::Q8_1),
        (GgmlDType::Q2K, Scheme::Q2K),
        (GgmlDType::Q3K, Scheme::Q3K),
        (GgmlDType::Q4K, Scheme::Q4K),
        (GgmlDType::Q5K, Scheme::Q5K),
        (GgmlDType::Q6K, Scheme::Q6K),
        (GgmlDType::Q8K, Scheme::Q8K),
    ];
    for (d, s) in pairs {
        assert_eq!(Scheme::from_code(d as u32), Some(s));
        assert_eq!(s.code(), d as u32);
        assert_eq!(s.block_size(), d.block_size());
        assert_eq!(s.type_size(), d.type_size());
    }
    assert_eq!(Scheme::from_code(15), None);
    assert_eq!(Scheme::from_code(99), None);
}
