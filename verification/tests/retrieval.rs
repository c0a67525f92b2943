//! End-to-end retrieval tests over real GGUF containers, built either with
//! candle's writer or byte by byte.

use candle_core::quantized::{gguf_file, GgmlDType, QTensor};
use candle_core::{Device, Tensor};
use quantized_var_builder::{Error, Scheme, VarBuilder};

fn gguf_bytes(tensors: &[(&str, &QTensor)]) -> Vec<u8> {
    let mut cursor = std::io::Cursor::new(Vec::new());
    gguf_file::write(&mut cursor, &[], tensors).unwrap();
    cursor.into_inner()
}

fn f32_tensor(rows: usize, cols: usize) -> QTensor {
    let vals: Vec<f32> = (0..rows * cols).map(|i| i as f32).collect();
    let t = Tensor::from_vec(vals, (rows, cols), &Device::Cpu).unwrap();
    QTensor::quantize(&t, GgmlDType::F32).unwrap()
}

fn q4_tensor(rows: usize, cols: usize) -> QTensor {
    let vals: Vec<f32> = (0..rows * cols).map(|i| (i % 7) as f32).collect();
    let t = Tensor::from_vec(vals, (rows, cols), &Device::Cpu).unwrap();
    QTensor::quantize(&t, GgmlDType::Q4_0).unwrap()
}

/// A handwritten single-tensor GGUF v2 container; `dims` are in the
/// logical order the header stores them (reversed shape).
fn manual_gguf(name: &str, shape: &[u64], dtype: u32, payload: &[u8]) -> Vec<u8> {
    let mut v = Vec::new();
    v.extend_from_slice(&0x46554747u32.to_le_bytes());
    v.extend_from_slice(&2u32.to_le_bytes());
    v.extend_from_slice(&1u64.to_le_bytes());
    v.extend_from_slice(&0u64.to_le_bytes());
    v.extend_from_slice(&(name.len() as u64).to_le_bytes());
    v.extend_from_slice(name.as_bytes());
    v.extend_from_slice(&(shape.len() as u32).to_le_bytes());
    for &d in shape.iter().rev() {
        v.extend_from_slice(&d.to_le_bytes());
    }
    v.extend_from_slice(&dtype.to_le_bytes());
    v.extend_from_slice(&0u64.to_le_bytes());
    while v.len() % 32 != 0 {
        v.push(0);
    }
    v.extend_from_slice(payload);
    v
}

#[test]
fn load_then_get_every_listed_name() {
    let w = q4_tensor(8, 32);
    let b = f32_tensor(4, 4);
    let data = gguf_bytes(&[("block.0.weight", &w), ("bias", &b)]);
    let vb = VarBuilder::from_gguf(data, &Device::Cpu).unwrap();
    let listed: Vec<(String, Vec<usize>)> = vb
        .tensor_infos()
        .iter()
        .map(|(n, d)| (n.clone(), d.shape.clone()))
        .collect();
    assert_eq!(listed.len(), 2);
    for (name, shape) in listed {
        let t = vb.get(&shape, &name).unwrap();
        assert_eq!(t.shape, shape);
    }
}

#[test]
fn missing_name_fails_with_composed_full_name() {
    let w = f32_tensor(4, 4);
    let data = gguf_bytes(&[("w", &w)]);
    let vb = VarBuilder::from_gguf(data, &Device::Cpu).unwrap();
    match vb.get_no_shape("nope") {
        Err(Error::NotFound { name }) => assert_eq!(name, "nope"),
        other => panic!("expected NotFound, got {:?}", other.map(|t| t.shape)),
    }
    match vb.pp("a").pp("b").get(&[4, 4], "nope") {
        Err(Error::NotFound { name }) => assert_eq!(name, "a.b.nope"),
        other => panic!("expected NotFound, got {:?}", other.map(|t| t.shape)),
    }
}

#[test]
fn wrong_shape_fails_declared_shape_succeeds() {
    let w = q4_tensor(8, 32);
    let data = gguf_bytes(&[("w", &w)]);
    let vb = VarBuilder::from_gguf(data, &Device::Cpu).unwrap();
    match vb.get(&[4, 32], "w") {
        Err(Error::ShapeMismatch { name, found, expected }) => {
            assert_eq!(name, "w");
            assert_eq!(found, vec![8, 32]);
            assert_eq!(expected, vec![4, 32]);
        },
        other => panic!("expected ShapeMismatch, got {:?}", other.map(|t| t.shape)),
    }
    match vb.get(&[8], "w") {
        Err(Error::ShapeMismatch { found, expected, .. }) => {
            assert_eq!(found, vec![8, 32]);
            assert_eq!(expected, vec![8]);
        },
        other => panic!("expected ShapeMismatch, got {:?}", other.map(|t| t.shape)),
    }
    let t = vb.get(&[8, 32], "w").unwrap();
    assert_eq!(t.shape, vec![8, 32]);
    assert_eq!(t.scheme, Scheme::Q4_0);
}

#[test]
fn scenario_scoped_block_weight() {
    let w = q4_tensor(8, 32);
    let data = gguf_bytes(&[("block.0.weight", &w)]);
    let vb = VarBuilder::from_gguf(data, &Device::Cpu).unwrap();
    let scoped = vb.pp("block").pp("0");
    let t = scoped.get(&[8, 32], "weight").unwrap();
    assert_eq!(t.shape, vec![8, 32]);
    assert_eq!(t.scheme, Scheme::Q4_0);
    match scoped.get(&[4, 32], "weight") {
        Err(Error::ShapeMismatch { name, found, expected }) => {
            assert_eq!(name, "block.0.weight");
            assert_eq!(found, vec![8, 32]);
            assert_eq!(expected, vec![4, 32]);
        },
        other => panic!("expected ShapeMismatch, got {:?}", other.map(|t| t.shape)),
    }
    // The parent scope is unaffected by descents.
    assert_eq!(vb.path("x"), "x");
}

#[test]
fn repeated_gets_return_identical_tensors() {
    let w = f32_tensor(4, 4);
    let data = gguf_bytes(&[("w", &w)]);
    let vb = VarBuilder::from_gguf(data, &Device::Cpu).unwrap();
    let t1 = vb.get(&[4, 4], "w").unwrap();
    let t2 = vb.get(&[4, 4], "w").unwrap();
    assert_eq!(t1.shape, t2.shape);
    assert_eq!(t1.scheme, t2.scheme);
    let v1 = t1.tensor.dequantize(&Device::Cpu).unwrap().flatten_all().unwrap().to_vec1::<f32>().unwrap();
    let v2 = t2.tensor.dequantize(&Device::Cpu).unwrap().flatten_all().unwrap().to_vec1::<f32>().unwrap();
    assert_eq!(v1, v2);
    // An F32 payload decodes to exactly the values that were written.
    let expect: Vec<f32> = (0..16).map(|i| i as f32).collect();
    assert_eq!(v1, expect);
}

#[test]
fn truncated_payload_fails_with_io_error() {
    let w = f32_tensor(4, 4);
    let mut data = gguf_bytes(&[("w", &w)]);
    let n = data.len();
    data.truncate(n - 10);
    let vb = VarBuilder::from_gguf(data, &Device::Cpu).unwrap();
    match vb.get(&[4, 4], "w") {
        Err(Error::Io { name }) => assert_eq!(name, "w"),
        other => panic!("expected Io, got {:?}", other.map(|t| t.shape)),
    }
}

#[test]
fn payload_range_beyond_file_fails_with_io_error() {
    let data = manual_gguf("w", &[32], 2, &[0u8; 4]);
    let vb = VarBuilder::from_gguf(data, &Device::Cpu).unwrap();
    match vb.get_no_shape("w") {
        Err(Error::Io { name }) => assert_eq!(name, "w"),
        other => panic!("expected Io, got {:?}", other.map(|t| t.shape)),
    }
}

#[test]
fn indivisible_element_count_fails_with_codec_error() {
    // 4 x 4 = 16 elements cannot fill whole 32-element Q4_0 blocks.
    let data = manual_gguf("w", &[4, 4], 2, &[0u8; 64]);
    let vb = VarBuilder::from_gguf(data, &Device::Cpu).unwrap();
    match vb.get_no_shape("w") {
        Err(Error::Codec { name }) => assert_eq!(name, "w"),
        other => panic!("expected Codec, got {:?}", other.map(|t| t.shape)),
    }
}

#[test]
fn garbage_header_fails_with_format_error() {
    let vb = VarBuilder::from_gguf(b"not a container".to_vec(), &Device::Cpu);
    assert!(matches!(vb, Err(Error::ContainerFormat)));
}

#[test]
fn zero_dimension_fails_with_format_error() {
    let data = manual_gguf("w", &[0, 4], 0, &[]);
    let vb = VarBuilder::from_gguf(data, &Device::Cpu);
    assert!(matches!(vb, Err(Error::ContainerFormat)));
}

#[test]
fn unknown_dtype_fails_with_format_error() {
    let data = manual_gguf("w", &[4, 4], 99, &[0u8; 64]);
    let vb = VarBuilder::from_gguf(data, &Device::Cpu);
    assert!(matches!(vb, Err(Error::ContainerFormat)));
}

#[test]
fn contains_key_and_device_and_infos() {
    let w = f32_tensor(2, 2);
    let data = gguf_bytes(&[("a.b", &w)]);
    let vb = VarBuilder::from_gguf(data, &Device::Cpu).unwrap();
    assert!(vb.contains_key("a.b"));
    assert!(!vb.contains_key("a"));
    assert!(!vb.contains_key("b"));
    // contains_key takes the fully-qualified name, not a scoped leaf.
    assert!(vb.pp("a").contains_key("a.b"));
    assert!(matches!(vb.device(), Device::Cpu));
    assert_eq!(vb.tensor_infos().len(), 1);
    assert_eq!(vb.tensor_infos()[0].0, "a.b");
    assert_eq!(vb.tensor_infos()[0].1.shape, vec![2, 2]);
    assert_eq!(vb.tensor_infos()[0].1.scheme, Scheme::F32);
}

/// A GGUF v2 container with no tensors and one metadata entry.
fn manual_gguf_metadata(key: &str, vtype: u32, value: &[u8]) -> Vec<u8> {
    let mut v = Vec::new();
    v.extend_from_slice(&0x46554747u32.to_le_bytes());
    v.extend_from_slice(&2u32.to_le_bytes());
    v.extend_from_slice(&0u64.to_le_bytes());
    v.extend_from_slice(&1u64.to_le_bytes());
    v.extend_from_slice(&(key.len() as u64).to_le_bytes());
    v.extend_from_slice(key.as_bytes());
    v.extend_from_slice(&vtype.to_le_bytes());
    v.extend_from_slice(value);
    v
}

#[test]
fn zero_alignment_fails_with_format_error() {
    // The scanner would divide by this declared alignment, so the load
    // must reject it up front instead of handing the bytes over.
    let data = manual_gguf_metadata("general.alignment", 4, &0u32.to_le_bytes());
    let vb = VarBuilder::from_gguf(data, &Device::Cpu);
    assert!(matches!(vb, Err(Error::ContainerFormat)));
    let data = manual_gguf_metadata("general.alignment", 3, &0i16.to_le_bytes());
    let vb = VarBuilder::from_gguf(data, &Device::Cpu);
    assert!(matches!(vb, Err(Error::ContainerFormat)));
    // The same key with a trailing NUL is trimmed before the map is keyed.
    let data = manual_gguf_metadata("general.alignment\0", 4, &0u32.to_le_bytes());
    let vb = VarBuilder::from_gguf(data, &Device::Cpu);
    assert!(matches!(vb, Err(Error::ContainerFormat)));
}

#[test]
fn nonzero_or_non_integer_alignment_loads() {
    let data = manual_gguf_metadata("general.alignment", 4, &64u32.to_le_bytes());
    let vb = VarBuilder::from_gguf(data, &Device::Cpu).unwrap();
    assert!(vb.tensor_infos().is_empty());
    // A string-typed alignment falls back to the scanner's default.
    let mut value = Vec::new();
    value.extend_from_slice(&1u64.to_le_bytes());
    value.push(b'x');
    let data = manual_gguf_metadata("general.alignment", 8, &value);
    let vb = VarBuilder::from_gguf(data, &Device::Cpu).unwrap();
    assert!(vb.tensor_infos().is_empty());
    // A negative signed alignment also falls back to the default.
    let data = manual_gguf_metadata("general.alignment", 5, &(-4i32).to_le_bytes());
    let vb = VarBuilder::from_gguf(data, &Device::Cpu).unwrap();
    assert!(vb.tensor_infos().is_empty());
    // An unrelated metadata key never trips the guard.
    let data = manual_gguf_metadata("general.name", 4, &0u32.to_le_bytes());
    let vb = VarBuilder::from_gguf(data, &Device::Cpu).unwrap();
    assert!(vb.tensor_infos().is_empty());
}
