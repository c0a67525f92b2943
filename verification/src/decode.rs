//! The trusted boundary to candle's GGUF machinery: the header scan that
//! yields the tensor-info table, and the per-scheme decode of one tensor's
//! payload bytes.  Everything else in this crate is verified against the
//! contracts stated here.

use vstd::prelude::*;
use crate::descriptor::RawInfo;
use candle_core::Device;
use candle_core::quantized::QTensor;

verus! {

#[verifier::external_type_specification]
#[verifier::external_body]
pub struct ExDevice(Device);

#[verifier::external_type_specification]
#[verifier::external_body]
pub struct ExQTensor(QTensor);

#[verifier::external_type_specification]
#[verifier::external_body]
pub struct ExGgmlDType(candle_core::quantized::GgmlDType);

/// What a GGUF header scan yields for a given container: `None` when the
/// header cannot be parsed, otherwise the table mapping each tensor's
/// fully-qualified name to its declared (shape, dtype code, payload
/// offset), together with the byte offset at which tensor payload data
/// begins.
pub uninterp spec fn gguf_header_of(data: Seq<u8>) -> Option<
    (Map<Seq<char>, (Seq<usize>, u32, u64)>, u64),
>;

/// Relies on candle_core::quantized::gguf_file::Content::read: it scans
/// the container header once and yields one entry per tensor plus the
/// tensor-data origin offset, and it fails exactly when the header cannot
/// be parsed.  The entry names are unique because candle collects them
/// into a HashMap keyed by name; under duplicate names in the header, the
/// last occurrence wins.  Each entry's opaque dtype and its plain code
/// come from the same scanned header field.  The scanner divides by a
/// container-declared alignment with no zero check, so callers must hold
/// back containers the alignment guard rejects: on those inputs the
/// scanner does not return.
#[verifier::external_body]
pub(crate) fn parse_gguf_header(data: &Vec<u8>) -> (r: Option<(Vec<(String, RawInfo)>, u64)>)
    requires
        crate::guard::alignment_guard_ok(data@),
    ensures
        r is Some <==> gguf_header_of(data@) is Some,
        r matches Some(p) ==> {
            let h = gguf_header_of(data@).unwrap();
            &&& p.1 == h.1
            &&& forall|i: int|
                #![trigger p.0@[i]]
                0 <= i < p.0@.len() ==> h.0.contains_key(p.0@[i].0@) && h.0[p.0@[i].0@]
                    == p.0@[i].1@
            &&& forall|i: int, j: int|
                #![trigger p.0@[i], p.0@[j]]
                0 <= i < j < p.0@.len() ==> p.0@[i].0@ != p.0@[j].0@
            &&& forall|k: Seq<char>|
                #![trigger h.0.contains_key(k)]
                h.0.contains_key(k) ==> exists|i: int|
                    #![trigger p.0@[i]]
                    0 <= i < p.0@.len() && p.0@[i].0@ == k
        },
{
    let mut cursor = std::io::Cursor::new(data.as_slice());
    let content = match candle_core::quantized::gguf_file::Content::read(&mut cursor) {
        Ok(c) => c,
        Err(_) => return None,
    };
    let offset = content.tensor_data_offset;
    let entries = content.tensor_infos.into_iter().map(|(name, i)| {
        let dims = i.shape.dims().to_vec();
        let raw = RawInfo { dims, code: i.ggml_dtype as u32, offset: i.offset, dtype: i.ggml_dtype };
        (name, raw)
    }).collect();
    Some((entries, offset))
}

/// Relies on candle_core::quantized::gguf_file::TensorInfo::read: it reads
/// the tensor's byte range from the container (payload origin plus the
/// descriptor's offset) and dispatches to the codec of the declared dtype,
/// yielding a quantized tensor placed on the given device.  `None` reports
/// that the read or the decode rejected the bytes.  The reader computes
/// the element count and the payload byte size with unchecked arithmetic,
/// so both must fit the machine's size type; the descriptor's `dtype` and
/// `scheme` denote the same dtype by construction.
#[verifier::external_body]
pub(crate) fn read_qtensor(
    data: &Vec<u8>,
    d: &crate::descriptor::Descriptor,
    data_offset: u64,
    device: &Device,
) -> (r: Option<QTensor>)
    requires
        d.wf(),
        crate::descriptor::needed_bytes(d.shape@, d.scheme) <= usize::MAX,
{
    let info = candle_core::quantized::gguf_file::TensorInfo {
        ggml_dtype: d.dtype,
        shape: candle_core::Shape::from(d.shape.clone()),
        offset: d.offset,
    };
    let mut cursor = std::io::Cursor::new(data.as_slice());
    match info.read(&mut cursor, data_offset, device) {
        Ok(q) => Some(q),
        Err(_) => None,
    }
}

/// Relies on candle_core::Device's derived Clone: a clone denotes the same
/// device (for accelerator devices it shares the same underlying handle).
#[verifier::external_body]
pub(crate) fn clone_device(d: &Device) -> (r: Device)
    ensures
        r == *d,
{
    d.clone()
}

} // verus!
