//! Scoped resolvers over a loaded container: a `VarBuilder` carries a
//! shared reference to the index store, a hierarchical path prefix and a
//! target device; it composes fully-qualified names, validates declared
//! shapes and decodes payload bytes on demand.

use vstd::prelude::*;
use std::sync::Arc;
use candle_core::Device;
use candle_core::quantized::QTensor;
use crate::decode::{clone_device, gguf_header_of, read_qtensor};
use crate::descriptor::{checked_elem_count, elem_count, needed_bytes, Descriptor};
use crate::error::Error;
use crate::guard::alignment_guard_ok;
use crate::index::{lemma_index_map_entry, loadable, IndexData};
use crate::names::{dot, join_dot, spec_full_name};
use crate::scheme::{
    block_size_of, lemma_code_roundtrip, lemma_scheme_sizes, scheme_of_code, Scheme,
};

verus! {

/// A quantized tensor materialized from the container: the declared shape
/// and scheme it was resolved under, the device it is tagged for, and the
/// decoded tensor itself.  Created fresh on every retrieval; ownership
/// transfers fully to the caller.
pub struct DecodedTensor {
    pub shape: Vec<usize>,
    pub scheme: Scheme,
    pub device: Device,
    pub tensor: QTensor,
}

/// A resolver scope: a shared, read-only handle on the index store, a
/// path prefix, and a target device.  Scopes are independent views;
/// descending never mutates the parent.
pub struct VarBuilder {
    pub store: Arc<IndexData>,
    pub path: Vec<String>,
    pub device: Device,
}

impl VarBuilder {
    /// The scope's path prefix, one segment per descent.
    pub open spec fn prefix(&self) -> Seq<Seq<char>> {
        self.path.deep_view()
    }

    /// The store's mapping from fully-qualified name to declared
    /// (shape, dtype code, payload offset).
    pub open spec fn index(&self) -> Map<Seq<char>, (Seq<usize>, u32, u64)> {
        (*self.store).index()
    }

    /// The container bytes and payload origin the scope reads from.
    pub open spec fn spec_store(&self) -> IndexData {
        *self.store
    }

    /// A well-formed scope: its store's entry names are unique and every
    /// descriptor is well formed.
    pub open spec fn wf(&self) -> bool {
        (*self.store).wf()
    }

    /// The scheme declared for a present name.
    pub open spec fn scheme_at(&self, full: Seq<char>) -> Scheme {
        scheme_of_code(self.index()[full].1).unwrap()
    }

    /// Whether a present name's element count divides into whole blocks of
    /// its scheme.
    pub open spec fn divisible_at(&self, full: Seq<char>) -> bool {
        elem_count(self.index()[full].0) % (block_size_of(self.scheme_at(full)) as int) == 0
    }

    /// Whether a present name's payload byte range lies within the
    /// container.
    pub open spec fn in_bounds_at(&self, full: Seq<char>) -> bool {
        (*self.store).tensor_data_offset + self.index()[full].2 + needed_bytes(
            self.index()[full].0,
            self.scheme_at(full),
        ) <= (*self.store).data@.len()
    }

    /// What a retrieval returns once the name resolved and any shape check
    /// passed: a block-count mismatch is a codec error, an out-of-range
    /// byte range is an I/O error, and otherwise the decode either
    /// succeeds with the declared metadata or is rejected as a codec
    /// error.
    pub open spec fn fetch_post(&self, full: Seq<char>, r: Result<DecodedTensor, Error>) -> bool {
        &&& !self.divisible_at(full) ==> (r matches Err(Error::Codec { name }) && name@ == full)
        &&& self.divisible_at(full) && !self.in_bounds_at(full) ==> (r matches Err(
            Error::Io { name },
        ) && name@ == full)
        &&& self.divisible_at(full) && self.in_bounds_at(full) ==> (r is Ok || (r matches Err(
            Error::Codec { name },
        ) && name@ == full))
        &&& r matches Ok(t) ==> {
            &&& t.shape@ == self.index()[full].0
            &&& t.scheme == self.scheme_at(full)
            &&& t.device == self.device
            &&& self.divisible_at(full)
            &&& self.in_bounds_at(full)
        }
    }

    /// Scans a container's header and builds the root scope (empty path)
    /// over it, targeting the given device.  Fails with a format error
    /// exactly when the header cannot be parsed, a scanned descriptor is
    /// malformed, or the metadata declares a zero alignment (the guard
    /// holds such bytes back from the scanner, which would not survive
    /// them); construction fails fast, before any tensor is usable.  Under
    /// duplicate names in the header the last occurrence wins, as the
    /// scanner keys its table by name.
    pub fn from_gguf(data: Vec<u8>, device: &Device) -> (r: Result<VarBuilder, Error>)
        ensures
            r is Ok <==> alignment_guard_ok(data@) && loadable(data@),
            r matches Ok(vb) ==> {
                &&& vb.wf()
                &&& vb.index() == gguf_header_of(data@).unwrap().0
                &&& vb.prefix() == Seq::<Seq<char>>::empty()
                &&& vb.device == *device
                &&& vb.spec_store().data@ == data@
                &&& vb.spec_store().tensor_data_offset == gguf_header_of(data@).unwrap().1
            },
            r matches Err(e) ==> e is ContainerFormat,
    {
        let ix = match IndexData::build(data) {
            Err(e) => {
                return Err(e);
            },
            Ok(ix) => ix,
        };
        let vb = VarBuilder {
            store: Arc::new(ix),
            path: Vec::new(),
            device: clone_device(device),
        };
        proof {
            assert(vb.prefix() =~= Seq::<Seq<char>>::empty());
        }
        Ok(vb)
    }

    /// Descends into a child scope: the returned scope shares the same
    /// store and device and carries the parent's path extended by one
    /// segment; the parent is unaffected.
    pub fn pp(&self, s: &str) -> (r: VarBuilder)
        ensures
            r.spec_store() == self.spec_store(),
            r.index() == self.index(),
            r.prefix() == self.prefix().push(s@),
            r.device == self.device,
            r.wf() == self.wf(),
    {
        let mut path: Vec<String> = Vec::new();
        let n = self.path.len();
        for i in 0..n
            invariant
                n == self.path@.len(),
                path@.len() == i,
                forall|j: int| 0 <= j < i ==> path@[j] == self.path@[j],
        {
            let seg = &self.path[i];
            path.push(seg.clone());
        }
        path.push(s.to_owned());
        let r = VarBuilder { store: self.store.clone(), path, device: clone_device(&self.device) };
        proof {
            assert(r.prefix() =~~= self.prefix().push(s@));
        }
        r
    }

    /// Composes the fully-qualified name for a leaf under this scope: the
    /// leaf alone for an empty path, otherwise the path segments joined by
    /// '.', then '.', then the leaf.
    pub fn path(&self, tensor_name: &str) -> (r: String)
        ensures
            r@ == spec_full_name(self.prefix(), tensor_name@),
    {
        let mut out = String::new();
        let n = self.path.len();
        for i in 0..n
            invariant
                n == self.path@.len(),
                out@ == if i == 0 {
                    Seq::<char>::empty()
                } else {
                    join_dot(self.prefix().take(i as int))
                },
        {
            proof {
                reveal_strlit(".");
                let pfx = self.prefix();
                assert(pfx.take(i as int + 1).drop_last() =~= pfx.take(i as int));
                assert(pfx.take(i as int + 1).last() == pfx[i as int]);
            }
            if i > 0 {
                out.append(".");
            }
            let seg = &self.path[i];
            out.append(seg.as_str());
            proof {
                let pfx = self.prefix();
                if i == 0 {
                    assert(out@ =~= join_dot(pfx.take(1)));
                } else {
                    assert(out@ =~= join_dot(pfx.take(i as int)) + dot() + pfx[i as int]);
                }
            }
        }
        proof {
            reveal_strlit(".");
            assert(self.prefix().take(n as int) =~= self.prefix());
        }
        if n > 0 {
            out.append(".");
        }
        out.append(tensor_name);
        proof {
            assert(out@ =~= spec_full_name(self.prefix(), tensor_name@));
        }
        out
    }

    /// Decodes the tensor a resolved descriptor points at: checks that the
    /// element count divides into whole blocks and that the payload byte
    /// range lies within the container, then dispatches to the scheme's
    /// codec.
    fn fetch(&self, d: &Descriptor, full: String) -> (r: Result<DecodedTensor, Error>)
        requires
            self.wf(),
            d.wf(),
            self.index().contains_key(full@),
            self.index()[full@] == d@,
        ensures
            self.fetch_post(full@, r),
            r is Err ==> !(r matches Err(Error::NotFound { .. })) && !(r matches Err(
                Error::ShapeMismatch { .. },
            )),
    {
        proof {
            lemma_code_roundtrip(d.scheme);
            lemma_scheme_sizes(d.scheme);
        }
        let elems = match checked_elem_count(&d.shape) {
            Some(v) => v,
            None => {
                proof {
                    assert(false);
                }
                return Err(Error::Codec { name: full });
            },
        };
        let bs = d.scheme.block_size();
        if elems % bs != 0 {
            return Err(Error::Codec { name: full });
        }
        let ts = d.scheme.type_size();
        let blocks = elems / bs;
        proof {
            assert((blocks as u128) * (ts as u128) <= 0xffff_ffff_ffff_ffff * 292)
                by (nonlinear_arith)
                requires
                    0 <= blocks <= 0xffff_ffff_ffff_ffff,
                    0 <= ts <= 292,
            ;
        }
        let needed: u128 = (blocks as u128) * (ts as u128);
        let total: u128 = (self.store.tensor_data_offset as u128) + (d.offset as u128) + needed;
        if total > (self.store.data.len() as u128) {
            return Err(Error::Io { name: full });
        }
        match read_qtensor(&self.store.data, d, self.store.tensor_data_offset, &self.device) {
            None => Err(Error::Codec { name: full }),
            Some(q) => {
                let shape = copy_dims(&d.shape);
                Ok(
                    DecodedTensor {
                        shape,
                        scheme: d.scheme,
                        device: clone_device(&self.device),
                        tensor: q,
                    },
                )
            },
        }
    }

    /// Resolves a leaf name under this scope, validates the declared shape
    /// against the caller's expectation, and decodes the tensor.  Fails
    /// with `NotFound` exactly when the composed name is absent, with
    /// `ShapeMismatch` (carrying both shapes) exactly when the declared
    /// shape differs from the expected one, and otherwise only the payload
    /// read or decode itself can reject the tensor.
    pub fn get(&self, s: &[usize], name: &str) -> (r: Result<DecodedTensor, Error>)
        requires
            self.wf(),
        ensures
            ({
                let full = spec_full_name(self.prefix(), name@);
                &&& !self.index().contains_key(full) ==> (r matches Err(
                    Error::NotFound { name: n },
                ) && n@ == full)
                &&& self.index().contains_key(full) && self.index()[full].0 != s@ ==> (r matches
                Err(Error::ShapeMismatch { name: n, found, expected }) && n@ == full && found@
                    == self.index()[full].0 && expected@ == s@)
                &&& self.index().contains_key(full) && self.index()[full].0 == s@
                    ==> self.fetch_post(full, r) && !(r matches Err(Error::NotFound { .. })) && !(
                r matches Err(Error::ShapeMismatch { .. }))
                &&& r matches Err(Error::NotFound { .. }) ==> !self.index().contains_key(full)
                &&& r is Ok ==> self.index().contains_key(full) && self.index()[full].0 == s@
            }),
    {
        let full = self.path(name);
        match self.store.find(&full) {
            None => Err(Error::NotFound { name: full }),
            Some(d) => {
                proof {
                    let i = choose|i: int|
                        0 <= i < self.store.entries@.len() && (#[trigger] self.store.entries@[i]).1
                            == *d;
                    assert(self.store.entries@[i].1.wf());
                }
                if !dims_equal(s, &d.shape) {
                    let found = copy_dims(&d.shape);
                    let expected = slice_to_dims(s);
                    return Err(Error::ShapeMismatch { name: full, found, expected });
                }
                self.fetch(d, full)
            },
        }
    }

    /// Resolves a leaf name under this scope and decodes the tensor
    /// without any shape check.  Still fails with `NotFound` exactly when
    /// the composed name is absent; a successful result carries the
    /// declared shape.
    pub fn get_no_shape(&self, name: &str) -> (r: Result<DecodedTensor, Error>)
        requires
            self.wf(),
        ensures
            ({
                let full = spec_full_name(self.prefix(), name@);
                &&& !self.index().contains_key(full) ==> (r matches Err(
                    Error::NotFound { name: n },
                ) && n@ == full)
                &&& self.index().contains_key(full) ==> self.fetch_post(full, r) && !(r matches
                Err(Error::NotFound { .. }))
                &&& r matches Err(Error::NotFound { .. }) ==> !self.index().contains_key(full)
                &&& r is Ok ==> self.index().contains_key(full)
            }),
    {
        let full = self.path(name);
        match self.store.find(&full) {
            None => Err(Error::NotFound { name: full }),
            Some(d) => {
                proof {
                    let i = choose|i: int|
                        0 <= i < self.store.entries@.len() && (#[trigger] self.store.entries@[i]).1
                            == *d;
                    assert(self.store.entries@[i].1.wf());
                }
                self.fetch(d, full)
            },
        }
    }

    /// The scope's target device.
    pub fn device(&self) -> (r: &Device)
        ensures
            *r == self.device,
    {
        &self.device
    }

    /// Whether a fully-qualified name (not composed with this scope's
    /// path) is present in the index.  Pure membership test, no I/O.
    pub fn contains_key(&self, key: &str) -> (r: bool)
        requires
            self.wf(),
        ensures
            r == self.index().contains_key(key@),
    {
        let k = key.to_owned();
        match self.store.find(&k) {
            Some(_) => true,
            None => false,
        }
    }

    /// The full descriptor table, one entry per tensor: a read-only view
    /// for diagnostics and tooling.
    pub fn tensor_infos(&self) -> (r: &Vec<(String, Descriptor)>)
        ensures
            r@ == self.spec_store().entries@,
    {
        &self.store.entries
    }
}

/// Decides element-wise equality of an expected shape and a declared one.
fn dims_equal(a: &[usize], b: &Vec<usize>) -> (r: bool)
    ensures
        r == (a@ == b@),
{
    if a.len() != b.len() {
        return false;
    }
    let n = a.len();
    for i in 0..n
        invariant
            n == a@.len(),
            n == b@.len(),
            forall|j: int| 0 <= j < i ==> a@[j] == b@[j],
    {
        if a[i] != b[i] {
            return false;
        }
    }
    proof {
        assert(a@ =~= b@);
    }
    true
}

/// Copies a declared shape out of a descriptor.
fn copy_dims(v: &Vec<usize>) -> (r: Vec<usize>)
    ensures
        r@ == v@,
{
    let mut out: Vec<usize> = Vec::new();
    let n = v.len();
    for i in 0..n
        invariant
            n == v@.len(),
            out@.len() == i,
            forall|j: int| 0 <= j < i ==> out@[j] == v@[j],
    {
        out.push(v[i]);
    }
    proof {
        assert(out@ =~= v@);
    }
    out
}

/// Copies an expected shape out of a caller's slice.
fn slice_to_dims(v: &[usize]) -> (r: Vec<usize>)
    ensures
        r@ == v@,
{
    let mut out: Vec<usize> = Vec::new();
    let n = v.len();
    for i in 0..n
        invariant
            n == v@.len(),
            out@.len() == i,
            forall|j: int| 0 <= j < i ==> out@[j] == v@[j],
    {
        out.push(v[i]);
    }
    proof {
        assert(out@ =~= v@);
    }
    out
}

/// Retrieval is idempotent in everything the index pins down: two
/// independent successful `get` calls for the same leaf name and expected
/// shape on the same scope return tensors with equal shape, equal scheme
/// and equal device tag, because each result is pinned to the descriptor
/// recorded in the immutable, shared index and no hidden mutable state
/// affects repeated reads.  (Equality of the decoded payload bytes is
/// exercised by test; decoded tensors are opaque to the proof.)
pub proof fn lemma_get_idempotent(
    vb: &VarBuilder,
    s: &[usize],
    name: &str,
    r1: Result<DecodedTensor, Error>,
    r2: Result<DecodedTensor, Error>,
)
    requires
        VarBuilder::get.ensures((vb, s, name), r1),
        VarBuilder::get.ensures((vb, s, name), r2),
        r1 is Ok,
        r2 is Ok,
    ensures
        r1.unwrap().shape@ == r2.unwrap().shape@,
        r1.unwrap().scheme == r2.unwrap().scheme,
        r1.unwrap().device == r2.unwrap().device,
{
}

/// Every name in the descriptor table resolves to exactly its own
/// descriptor, so retrieving a listed name with its own declared shape can
/// fail on neither lookup nor shape grounds.
pub proof fn lemma_listed_names_resolve(vb: VarBuilder, i: int)
    requires
        vb.wf(),
        0 <= i < vb.spec_store().entries@.len(),
    ensures
        vb.index().contains_key(vb.spec_store().entries@[i].0@),
        vb.index()[vb.spec_store().entries@[i].0@] == vb.spec_store().entries@[i].1@,
{
    lemma_index_map_entry(vb.spec_store().entries@, i);
}

} // verus!
